//! The rewards contract: an admin credits points to accounts, accounts claim
//! them, and the contract keeps the total ever claimed.
//!
//! `RewardsView` is the model: each entry point is an open spec function on
//! it, and the executable `Rewards` is proved to follow it. The host side
//! (who signed the call, publishing events, storage) is the caller's part: it
//! hands in the authenticated caller and publishes the events that a
//! successful call appends.

use vstd::prelude::*;
use crate::account::{AccountId, account_views, find_account, all_distinct};

verus! {

/// The storage layout version that this code reads and writes.
pub const SCHEMA_VERSION: u32 = 1;

/// A campaign multiplier is in basis points: this many make one.
pub const BPS_ONE: u32 = 10000;

/// Why a rewards call was refused. A refused call changes nothing.
#[derive(Debug, Clone, Copy, PartialEq, Eq, Structural)]
pub enum RewardsError {
    NotInitialized,
    AlreadyInitialized,
    Unauthorized,
    CreditLimitExceeded,
    InsufficientBalance,
    Overflow,
    UnsupportedMigration,
}

/// What a successful rewards call announces.
#[derive(Debug, PartialEq, Eq)]
pub enum RewardsEvent {
    Credited { user: AccountId, amount: u64 },
    Claimed { user: AccountId, amount: u64 },
    Transferred { from: AccountId, to: AccountId, amount: u64 },
    MaxCreditPerCallSet { limit: u64 },
    CampaignMultiplierSet { campaign_id: u64, bps: u32 },
}

/// An announced event, with accounts by their address text.
pub enum RewardsEventView {
    Credited(Seq<char>, u64),
    Claimed(Seq<char>, u64),
    Transferred(Seq<char>, Seq<char>, u64),
    MaxCreditPerCallSet(u64),
    CampaignMultiplierSet(u64, u32),
}

impl View for RewardsEvent {
    type V = RewardsEventView;

    open spec fn view(&self) -> RewardsEventView {
        match self {
            RewardsEvent::Credited { user, amount } => RewardsEventView::Credited(user@, *amount),
            RewardsEvent::Claimed { user, amount } => RewardsEventView::Claimed(user@, *amount),
            RewardsEvent::Transferred { from, to, amount } => RewardsEventView::Transferred(from@, to@, *amount),
            RewardsEvent::MaxCreditPerCallSet { limit } => RewardsEventView::MaxCreditPerCallSet(*limit),
            RewardsEvent::CampaignMultiplierSet { campaign_id, bps } => RewardsEventView::CampaignMultiplierSet(*campaign_id, *bps),
        }
    }
}

/// The views of a list of events.
pub open spec fn event_views(v: Seq<RewardsEvent>) -> Seq<RewardsEventView> {
    v.map_values(|e: RewardsEvent| e@)
}

/// The views of a list of (recipient, amount) pairs.
pub open spec fn recipient_views(v: Seq<(AccountId, u64)>) -> Seq<(Seq<char>, u64)> {
    v.map_values(|r: (AccountId, u64)| (r.0@, r.1))
}

/// The credit events of a batch, one per recipient, in order.
pub open spec fn batch_events(rs: Seq<(Seq<char>, u64)>) -> Seq<RewardsEventView> {
    rs.map_values(|r: (Seq<char>, u64)| RewardsEventView::Credited(r.0, r.1))
}

/// The sum of a list of amounts.
pub open spec fn sum_amounts(s: Seq<u64>) -> int
    decreases s.len(),
{
    if s.len() == 0 {
        0
    } else {
        sum_amounts(s.drop_last()) + s.last()
    }
}

/// The sum of the amounts of a batch.
pub open spec fn batch_total(rs: Seq<(Seq<char>, u64)>) -> int
    decreases rs.len(),
{
    if rs.len() == 0 {
        0
    } else {
        batch_total(rs.drop_last()) + rs.last().1
    }
}

/// `amount` scaled by `bps` basis points, rounded down.
pub open spec fn scaled(amount: u64, bps: u32) -> int {
    (amount as int) * (bps as int) / (BPS_ONE as int)
}

/// No campaign has two multipliers.
pub open spec fn campaign_ids_unique(m: Seq<(u64, u32)>) -> bool {
    forall|i: int, j: int| 0 <= i < m.len() && 0 <= j < m.len() && i != j ==> #[trigger] m[i].0 != #[trigger] m[j].0
}

/// The state of the rewards contract.
pub struct RewardsView {
    /// Who may credit and change settings; `None` until initialized.
    pub admin: Option<Seq<char>>,
    /// The token's name and symbol.
    pub name: Seq<char>,
    pub symbol: Seq<char>,
    /// The accounts that hold a balance entry, and their balances, side by side.
    pub accounts: Seq<Seq<char>>,
    pub amounts: Seq<u64>,
    /// All that was ever claimed.
    pub total_claimed: u64,
    /// The most one credit may add; 0 sets no bound.
    pub max_credit_per_call: u64,
    /// Campaign id and its multiplier in basis points.
    pub multipliers: Seq<(u64, u32)>,
}

impl RewardsView {
    /// A contract that has not been initialized.
    pub open spec fn fresh() -> RewardsView {
        RewardsView {
            admin: None,
            name: "Trivela"@,
            symbol: "TVL"@,
            accounts: Seq::empty(),
            amounts: Seq::empty(),
            total_claimed: 0,
            max_credit_per_call: 0,
            multipliers: Seq::empty(),
        }
    }

    /// Each account has one balance entry, and each campaign one multiplier.
    pub open spec fn wf(self) -> bool {
        &&& self.accounts.len() == self.amounts.len()
        &&& self.accounts.no_duplicates()
        &&& campaign_ids_unique(self.multipliers)
    }

    pub open spec fn index_of(self, who: Seq<char>) -> int {
        choose|i: int| 0 <= i < self.accounts.len() && self.accounts[i] == who
    }

    /// The balance of `who`; 0 for an account never credited.
    pub open spec fn balance(self, who: Seq<char>) -> u64 {
        if self.accounts.contains(who) {
            self.amounts[self.index_of(who)]
        } else {
            0
        }
    }

    /// The state with the balance of `who` set to `v`.
    pub open spec fn with_balance(self, who: Seq<char>, v: u64) -> RewardsView {
        if self.accounts.contains(who) {
            RewardsView { amounts: self.amounts.update(self.index_of(who), v), ..self }
        } else {
            RewardsView { accounts: self.accounts.push(who), amounts: self.amounts.push(v), ..self }
        }
    }

    /// All points in existence: the balances and what was claimed.
    pub open spec fn total_supply(self) -> int {
        sum_amounts(self.amounts) + self.total_claimed
    }

    pub open spec fn has_multiplier(self, campaign_id: u64) -> bool {
        exists|i: int| 0 <= i < self.multipliers.len() && #[trigger] self.multipliers[i].0 == campaign_id
    }

    pub open spec fn multiplier_index(self, campaign_id: u64) -> int {
        choose|i: int| 0 <= i < self.multipliers.len() && #[trigger] self.multipliers[i].0 == campaign_id
    }

    /// The multiplier of a campaign; one (`BPS_ONE`) when none was set.
    pub open spec fn multiplier(self, campaign_id: u64) -> u32 {
        if self.has_multiplier(campaign_id) {
            self.multipliers[self.multiplier_index(campaign_id)].1
        } else {
            BPS_ONE
        }
    }

    pub open spec fn with_multiplier(self, campaign_id: u64, bps: u32) -> RewardsView {
        if self.has_multiplier(campaign_id) {
            RewardsView {
                multipliers: self.multipliers.update(self.multiplier_index(campaign_id), (campaign_id, bps)),
                ..self
            }
        } else {
            RewardsView { multipliers: self.multipliers.push((campaign_id, bps)), ..self }
        }
    }

    /// `initialize`: sets the admin, the name and the symbol.
    pub open spec fn initialize(self, admin: Seq<char>, name: Seq<char>, symbol: Seq<char>) -> Result<((), RewardsView), RewardsError> {
        if self.admin is Some {
            Err(RewardsError::AlreadyInitialized)
        } else {
            Ok(((), RewardsView { admin: Some(admin), name, symbol, ..self }))
        }
    }

    /// Admin calls are accepted from the admin only.
    pub open spec fn check_admin(self, caller: Seq<char>) -> Result<(), RewardsError> {
        match self.admin {
            None => Err(RewardsError::NotInitialized),
            Some(a) => if a != caller {
                Err(RewardsError::Unauthorized)
            } else {
                Ok(())
            },
        }
    }

    /// Adds `amount` to the balance of `user`, within the per-call limit and
    /// without overflow; gives the new balance.
    pub open spec fn apply_credit(self, user: Seq<char>, amount: u64) -> Result<(u64, RewardsView), RewardsError> {
        if self.max_credit_per_call != 0 && amount > self.max_credit_per_call {
            Err(RewardsError::CreditLimitExceeded)
        } else if self.balance(user) + amount > u64::MAX {
            Err(RewardsError::Overflow)
        } else {
            let b = (self.balance(user) + amount) as u64;
            Ok((b, self.with_balance(user, b)))
        }
    }

    /// `credit`.
    pub open spec fn credit(self, caller: Seq<char>, user: Seq<char>, amount: u64) -> Result<(u64, RewardsView), RewardsError> {
        match self.check_admin(caller) {
            Err(e) => Err(e),
            Ok(_) => self.apply_credit(user, amount),
        }
    }

    /// Credits every recipient in order; the first refusal refuses the whole batch.
    pub open spec fn apply_batch(self, rs: Seq<(Seq<char>, u64)>) -> Result<RewardsView, RewardsError>
        decreases rs.len(),
    {
        if rs.len() == 0 {
            Ok(self)
        } else {
            match self.apply_batch(rs.drop_last()) {
                Err(e) => Err(e),
                Ok(t) => match t.apply_credit(rs.last().0, rs.last().1) {
                    Err(e) => Err(e),
                    Ok((_, u)) => Ok(u),
                },
            }
        }
    }

    /// `batch_credit`.
    pub open spec fn batch_credit(self, caller: Seq<char>, rs: Seq<(Seq<char>, u64)>) -> Result<((), RewardsView), RewardsError> {
        match self.check_admin(caller) {
            Err(e) => Err(e),
            Ok(_) => match self.apply_batch(rs) {
                Err(e) => Err(e),
                Ok(t) => Ok(((), t)),
            },
        }
    }

    /// `claim`: takes `amount` out of the balance of `user` into the claimed
    /// total; gives the new balance.
    pub open spec fn claim(self, user: Seq<char>, amount: u64) -> Result<(u64, RewardsView), RewardsError> {
        if amount > self.balance(user) {
            Err(RewardsError::InsufficientBalance)
        } else if self.total_claimed + amount > u64::MAX {
            Err(RewardsError::Overflow)
        } else {
            let b = (self.balance(user) - amount) as u64;
            Ok((b, RewardsView { total_claimed: (self.total_claimed + amount) as u64, ..self.with_balance(user, b) }))
        }
    }

    /// `admin_transfer`: moves `amount` from one balance to another.
    pub open spec fn admin_transfer(self, caller: Seq<char>, from: Seq<char>, to: Seq<char>, amount: u64) -> Result<((), RewardsView), RewardsError> {
        match self.check_admin(caller) {
            Err(e) => Err(e),
            Ok(_) => if amount > self.balance(from) {
                Err(RewardsError::InsufficientBalance)
            } else {
                let t = self.with_balance(from, (self.balance(from) - amount) as u64);
                if t.balance(to) + amount > u64::MAX {
                    Err(RewardsError::Overflow)
                } else {
                    Ok(((), t.with_balance(to, (t.balance(to) + amount) as u64)))
                }
            },
        }
    }

    /// `set_max_credit_per_call`.
    pub open spec fn set_max_credit_per_call(self, caller: Seq<char>, limit: u64) -> Result<((), RewardsView), RewardsError> {
        match self.check_admin(caller) {
            Err(e) => Err(e),
            Ok(_) => Ok(((), RewardsView { max_credit_per_call: limit, ..self })),
        }
    }

    /// `set_campaign_multiplier`.
    pub open spec fn set_campaign_multiplier(self, caller: Seq<char>, campaign_id: u64, bps: u32) -> Result<((), RewardsView), RewardsError> {
        match self.check_admin(caller) {
            Err(e) => Err(e),
            Ok(_) => Ok(((), self.with_multiplier(campaign_id, bps))),
        }
    }

    /// `credit_for_campaign`: credits `amount` scaled by the campaign's
    /// multiplier, rounded down.
    pub open spec fn credit_for_campaign(self, caller: Seq<char>, user: Seq<char>, campaign_id: u64, amount: u64) -> Result<(u64, RewardsView), RewardsError> {
        match self.check_admin(caller) {
            Err(e) => Err(e),
            Ok(_) => if scaled(amount, self.multiplier(campaign_id)) > u64::MAX {
                Err(RewardsError::Overflow)
            } else {
                self.apply_credit(user, scaled(amount, self.multiplier(campaign_id)) as u64)
            },
        }
    }

    /// `migrate`: only the admin may ask, and only for the current version.
    pub open spec fn migrate(self, caller: Seq<char>, target: u32) -> Result<u32, RewardsError> {
        match self.check_admin(caller) {
            Err(e) => Err(e),
            Ok(_) => if target != SCHEMA_VERSION {
                Err(RewardsError::UnsupportedMigration)
            } else {
                Ok(SCHEMA_VERSION)
            },
        }
    }

    /// Finding an account at an index finds the index.
    pub proof fn lemma_index_of(self, who: Seq<char>, i: int)
        requires
            self.wf(),
            0 <= i < self.accounts.len(),
            self.accounts[i] == who,
        ensures
            self.accounts.contains(who),
            self.index_of(who) == i,
    {
        assert(self.accounts.contains(who));
    }

    /// Finding a campaign at an index finds the index.
    pub proof fn lemma_multiplier_index(self, campaign_id: u64, i: int)
        requires
            self.wf(),
            0 <= i < self.multipliers.len(),
            self.multipliers[i].0 == campaign_id,
        ensures
            self.has_multiplier(campaign_id),
            self.multiplier_index(campaign_id) == i,
    {
        assert(self.has_multiplier(campaign_id));
    }

    /// Writing a balance keeps the state well formed, and reading it back
    /// gives what was written; other balances stay as they were.
    pub proof fn lemma_with_balance(self, who: Seq<char>, v: u64, other: Seq<char>)
        requires
            self.wf(),
        ensures
            self.with_balance(who, v).wf(),
            self.with_balance(who, v).balance(who) == v,
            other != who ==> self.with_balance(who, v).balance(other) == self.balance(other),
            self.with_balance(who, v).total_supply() == self.total_supply() - self.balance(who) + v,
    {
        let t = self.with_balance(who, v);
        if self.accounts.contains(who) {
            let i = self.index_of(who);
            t.lemma_index_of(who, i);
            lemma_sum_update(self.amounts, i, v);
            if t.accounts.contains(other) {
                let j = t.index_of(other);
                self.lemma_index_of(other, j);
            }
        } else {
            let n = self.accounts.len() as int;
            assert forall|i: int, j: int| 0 <= i < t.accounts.len() && 0 <= j < t.accounts.len() && i != j
                implies t.accounts[i] != t.accounts[j] by {
                if i == n {
                    assert(self.accounts[j] == t.accounts[j]);
                } else if j == n {
                    assert(self.accounts[i] == t.accounts[i]);
                }
            }
            t.lemma_index_of(who, n);
            assert(t.amounts.drop_last() =~= self.amounts);
            if t.accounts.contains(other) && other != who {
                let j = t.index_of(other);
                assert(j != n);
                self.lemma_index_of(other, j);
            }
            if self.accounts.contains(other) {
                let j = self.index_of(other);
                t.lemma_index_of(other, j);
            }
        }
    }

    /// Writing a multiplier keeps the state well formed, and reading it back
    /// gives what was written; other campaigns keep theirs.
    pub proof fn lemma_with_multiplier(self, campaign_id: u64, bps: u32, other: u64)
        requires
            self.wf(),
        ensures
            self.with_multiplier(campaign_id, bps).wf(),
            self.with_multiplier(campaign_id, bps).multiplier(campaign_id) == bps,
            other != campaign_id ==> self.with_multiplier(campaign_id, bps).multiplier(other) == self.multiplier(other),
    {
        let t = self.with_multiplier(campaign_id, bps);
        if self.has_multiplier(campaign_id) {
            let i = self.multiplier_index(campaign_id);
            assert forall|a: int, b: int| 0 <= a < t.multipliers.len() && 0 <= b < t.multipliers.len() && a != b
                implies #[trigger] t.multipliers[a].0 != #[trigger] t.multipliers[b].0 by {
                assert(self.multipliers[a].0 == t.multipliers[a].0);
                assert(self.multipliers[b].0 == t.multipliers[b].0);
            }
            t.lemma_multiplier_index(campaign_id, i);
            if t.has_multiplier(other) && other != campaign_id {
                let j = t.multiplier_index(other);
                self.lemma_multiplier_index(other, j);
            }
            if self.has_multiplier(other) && other != campaign_id {
                let j = self.multiplier_index(other);
                t.lemma_multiplier_index(other, j);
            }
        } else {
            let n = self.multipliers.len() as int;
            assert forall|a: int, b: int| 0 <= a < t.multipliers.len() && 0 <= b < t.multipliers.len() && a != b
                implies #[trigger] t.multipliers[a].0 != #[trigger] t.multipliers[b].0 by {
                if a == n {
                    assert(self.multipliers[b].0 == t.multipliers[b].0);
                } else if b == n {
                    assert(self.multipliers[a].0 == t.multipliers[a].0);
                } else {
                    assert(self.multipliers[a].0 == t.multipliers[a].0);
                    assert(self.multipliers[b].0 == t.multipliers[b].0);
                }
            }
            t.lemma_multiplier_index(campaign_id, n);
            if t.has_multiplier(other) && other != campaign_id {
                let j = t.multiplier_index(other);
                assert(j != n);
                self.lemma_multiplier_index(other, j);
            }
            if self.has_multiplier(other) {
                let j = self.multiplier_index(other);
                t.lemma_multiplier_index(other, j);
            }
        }
    }
}

/// A refusal part-way through a batch refuses the whole batch with it.
pub proof fn lemma_batch_prefix_error(s: RewardsView, rs: Seq<(Seq<char>, u64)>, k: int, e: RewardsError)
    requires
        0 <= k <= rs.len(),
        s.apply_batch(rs.take(k)) == Err::<RewardsView, RewardsError>(e),
    ensures
        s.apply_batch(rs) == Err::<RewardsView, RewardsError>(e),
    decreases rs.len() - k,
{
    if k == rs.len() {
        assert(rs.take(k) =~= rs);
    } else {
        assert(rs.take(k + 1).drop_last() =~= rs.take(k));
        lemma_batch_prefix_error(s, rs, k + 1, e);
    }
}

/// Changing one amount changes the sum by the difference.
pub proof fn lemma_sum_update(s: Seq<u64>, i: int, v: u64)
    requires
        0 <= i < s.len(),
    ensures
        sum_amounts(s.update(i, v)) == sum_amounts(s) - s[i] + v,
    decreases s.len(),
{
    let t = s.update(i, v);
    if i == s.len() - 1 {
        assert(t.drop_last() =~= s.drop_last());
    } else {
        assert(t.drop_last() =~= s.drop_last().update(i, v));
        lemma_sum_update(s.drop_last(), i, v);
    }
}

/// What a call did: on success the state is the expected one, the value is
/// returned and `added` was appended to the events; on refusal nothing
/// changed and the error is returned.
pub open spec fn call_done<T>(
    expected: Result<(T, RewardsView), RewardsError>,
    pre: RewardsView,
    post: RewardsView,
    r: Result<T, RewardsError>,
    ev0: Seq<RewardsEvent>,
    ev1: Seq<RewardsEvent>,
    added: Seq<RewardsEventView>,
) -> bool {
    match expected {
        Ok((value, next)) => {
            &&& r == Ok::<T, RewardsError>(value)
            &&& post == next
            &&& event_views(ev1) == event_views(ev0) + added
        },
        Err(e) => {
            &&& r == Err::<T, RewardsError>(e)
            &&& post == pre
            &&& ev1 == ev0
        },
    }
}

fn emit(events: &mut Vec<RewardsEvent>, e: RewardsEvent)
    ensures
        event_views(final(events)@) == event_views(old(events)@) + seq![e@],
{
    events.push(e);
    assert(event_views(old(events)@.push(e)) =~= event_views(old(events)@) + seq![e@]);
}

/// The rewards contract's state as plain values, to keep it between calls.
pub struct RewardsParts {
    pub admin: Option<AccountId>,
    pub name: String,
    pub symbol: String,
    pub accounts: Vec<AccountId>,
    pub amounts: Vec<u64>,
    pub total_claimed: u64,
    pub max_credit_per_call: u64,
    pub multipliers: Vec<(u64, u32)>,
}

impl View for RewardsParts {
    type V = RewardsView;

    open spec fn view(&self) -> RewardsView {
        RewardsView {
            admin: match self.admin {
                Some(a) => Some(a@),
                None => None,
            },
            name: self.name@,
            symbol: self.symbol@,
            accounts: account_views(self.accounts@),
            amounts: self.amounts@,
            total_claimed: self.total_claimed,
            max_credit_per_call: self.max_credit_per_call,
            multipliers: self.multipliers@,
        }
    }
}

fn campaign_ids_distinct(m: &Vec<(u64, u32)>) -> (r: bool)
    ensures
        r == campaign_ids_unique(m@),
{
    let n: usize = m.len();
    let mut i: usize = 0;
    while i < n
        invariant
            n == m@.len(),
            0 <= i <= n,
            forall|a: int, b: int| 0 <= a < i && a < b < n ==> m@[a].0 != m@[b].0,
        decreases n - i,
    {
        let mut j: usize = i + 1;
        while j < n
            invariant
                n == m@.len(),
                0 <= i < n,
                i + 1 <= j <= n,
                forall|a: int, b: int| 0 <= a < i && a < b < n ==> m@[a].0 != m@[b].0,
                forall|b: int| i < b < j ==> m@[i as int].0 != m@[b].0,
            decreases n - j,
        {
            if m[i].0 == m[j].0 {
                assert(m@[i as int].0 == m@[j as int].0);
                return false;
            }
            j = j + 1;
        }
        i = i + 1;
    }
    assert forall|a: int, b: int| 0 <= a < m@.len() && 0 <= b < m@.len() && a != b implies #[trigger] m@[a].0 != #[trigger] m@[b].0 by {
        if a > b {
            assert(m@[b].0 != m@[a].0);
        }
    }
    true
}

/// The stored state of the rewards contract.
pub struct Rewards {
    admin: Option<AccountId>,
    name: String,
    symbol: String,
    accounts: Vec<AccountId>,
    amounts: Vec<u64>,
    total_claimed: u64,
    max_credit_per_call: u64,
    multipliers: Vec<(u64, u32)>,
}

impl View for Rewards {
    type V = RewardsView;

    closed spec fn view(&self) -> RewardsView {
        RewardsView {
            admin: match self.admin {
                Some(a) => Some(a@),
                None => None,
            },
            name: self.name@,
            symbol: self.symbol@,
            accounts: account_views(self.accounts@),
            amounts: self.amounts@,
            total_claimed: self.total_claimed,
            max_credit_per_call: self.max_credit_per_call,
            multipliers: self.multipliers@,
        }
    }
}

impl Rewards {
    pub open spec fn wf(&self) -> bool {
        self@.wf()
    }

    /// A contract that has not been initialized: no admin, no balances, and
    /// the default name and symbol.
    pub fn new() -> (r: Rewards)
        ensures
            r.wf(),
            r@ == RewardsView::fresh(),
    {
        let r = Rewards {
            admin: None,
            name: "Trivela".to_owned(),
            symbol: "TVL".to_owned(),
            accounts: Vec::new(),
            amounts: Vec::new(),
            total_claimed: 0,
            max_credit_per_call: 0,
            multipliers: Vec::new(),
        };
        assert(r@.accounts =~= Seq::<Seq<char>>::empty());
        r
    }

    /// Rebuilds the contract from stored parts, refusing parts that no
    /// contract could have left behind.
    pub fn from_parts(parts: RewardsParts) -> (r: Option<Rewards>)
        ensures
            match r {
                Some(x) => x.wf() && x@ == parts@,
                None => !parts@.wf(),
            },
    {
        let ghost v = parts@;
        if parts.accounts.len() != parts.amounts.len() {
            assert(v.accounts.len() != v.amounts.len());
            return None;
        }
        if !all_distinct(&parts.accounts) {
            return None;
        }
        if !campaign_ids_distinct(&parts.multipliers) {
            return None;
        }
        let x = Rewards {
            admin: parts.admin,
            name: parts.name,
            symbol: parts.symbol,
            accounts: parts.accounts,
            amounts: parts.amounts,
            total_claimed: parts.total_claimed,
            max_credit_per_call: parts.max_credit_per_call,
            multipliers: parts.multipliers,
        };
        assert(x@ == v);
        Some(x)
    }

    /// The contract's state as plain values.
    pub fn into_parts(self) -> (p: RewardsParts)
        ensures
            p@ == self@,
    {
        RewardsParts {
            admin: self.admin,
            name: self.name,
            symbol: self.symbol,
            accounts: self.accounts,
            amounts: self.amounts,
            total_claimed: self.total_claimed,
            max_credit_per_call: self.max_credit_per_call,
            multipliers: self.multipliers,
        }
    }

    /// Makes `admin` the admin and names the token.
    pub fn initialize(&mut self, admin: &AccountId, name: &String, symbol: &String) -> (r: Result<(), RewardsError>)
        requires
            old(self).wf(),
        ensures
            final(self).wf(),
            match old(self)@.initialize(admin@, name@, symbol@) {
                Ok((_, next)) => r is Ok && final(self)@ == next,
                Err(e) => r == Err::<(), RewardsError>(e) && final(self)@ == old(self)@,
            },
    {
        if self.admin.is_some() {
            return Err(RewardsError::AlreadyInitialized);
        }
        self.admin = Some(admin.clone());
        self.name = name.clone();
        self.symbol = symbol.clone();
        Ok(())
    }

    /// The token's (name, symbol).
    pub fn metadata(&self) -> (r: (String, String))
        ensures
            r.0@ == self@.name,
            r.1@ == self@.symbol,
    {
        (self.name.clone(), self.symbol.clone())
    }

    pub fn total_claimed(&self) -> (r: u64)
        ensures
            r == self@.total_claimed,
    {
        self.total_claimed
    }

    pub fn max_credit_per_call(&self) -> (r: u64)
        ensures
            r == self@.max_credit_per_call,
    {
        self.max_credit_per_call
    }

    pub fn schema_version(&self) -> (r: u32)
        ensures
            r == SCHEMA_VERSION,
    {
        SCHEMA_VERSION
    }

    /// The balance of `user`; 0 for an account never credited.
    pub fn balance(&self, user: &AccountId) -> (r: u64)
        requires
            self.wf(),
        ensures
            r == self@.balance(user@),
    {
        match find_account(&self.accounts, user) {
            Some(i) => {
                proof {
                    self@.lemma_index_of(user@, i as int);
                }
                self.amounts[i]
            },
            None => 0,
        }
    }

    fn multiplier_slot(&self, campaign_id: u64) -> (r: Option<usize>)
        requires
            self.wf(),
        ensures
            match r {
                Some(i) => i < self@.multipliers.len() && self@.multipliers[i as int].0 == campaign_id,
                None => !self@.has_multiplier(campaign_id),
            },
    {
        let mut i: usize = 0;
        while i < self.multipliers.len()
            invariant
                0 <= i <= self@.multipliers.len(),
                forall|k: int| 0 <= k < i ==> (#[trigger] self@.multipliers[k]).0 != campaign_id,
            decreases self@.multipliers.len() - i,
        {
            if self.multipliers[i].0 == campaign_id {
                return Some(i);
            }
            i = i + 1;
        }
        None
    }

    /// The multiplier of a campaign, in basis points.
    pub fn campaign_multiplier(&self, campaign_id: u64) -> (r: u32)
        requires
            self.wf(),
        ensures
            r == self@.multiplier(campaign_id),
    {
        match self.multiplier_slot(campaign_id) {
            Some(i) => {
                proof {
                    self@.lemma_multiplier_index(campaign_id, i as int);
                }
                self.multipliers[i].1
            },
            None => BPS_ONE,
        }
    }

    fn check_admin(&self, caller: &AccountId) -> (r: Result<(), RewardsError>)
        ensures
            r == self@.check_admin(caller@),
    {
        match &self.admin {
            None => Err(RewardsError::NotInitialized),
            Some(a) => if *a != *caller {
                Err(RewardsError::Unauthorized)
            } else {
                Ok(())
            },
        }
    }

    fn set_balance(&mut self, user: &AccountId, v: u64)
        requires
            old(self).wf(),
        ensures
            final(self).wf(),
            final(self)@ == old(self)@.with_balance(user@, v),
    {
        proof {
            old(self)@.lemma_with_balance(user@, v, user@);
        }
        match find_account(&self.accounts, user) {
            Some(i) => {
                proof {
                    old(self)@.lemma_index_of(user@, i as int);
                }
                self.amounts.set(i, v);
            },
            None => {
                let ghost before = self.accounts@;
                let u = user.clone();
                self.accounts.push(u);
                self.amounts.push(v);
                assert(account_views(before.push(u)) =~= account_views(before).push(user@));
            },
        }
    }

    fn apply_credit(&mut self, user: &AccountId, amount: u64) -> (r: Result<u64, RewardsError>)
        requires
            old(self).wf(),
        ensures
            final(self).wf(),
            match old(self)@.apply_credit(user@, amount) {
                Ok((b, next)) => r == Ok::<u64, RewardsError>(b) && final(self)@ == next,
                Err(e) => r == Err::<u64, RewardsError>(e) && final(self)@ == old(self)@,
            },
    {
        if self.max_credit_per_call != 0 && amount > self.max_credit_per_call {
            return Err(RewardsError::CreditLimitExceeded);
        }
        let current = self.balance(user);
        if current > u64::MAX - amount {
            return Err(RewardsError::Overflow);
        }
        let b: u64 = current + amount;
        self.set_balance(user, b);
        Ok(b)
    }

    /// Adds `amount` to the balance of `user`; gives the new balance.
    pub fn credit(&mut self, caller: &AccountId, user: &AccountId, amount: u64, events: &mut Vec<RewardsEvent>) -> (r: Result<u64, RewardsError>)
        requires
            old(self).wf(),
        ensures
            final(self).wf(),
            call_done(
                old(self)@.credit(caller@, user@, amount),
                old(self)@,
                final(self)@,
                r,
                old(events)@,
                final(events)@,
                seq![RewardsEventView::Credited(user@, amount)],
            ),
    {
        match self.check_admin(caller) {
            Err(e) => Err(e),
            Ok(_) => {
                let r = self.apply_credit(user, amount);
                if r.is_ok() {
                    emit(events, RewardsEvent::Credited { user: user.clone(), amount });
                }
                r
            },
        }
    }

    /// Adds `amount` scaled by the campaign's multiplier to the balance of
    /// `user`; gives the new balance.
    pub fn credit_for_campaign(
        &mut self,
        caller: &AccountId,
        user: &AccountId,
        campaign_id: u64,
        amount: u64,
        events: &mut Vec<RewardsEvent>,
    ) -> (r: Result<u64, RewardsError>)
        requires
            old(self).wf(),
        ensures
            final(self).wf(),
            call_done(
                old(self)@.credit_for_campaign(caller@, user@, campaign_id, amount),
                old(self)@,
                final(self)@,
                r,
                old(events)@,
                final(events)@,
                seq![RewardsEventView::Credited(user@, scaled(amount, old(self)@.multiplier(campaign_id)) as u64)],
            ),
    {
        match self.check_admin(caller) {
            Err(e) => Err(e),
            Ok(_) => {
                let bps = self.campaign_multiplier(campaign_id);
                assert((amount as int) * (bps as int) <= (u64::MAX as int) * (u32::MAX as int)) by (nonlinear_arith)
                    requires
                        amount <= u64::MAX,
                        bps <= u32::MAX,
                ;
                let wide: u128 = (amount as u128) * (bps as u128);
                assert(wide == (amount as int) * (bps as int));
                let q: u128 = wide / (BPS_ONE as u128);
                if q > u64::MAX as u128 {
                    return Err(RewardsError::Overflow);
                }
                let effective: u64 = q as u64;
                let r = self.apply_credit(user, effective);
                if r.is_ok() {
                    emit(events, RewardsEvent::Credited { user: user.clone(), amount: effective });
                }
                r
            },
        }
    }

    /// Credits every recipient in order, all or nothing: when one credit is
    /// refused, no balance changes and that refusal is returned.
    pub fn batch_credit(
        &mut self,
        caller: &AccountId,
        recipients: &Vec<(AccountId, u64)>,
        events: &mut Vec<RewardsEvent>,
    ) -> (r: Result<(), RewardsError>)
        requires
            old(self).wf(),
        ensures
            final(self).wf(),
            call_done(
                old(self)@.batch_credit(caller@, recipient_views(recipients@)),
                old(self)@,
                final(self)@,
                r,
                old(events)@,
                final(events)@,
                batch_events(recipient_views(recipients@)),
            ),
    {
        match self.check_admin(caller) {
            Err(e) => Err(e),
            Ok(_) => {
                let ghost start = self@;
                let ghost rs = recipient_views(recipients@);
                let saved_accounts = self.accounts.clone();
                let saved_amounts = self.amounts.clone();
                assert(saved_accounts@ =~= self.accounts@);
                assert(saved_amounts@ =~= self.amounts@);
                let mut pending: Vec<RewardsEvent> = Vec::new();
                let mut i: usize = 0;
                assert(rs.take(0) =~= Seq::<(Seq<char>, u64)>::empty());
                assert(event_views(pending@) =~= batch_events(rs.take(0)));
                while i < recipients.len()
                    invariant
                        self.wf(),
                        start.wf(),
                        start.check_admin(caller@) == Ok::<(), RewardsError>(()),
                        events@ == old(events)@,
                        start == old(self)@,
                        rs == recipient_views(recipients@),
                        0 <= i <= recipients@.len(),
                        start.apply_batch(rs.take(i as int)) == Ok::<RewardsView, RewardsError>(self@),
                        account_views(saved_accounts@) == start.accounts,
                        saved_amounts@ == start.amounts,
                        self@.admin == start.admin,
                        self@.name == start.name,
                        self@.symbol == start.symbol,
                        self@.total_claimed == start.total_claimed,
                        self@.max_credit_per_call == start.max_credit_per_call,
                        self@.multipliers == start.multipliers,
                        event_views(pending@) == batch_events(rs.take(i as int)),
                    decreases recipients@.len() - i,
                {
                    let user = &recipients[i].0;
                    let amount: u64 = recipients[i].1;
                    assert(rs[i as int] == (user@, amount));
                    assert(rs.take(i + 1).drop_last() =~= rs.take(i as int));
                    assert(rs.take(i + 1).last() == rs[i as int]);
                    match self.apply_credit(user, amount) {
                        Ok(_) => {
                            let ghost before = pending@;
                            let ev = RewardsEvent::Credited { user: user.clone(), amount };
                            pending.push(ev);
                            assert(event_views(before.push(ev)) =~= event_views(before).push(
                                RewardsEventView::Credited(user@, amount),
                            ));
                            assert(batch_events(rs.take(i + 1)) =~= batch_events(rs.take(i as int)).push(
                                RewardsEventView::Credited(user@, amount),
                            ));
                        },
                        Err(e) => {
                            proof {
                                lemma_batch_prefix_error(start, rs, i + 1, e);
                            }
                            self.accounts = saved_accounts;
                            self.amounts = saved_amounts;
                            assert(self@.accounts == start.accounts);
                            assert(self@.amounts == start.amounts);
                            assert(self@ == start);
                            return Err(e);
                        },
                    }
                    i = i + 1;
                }
                assert(rs.take(recipients@.len() as int) =~= rs);
                let ghost before = events@;
                events.append(&mut pending);
                assert(event_views(final(events)@) =~= event_views(before) + batch_events(rs));
                Ok(())
            },
        }
    }

    /// Takes `amount` out of the balance of `user` into the claimed total;
    /// gives the new balance.
    pub fn claim(&mut self, user: &AccountId, amount: u64, events: &mut Vec<RewardsEvent>) -> (r: Result<u64, RewardsError>)
        requires
            old(self).wf(),
        ensures
            final(self).wf(),
            call_done(
                old(self)@.claim(user@, amount),
                old(self)@,
                final(self)@,
                r,
                old(events)@,
                final(events)@,
                seq![RewardsEventView::Claimed(user@, amount)],
            ),
    {
        let current = self.balance(user);
        if amount > current {
            return Err(RewardsError::InsufficientBalance);
        }
        if self.total_claimed > u64::MAX - amount {
            return Err(RewardsError::Overflow);
        }
        let b: u64 = current - amount;
        self.set_balance(user, b);
        self.total_claimed = self.total_claimed + amount;
        emit(events, RewardsEvent::Claimed { user: user.clone(), amount });
        Ok(b)
    }

    /// Moves `amount` from the balance of `from` to that of `to`.
    pub fn admin_transfer(
        &mut self,
        caller: &AccountId,
        from: &AccountId,
        to: &AccountId,
        amount: u64,
        events: &mut Vec<RewardsEvent>,
    ) -> (r: Result<(), RewardsError>)
        requires
            old(self).wf(),
        ensures
            final(self).wf(),
            call_done(
                old(self)@.admin_transfer(caller@, from@, to@, amount),
                old(self)@,
                final(self)@,
                r,
                old(events)@,
                final(events)@,
                seq![RewardsEventView::Transferred(from@, to@, amount)],
            ),
    {
        match self.check_admin(caller) {
            Err(e) => Err(e),
            Ok(_) => {
                let from_balance = self.balance(from);
                if amount > from_balance {
                    return Err(RewardsError::InsufficientBalance);
                }
                let debited: u64 = from_balance - amount;
                let to_balance: u64 = if *from == *to {
                    debited
                } else {
                    self.balance(to)
                };
                proof {
                    self@.lemma_with_balance(from@, debited, to@);
                }
                if to_balance > u64::MAX - amount {
                    return Err(RewardsError::Overflow);
                }
                self.set_balance(from, debited);
                self.set_balance(to, to_balance + amount);
                emit(events, RewardsEvent::Transferred { from: from.clone(), to: to.clone(), amount });
                Ok(())
            },
        }
    }

    /// Bounds what one credit may add; 0 removes the bound.
    pub fn set_max_credit_per_call(&mut self, caller: &AccountId, limit: u64, events: &mut Vec<RewardsEvent>) -> (r: Result<(), RewardsError>)
        requires
            old(self).wf(),
        ensures
            final(self).wf(),
            call_done(
                old(self)@.set_max_credit_per_call(caller@, limit),
                old(self)@,
                final(self)@,
                r,
                old(events)@,
                final(events)@,
                seq![RewardsEventView::MaxCreditPerCallSet(limit)],
            ),
    {
        match self.check_admin(caller) {
            Err(e) => Err(e),
            Ok(_) => {
                self.max_credit_per_call = limit;
                emit(events, RewardsEvent::MaxCreditPerCallSet { limit });
                Ok(())
            },
        }
    }

    /// Sets the multiplier of a campaign, in basis points.
    pub fn set_campaign_multiplier(&mut self, caller: &AccountId, campaign_id: u64, bps: u32, events: &mut Vec<RewardsEvent>) -> (r: Result<(), RewardsError>)
        requires
            old(self).wf(),
        ensures
            final(self).wf(),
            call_done(
                old(self)@.set_campaign_multiplier(caller@, campaign_id, bps),
                old(self)@,
                final(self)@,
                r,
                old(events)@,
                final(events)@,
                seq![RewardsEventView::CampaignMultiplierSet(campaign_id, bps)],
            ),
    {
        match self.check_admin(caller) {
            Err(e) => Err(e),
            Ok(_) => {
                proof {
                    self@.lemma_with_multiplier(campaign_id, bps, campaign_id);
                }
                match self.multiplier_slot(campaign_id) {
                    Some(i) => {
                        proof {
                            self@.lemma_multiplier_index(campaign_id, i as int);
                        }
                        self.multipliers.set(i, (campaign_id, bps));
                    },
                    None => {
                        self.multipliers.push((campaign_id, bps));
                    },
                }
                emit(events, RewardsEvent::CampaignMultiplierSet { campaign_id, bps });
                Ok(())
            },
        }
    }

    /// Accepts a migration to the current layout version only.
    pub fn migrate(&self, caller: &AccountId, target: u32) -> (r: Result<u32, RewardsError>)
        ensures
            r == self@.migrate(caller@, target),
    {
        match self.check_admin(caller) {
            Err(e) => Err(e),
            Ok(_) => if target != SCHEMA_VERSION {
                Err(RewardsError::UnsupportedMigration)
            } else {
                Ok(SCHEMA_VERSION)
            },
        }
    }
}

} // verus!
