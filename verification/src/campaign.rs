//! The campaign contract: an admin opens a campaign, bounds it by a time
//! window, a capacity and optionally a Merkle allowlist, and accounts register
//! as participants while it is active.
//!
//! `CampaignView` is the model: each entry point is an open spec function on
//! it, and the executable `Campaign` is proved to follow it. The host side
//! (who signed the call, the ledger time, publishing events, storage) is the
//! caller's part: it hands in the authenticated caller and the time, and
//! publishes the events that a successful call appends.

use vstd::prelude::*;
use crate::account::{AccountId, account_views, find_account, all_distinct};
use crate::allowlist::{spec_admits, admits};

verus! {

/// The storage layout version that this code reads and writes.
pub const SCHEMA_VERSION: u32 = 1;

/// Why a campaign call was refused. A refused call changes nothing.
#[derive(Debug, Clone, Copy, PartialEq, Eq, Structural)]
pub enum CampaignError {
    NotInitialized,
    AlreadyInitialized,
    Unauthorized,
    InvalidAdminNonce,
    CampaignInactive,
    OutsideTimeWindow,
    CapacityReached,
    NotInAllowlist,
    InvalidWindow,
    UnsupportedMigration,
}

/// What a successful campaign call announces.
#[derive(Debug, PartialEq, Eq)]
pub enum CampaignEvent {
    Registered { participant: AccountId },
    WindowSet { start: u64, end: u64 },
    ActiveSet { active: bool },
}

/// An announced event, with accounts by their address text.
pub enum CampaignEventView {
    Registered(Seq<char>),
    WindowSet(u64, u64),
    ActiveSet(bool),
}

impl View for CampaignEvent {
    type V = CampaignEventView;

    open spec fn view(&self) -> CampaignEventView {
        match self {
            CampaignEvent::Registered { participant } => CampaignEventView::Registered(participant@),
            CampaignEvent::WindowSet { start, end } => CampaignEventView::WindowSet(*start, *end),
            CampaignEvent::ActiveSet { active } => CampaignEventView::ActiveSet(*active),
        }
    }
}

/// The views of a list of events.
pub open spec fn event_views(v: Seq<CampaignEvent>) -> Seq<CampaignEventView> {
    v.map_values(|e: CampaignEvent| e@)
}

/// The state of a campaign.
pub struct CampaignView {
    /// Who may change the settings; `None` until the campaign is initialized.
    pub admin: Option<Seq<char>>,
    pub active: bool,
    /// Registration is open from `window_start` to `window_end`, both included.
    pub window_start: u64,
    pub window_end: u64,
    /// The most participants the campaign takes; 0 sets no bound.
    pub max_cap: u32,
    /// With a root set, only accounts holding a proof under it may register.
    pub merkle_root: Option<[u8; 32]>,
    /// The nonce that the next admin call must carry.
    pub admin_nonce: u64,
    /// The registered accounts, in the order they registered.
    pub participants: Seq<Seq<char>>,
}

impl CampaignView {
    /// A campaign that has not been initialized.
    pub open spec fn fresh() -> CampaignView {
        CampaignView {
            admin: None,
            active: false,
            window_start: 0,
            window_end: u64::MAX,
            max_cap: 0,
            merkle_root: None,
            admin_nonce: 0,
            participants: Seq::empty(),
        }
    }

    /// Nobody registers twice, the count fits its `u32`, the window is not
    /// empty, and a campaign without an admin is a fresh one.
    pub open spec fn wf(self) -> bool {
        &&& self.participants.no_duplicates()
        &&& self.participants.len() <= u32::MAX
        &&& self.window_start <= self.window_end
        &&& self.admin is None ==> self.is_fresh()
    }

    /// Inactive, with an open window, no cap, no allowlist, an unused nonce
    /// and nobody registered.
    pub open spec fn is_fresh(self) -> bool {
        &&& !self.active
        &&& self.window_start == 0
        &&& self.window_end == u64::MAX
        &&& self.max_cap == 0
        &&& self.merkle_root is None
        &&& self.admin_nonce == 0
        &&& self.participants.len() == 0
    }

    /// `initialize`: an active campaign with an open window, no cap, no
    /// allowlist and no participants, run by `admin`.
    pub open spec fn initialize(self, admin: Seq<char>) -> Result<CampaignView, CampaignError> {
        if self.admin is Some {
            Err(CampaignError::AlreadyInitialized)
        } else {
            Ok(
                CampaignView {
                    admin: Some(admin),
                    active: true,
                    window_start: 0,
                    window_end: u64::MAX,
                    max_cap: 0,
                    merkle_root: None,
                    admin_nonce: 0,
                    participants: Seq::empty(),
                },
            )
        }
    }

    /// An admin call is accepted from the admin carrying the current nonce;
    /// once the nonce has reached `u64::MAX` no further admin call is accepted.
    pub open spec fn check_admin(self, caller: Seq<char>, nonce: u64) -> Result<(), CampaignError> {
        match self.admin {
            None => Err(CampaignError::NotInitialized),
            Some(a) => if a != caller {
                Err(CampaignError::Unauthorized)
            } else if nonce != self.admin_nonce || self.admin_nonce == u64::MAX {
                Err(CampaignError::InvalidAdminNonce)
            } else {
                Ok(())
            },
        }
    }

    /// The state after an accepted admin call, before its own change.
    pub open spec fn nonce_used(self) -> CampaignView {
        CampaignView { admin_nonce: (self.admin_nonce + 1) as u64, ..self }
    }

    /// `set_active`.
    pub open spec fn set_active(self, caller: Seq<char>, nonce: u64, active: bool) -> Result<CampaignView, CampaignError> {
        match self.check_admin(caller, nonce) {
            Err(e) => Err(e),
            Ok(_) => Ok(CampaignView { active, ..self.nonce_used() }),
        }
    }

    /// `set_window`: a window must not end before it starts.
    pub open spec fn set_window(self, caller: Seq<char>, nonce: u64, start: u64, end: u64) -> Result<CampaignView, CampaignError> {
        match self.check_admin(caller, nonce) {
            Err(e) => Err(e),
            Ok(_) => if start > end {
                Err(CampaignError::InvalidWindow)
            } else {
                Ok(CampaignView { window_start: start, window_end: end, ..self.nonce_used() })
            },
        }
    }

    /// `set_max_cap`.
    pub open spec fn set_max_cap(self, caller: Seq<char>, nonce: u64, cap: u32) -> Result<CampaignView, CampaignError> {
        match self.check_admin(caller, nonce) {
            Err(e) => Err(e),
            Ok(_) => Ok(CampaignView { max_cap: cap, ..self.nonce_used() }),
        }
    }

    /// `set_merkle_root`.
    pub open spec fn set_merkle_root(self, caller: Seq<char>, nonce: u64, root: [u8; 32]) -> Result<CampaignView, CampaignError> {
        match self.check_admin(caller, nonce) {
            Err(e) => Err(e),
            Ok(_) => Ok(CampaignView { merkle_root: Some(root), ..self.nonce_used() }),
        }
    }

    /// `migrate`: only the admin may ask, and only for the current version,
    /// which is then reported back; nothing is stored differently.
    pub open spec fn migrate(self, caller: Seq<char>, target: u32) -> Result<u32, CampaignError> {
        match self.admin {
            None => Err(CampaignError::NotInitialized),
            Some(a) => if a != caller {
                Err(CampaignError::Unauthorized)
            } else if target != SCHEMA_VERSION {
                Err(CampaignError::UnsupportedMigration)
            } else {
                Ok(SCHEMA_VERSION)
            },
        }
    }

    /// Whether `now` lies in the registration window, both ends included.
    pub open spec fn within_window(self, now: u64) -> bool {
        self.window_start <= now && now <= self.window_end
    }

    pub open spec fn is_participant(self, who: Seq<char>) -> bool {
        self.participants.contains(who)
    }

    /// No new participant fits: the cap, if any, is reached, or the count
    /// cannot grow further.
    pub open spec fn at_capacity(self) -> bool {
        ||| (self.max_cap != 0 && self.participants.len() >= self.max_cap)
        ||| self.participants.len() >= u32::MAX
    }

    /// `register`, given whether the caller's proof passes the allowlist: an
    /// active campaign inside its window takes a new account unless it is at
    /// capacity or the account is not on the allowlist; an account already
    /// registered gets `false` and nothing changes.
    pub open spec fn register(self, who: Seq<char>, now: u64, allowlisted: bool) -> Result<(bool, CampaignView), CampaignError> {
        if !self.active {
            Err(CampaignError::CampaignInactive)
        } else if !self.within_window(now) {
            Err(CampaignError::OutsideTimeWindow)
        } else if self.is_participant(who) {
            Ok((false, self))
        } else if self.at_capacity() {
            Err(CampaignError::CapacityReached)
        } else if !allowlisted {
            Err(CampaignError::NotInAllowlist)
        } else {
            Ok((true, CampaignView { participants: self.participants.push(who), ..self }))
        }
    }
}

/// What an admin call did: on success the state is `expected` and `event`, if
/// any, was appended; on refusal nothing changed and the error is returned.
pub open spec fn admin_call_done(
    expected: Result<CampaignView, CampaignError>,
    pre: CampaignView,
    post: CampaignView,
    r: Result<(), CampaignError>,
    ev0: Seq<CampaignEvent>,
    ev1: Seq<CampaignEvent>,
    event: Option<CampaignEventView>,
) -> bool {
    match expected {
        Ok(next) => {
            &&& r is Ok
            &&& post == next
            &&& event_views(ev1) == match event {
                Some(e) => event_views(ev0).push(e),
                None => event_views(ev0),
            }
        },
        Err(e) => {
            &&& r == Err::<(), CampaignError>(e)
            &&& post == pre
            &&& ev1 == ev0
        },
    }
}

/// What a registration did, for the allowlist answer `allowlisted`.
pub open spec fn register_done(
    pre: CampaignView,
    post: CampaignView,
    who: Seq<char>,
    now: u64,
    allowlisted: bool,
    r: Result<bool, CampaignError>,
    ev0: Seq<CampaignEvent>,
    ev1: Seq<CampaignEvent>,
) -> bool {
    match pre.register(who, now, allowlisted) {
        Ok((added, next)) => {
            &&& r == Ok::<bool, CampaignError>(added)
            &&& post == next
            &&& event_views(ev1) == if added {
                event_views(ev0).push(CampaignEventView::Registered(who))
            } else {
                event_views(ev0)
            }
        },
        Err(e) => {
            &&& r == Err::<bool, CampaignError>(e)
            &&& post == pre
            &&& ev1 == ev0
        },
    }
}

fn emit(events: &mut Vec<CampaignEvent>, e: CampaignEvent)
    ensures
        event_views(final(events)@) == event_views(old(events)@).push(e@),
{
    events.push(e);
    assert(event_views(old(events)@.push(e)) =~= event_views(old(events)@).push(e@));
}

/// A campaign's state as plain values, to keep it between calls.
pub struct CampaignParts {
    pub admin: Option<AccountId>,
    pub active: bool,
    pub window_start: u64,
    pub window_end: u64,
    pub max_cap: u32,
    pub merkle_root: Option<[u8; 32]>,
    pub admin_nonce: u64,
    pub participants: Vec<AccountId>,
}

impl View for CampaignParts {
    type V = CampaignView;

    open spec fn view(&self) -> CampaignView {
        CampaignView {
            admin: match self.admin {
                Some(a) => Some(a@),
                None => None,
            },
            active: self.active,
            window_start: self.window_start,
            window_end: self.window_end,
            max_cap: self.max_cap,
            merkle_root: self.merkle_root,
            admin_nonce: self.admin_nonce,
            participants: account_views(self.participants@),
        }
    }
}

/// A campaign's stored state.
pub struct Campaign {
    admin: Option<AccountId>,
    active: bool,
    window_start: u64,
    window_end: u64,
    max_cap: u32,
    merkle_root: Option<[u8; 32]>,
    admin_nonce: u64,
    participants: Vec<AccountId>,
}

impl View for Campaign {
    type V = CampaignView;

    closed spec fn view(&self) -> CampaignView {
        CampaignView {
            admin: match self.admin {
                Some(a) => Some(a@),
                None => None,
            },
            active: self.active,
            window_start: self.window_start,
            window_end: self.window_end,
            max_cap: self.max_cap,
            merkle_root: self.merkle_root,
            admin_nonce: self.admin_nonce,
            participants: account_views(self.participants@),
        }
    }
}

impl Campaign {
    pub open spec fn wf(&self) -> bool {
        self@.wf()
    }

    /// A campaign that has not been initialized.
    pub fn new() -> (c: Campaign)
        ensures
            c.wf(),
            c@ == CampaignView::fresh(),
    {
        let c = Campaign {
            admin: None,
            active: false,
            window_start: 0,
            window_end: u64::MAX,
            max_cap: 0,
            merkle_root: None,
            admin_nonce: 0,
            participants: Vec::new(),
        };
        assert(c@.participants =~= Seq::<Seq<char>>::empty());
        c
    }

    /// Rebuilds a campaign from stored parts, refusing parts that no
    /// campaign could have left behind.
    pub fn from_parts(parts: CampaignParts) -> (r: Option<Campaign>)
        ensures
            match r {
                Some(c) => c.wf() && c@ == parts@,
                None => !parts@.wf(),
            },
    {
        let ghost v = parts@;
        if !all_distinct(&parts.participants) || parts.participants.len() > u32::MAX as usize
            || parts.window_start > parts.window_end {
            return None;
        }
        if parts.admin.is_none() && (parts.active || parts.window_start != 0 || parts.window_end != u64::MAX
            || parts.max_cap != 0 || parts.merkle_root.is_some() || parts.admin_nonce != 0
            || parts.participants.len() != 0) {
            return None;
        }
        let c = Campaign {
            admin: parts.admin,
            active: parts.active,
            window_start: parts.window_start,
            window_end: parts.window_end,
            max_cap: parts.max_cap,
            merkle_root: parts.merkle_root,
            admin_nonce: parts.admin_nonce,
            participants: parts.participants,
        };
        assert(c@ == v);
        Some(c)
    }

    /// The campaign's state as plain values.
    pub fn into_parts(self) -> (p: CampaignParts)
        ensures
            p@ == self@,
    {
        CampaignParts {
            admin: self.admin,
            active: self.active,
            window_start: self.window_start,
            window_end: self.window_end,
            max_cap: self.max_cap,
            merkle_root: self.merkle_root,
            admin_nonce: self.admin_nonce,
            participants: self.participants,
        }
    }

    /// Makes `admin` the campaign's admin and opens it.
    pub fn initialize(&mut self, admin: &AccountId) -> (r: Result<(), CampaignError>)
        requires
            old(self).wf(),
        ensures
            final(self).wf(),
            match old(self)@.initialize(admin@) {
                Ok(next) => r is Ok && final(self)@ == next,
                Err(e) => r == Err::<(), CampaignError>(e) && final(self)@ == old(self)@,
            },
    {
        if self.admin.is_some() {
            return Err(CampaignError::AlreadyInitialized);
        }
        self.admin = Some(admin.clone());
        self.active = true;
        self.window_start = 0;
        self.window_end = u64::MAX;
        self.max_cap = 0;
        self.merkle_root = None;
        self.admin_nonce = 0;
        self.participants = Vec::new();
        assert(account_views(self.participants@) =~= Seq::<Seq<char>>::empty());
        Ok(())
    }

    pub fn is_active(&self) -> (r: bool)
        ensures
            r == self@.active,
    {
        self.active
    }

    /// The registration window, as (start, end).
    pub fn get_window(&self) -> (r: (u64, u64))
        ensures
            r == (self@.window_start, self@.window_end),
    {
        (self.window_start, self.window_end)
    }

    /// Whether the ledger time `now` lies in the registration window.
    pub fn is_within_window(&self, now: u64) -> (r: bool)
        ensures
            r == self@.within_window(now),
    {
        self.window_start <= now && now <= self.window_end
    }

    pub fn admin_nonce(&self) -> (r: u64)
        ensures
            r == self@.admin_nonce,
    {
        self.admin_nonce
    }

    pub fn get_max_cap(&self) -> (r: u32)
        ensures
            r == self@.max_cap,
    {
        self.max_cap
    }

    pub fn get_merkle_root(&self) -> (r: Option<[u8; 32]>)
        ensures
            r == self@.merkle_root,
    {
        self.merkle_root
    }

    pub fn schema_version(&self) -> (r: u32)
        ensures
            r == SCHEMA_VERSION,
    {
        SCHEMA_VERSION
    }

    pub fn is_participant(&self, who: &AccountId) -> (r: bool)
        ensures
            r == self@.is_participant(who@),
    {
        find_account(&self.participants, who).is_some()
    }

    pub fn get_participant_count(&self) -> (r: u32)
        requires
            self.wf(),
        ensures
            r == self@.participants.len(),
    {
        self.participants.len() as u32
    }

    fn check_admin(&self, caller: &AccountId, nonce: u64) -> (r: Result<(), CampaignError>)
        ensures
            r == self@.check_admin(caller@, nonce),
    {
        match &self.admin {
            None => Err(CampaignError::NotInitialized),
            Some(a) => if *a != *caller {
                Err(CampaignError::Unauthorized)
            } else if nonce != self.admin_nonce || self.admin_nonce == u64::MAX {
                Err(CampaignError::InvalidAdminNonce)
            } else {
                Ok(())
            },
        }
    }

    /// Turns registration on or off.
    pub fn set_active(&mut self, caller: &AccountId, nonce: u64, active: bool, events: &mut Vec<CampaignEvent>) -> (r: Result<(), CampaignError>)
        requires
            old(self).wf(),
        ensures
            final(self).wf(),
            admin_call_done(
                old(self)@.set_active(caller@, nonce, active),
                old(self)@,
                final(self)@,
                r,
                old(events)@,
                final(events)@,
                Some(CampaignEventView::ActiveSet(active)),
            ),
    {
        match self.check_admin(caller, nonce) {
            Err(e) => Err(e),
            Ok(_) => {
                self.admin_nonce = self.admin_nonce + 1;
                self.active = active;
                emit(events, CampaignEvent::ActiveSet { active });
                Ok(())
            },
        }
    }

    /// Sets the registration window to `start..=end`.
    pub fn set_window(&mut self, caller: &AccountId, nonce: u64, start: u64, end: u64, events: &mut Vec<CampaignEvent>) -> (r: Result<(), CampaignError>)
        requires
            old(self).wf(),
        ensures
            final(self).wf(),
            admin_call_done(
                old(self)@.set_window(caller@, nonce, start, end),
                old(self)@,
                final(self)@,
                r,
                old(events)@,
                final(events)@,
                Some(CampaignEventView::WindowSet(start, end)),
            ),
    {
        match self.check_admin(caller, nonce) {
            Err(e) => Err(e),
            Ok(_) => {
                if start > end {
                    return Err(CampaignError::InvalidWindow);
                }
                self.admin_nonce = self.admin_nonce + 1;
                self.window_start = start;
                self.window_end = end;
                emit(events, CampaignEvent::WindowSet { start, end });
                Ok(())
            },
        }
    }

    /// Bounds the number of participants; 0 removes the bound.
    pub fn set_max_cap(&mut self, caller: &AccountId, nonce: u64, cap: u32, events: &mut Vec<CampaignEvent>) -> (r: Result<(), CampaignError>)
        requires
            old(self).wf(),
        ensures
            final(self).wf(),
            admin_call_done(
                old(self)@.set_max_cap(caller@, nonce, cap),
                old(self)@,
                final(self)@,
                r,
                old(events)@,
                final(events)@,
                None,
            ),
    {
        match self.check_admin(caller, nonce) {
            Err(e) => Err(e),
            Ok(_) => {
                self.admin_nonce = self.admin_nonce + 1;
                self.max_cap = cap;
                Ok(())
            },
        }
    }

    /// Restricts registration to the accounts holding a proof under `root`.
    pub fn set_merkle_root(&mut self, caller: &AccountId, nonce: u64, root: [u8; 32], events: &mut Vec<CampaignEvent>) -> (r: Result<(), CampaignError>)
        requires
            old(self).wf(),
        ensures
            final(self).wf(),
            admin_call_done(
                old(self)@.set_merkle_root(caller@, nonce, root),
                old(self)@,
                final(self)@,
                r,
                old(events)@,
                final(events)@,
                None,
            ),
    {
        match self.check_admin(caller, nonce) {
            Err(e) => Err(e),
            Ok(_) => {
                self.admin_nonce = self.admin_nonce + 1;
                self.merkle_root = Some(root);
                Ok(())
            },
        }
    }

    /// Accepts a migration to the current layout version only.
    pub fn migrate(&self, caller: &AccountId, target: u32) -> (r: Result<u32, CampaignError>)
        ensures
            r == self@.migrate(caller@, target),
    {
        match &self.admin {
            None => Err(CampaignError::NotInitialized),
            Some(a) => if *a != *caller {
                Err(CampaignError::Unauthorized)
            } else if target != SCHEMA_VERSION {
                Err(CampaignError::UnsupportedMigration)
            } else {
                Ok(SCHEMA_VERSION)
            },
        }
    }

    /// Registers `who` at ledger time `now`, given whether its proof passes
    /// the allowlist.
    pub fn enroll(&mut self, who: &AccountId, now: u64, allowlisted: bool, events: &mut Vec<CampaignEvent>) -> (r: Result<bool, CampaignError>)
        requires
            old(self).wf(),
        ensures
            final(self).wf(),
            register_done(old(self)@, final(self)@, who@, now, allowlisted, r, old(events)@, final(events)@),
    {
        if !self.active {
            return Err(CampaignError::CampaignInactive);
        }
        if !(self.window_start <= now && now <= self.window_end) {
            return Err(CampaignError::OutsideTimeWindow);
        }
        if find_account(&self.participants, who).is_some() {
            return Ok(false);
        }
        let count: usize = self.participants.len();
        if (self.max_cap != 0 && count >= self.max_cap as usize) || count >= u32::MAX as usize {
            return Err(CampaignError::CapacityReached);
        }
        if !allowlisted {
            return Err(CampaignError::NotInAllowlist);
        }
        let ghost before = self.participants@;
        let added = who.clone();
        self.participants.push(added);
        assert(account_views(before.push(added)) =~= account_views(before).push(who@));
        emit(events, CampaignEvent::Registered { participant: who.clone() });
        Ok(true)
    }

    /// Registers `who` at ledger time `now`, checking `leaf` and `proof`
    /// against the allowlist root, if one is set.
    pub fn register(
        &mut self,
        env: &soroban_sdk::Env,
        who: &AccountId,
        now: u64,
        leaf: &[u8; 32],
        proof: &Vec<[u8; 32]>,
        events: &mut Vec<CampaignEvent>,
    ) -> (r: Result<bool, CampaignError>)
        requires
            old(self).wf(),
        ensures
            final(self).wf(),
            register_done(
                old(self)@,
                final(self)@,
                who@,
                now,
                spec_admits(old(self)@.merkle_root, leaf@, proof@),
                r,
                old(events)@,
                final(events)@,
            ),
    {
        let allowlisted = admits(env, &self.merkle_root, leaf, proof);
        self.enroll(who, now, allowlisted, events)
    }
}

} // verus!
