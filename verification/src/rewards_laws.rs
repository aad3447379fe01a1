//! What holds of the rewards ledger across calls: points are only created by
//! credits, claims move them from balances into the claimed total, transfers
//! move them between balances, and a refused call moves nothing.

use vstd::prelude::*;
use crate::rewards::{RewardsView, RewardsError, scaled, batch_total, BPS_ONE};

verus! {

/// A fresh contract reads as empty: every balance and the claimed total are
/// zero, and the token is called "Trivela" with symbol "TVL".
pub proof fn law_fresh_defaults(who: Seq<char>)
    ensures
        RewardsView::fresh().wf(),
        RewardsView::fresh().balance(who) == 0,
        RewardsView::fresh().total_claimed == 0,
        RewardsView::fresh().total_supply() == 0,
        RewardsView::fresh().name == "Trivela"@,
        RewardsView::fresh().symbol == "TVL"@,
{
}

/// A credit adds exactly its amount to the recipient's balance and to the
/// points in existence, and touches no other balance.
pub proof fn law_credit_conserves(s: RewardsView, caller: Seq<char>, user: Seq<char>, amount: u64, other: Seq<char>)
    requires
        s.wf(),
        s.credit(caller, user, amount) is Ok,
    ensures
        ({
            let (b, t) = s.credit(caller, user, amount).unwrap();
            &&& t.wf()
            &&& b == s.balance(user) + amount
            &&& t.balance(user) == b
            &&& other != user ==> t.balance(other) == s.balance(other)
            &&& t.total_claimed == s.total_claimed
            &&& t.total_supply() == s.total_supply() + amount
        }),
{
    let b = (s.balance(user) + amount) as u64;
    s.lemma_with_balance(user, b, other);
}

/// Only the admin credits; others are refused as unauthorized.
pub proof fn law_credit_admin_only(s: RewardsView, admin: Seq<char>, caller: Seq<char>, user: Seq<char>, amount: u64, campaign_id: u64)
    requires
        s.admin == Some(admin),
        caller != admin,
    ensures
        s.credit(caller, user, amount) == Err::<(u64, RewardsView), RewardsError>(RewardsError::Unauthorized),
        s.credit_for_campaign(caller, user, campaign_id, amount) == Err::<(u64, RewardsView), RewardsError>(RewardsError::Unauthorized),
{
}

/// A credit above the per-call limit is refused, and so is one that would
/// carry the balance past `u64::MAX`.
pub proof fn law_credit_bounds(s: RewardsView, caller: Seq<char>, user: Seq<char>, amount: u64)
    requires
        s.check_admin(caller) is Ok,
    ensures
        s.max_credit_per_call != 0 && amount > s.max_credit_per_call
            ==> s.credit(caller, user, amount) == Err::<(u64, RewardsView), RewardsError>(RewardsError::CreditLimitExceeded),
        (s.max_credit_per_call == 0 || amount <= s.max_credit_per_call) && s.balance(user) + amount > u64::MAX
            ==> s.credit(caller, user, amount) == Err::<(u64, RewardsView), RewardsError>(RewardsError::Overflow),
{
}

/// A claim moves its amount from the claimer's balance into the claimed
/// total: the points in existence stay the same, and no other balance moves.
pub proof fn law_claim_conserves(s: RewardsView, user: Seq<char>, amount: u64, other: Seq<char>)
    requires
        s.wf(),
        s.claim(user, amount) is Ok,
    ensures
        ({
            let (b, t) = s.claim(user, amount).unwrap();
            &&& t.wf()
            &&& b == s.balance(user) - amount
            &&& t.balance(user) == b
            &&& other != user ==> t.balance(other) == s.balance(other)
            &&& t.total_claimed == s.total_claimed + amount
            &&& t.total_supply() == s.total_supply()
        }),
{
    let b = (s.balance(user) - amount) as u64;
    s.lemma_with_balance(user, b, other);
}

/// Nobody claims more than their balance.
pub proof fn law_claim_needs_balance(s: RewardsView, user: Seq<char>, amount: u64)
    requires
        amount > s.balance(user),
    ensures
        s.claim(user, amount) == Err::<(u64, RewardsView), RewardsError>(RewardsError::InsufficientBalance),
{
}

/// A transfer moves its amount from one balance to the other, and the points
/// in existence stay the same; no third balance moves.
pub proof fn law_transfer_conserves(s: RewardsView, caller: Seq<char>, from: Seq<char>, to: Seq<char>, amount: u64, other: Seq<char>)
    requires
        s.wf(),
        s.admin_transfer(caller, from, to, amount) is Ok,
    ensures
        ({
            let t = s.admin_transfer(caller, from, to, amount).unwrap().1;
            &&& t.wf()
            &&& from != to ==> t.balance(from) == s.balance(from) - amount
            &&& from != to ==> t.balance(to) == s.balance(to) + amount
            &&& from == to ==> t.balance(from) == s.balance(from)
            &&& other != from && other != to ==> t.balance(other) == s.balance(other)
            &&& t.total_claimed == s.total_claimed
            &&& t.total_supply() == s.total_supply()
        }),
{
    let d = (s.balance(from) - amount) as u64;
    let m = s.with_balance(from, d);
    s.lemma_with_balance(from, d, to);
    s.lemma_with_balance(from, d, other);
    let v = (m.balance(to) + amount) as u64;
    m.lemma_with_balance(to, v, from);
    m.lemma_with_balance(to, v, other);
}

/// A batch that goes through adds its total to the points in existence and
/// leaves the claimed total alone.
pub proof fn law_batch_conserves(s: RewardsView, rs: Seq<(Seq<char>, u64)>)
    requires
        s.wf(),
        s.apply_batch(rs) is Ok,
    ensures
        s.apply_batch(rs).unwrap().wf(),
        s.apply_batch(rs).unwrap().total_supply() == s.total_supply() + batch_total(rs),
        s.apply_batch(rs).unwrap().total_claimed == s.total_claimed,
    decreases rs.len(),
{
    if rs.len() > 0 {
        law_batch_conserves(s, rs.drop_last());
        let t = s.apply_batch(rs.drop_last()).unwrap();
        law_credit_step(t, rs.last().0, rs.last().1);
    }
}

proof fn law_credit_step(t: RewardsView, user: Seq<char>, amount: u64)
    requires
        t.wf(),
        t.apply_credit(user, amount) is Ok,
    ensures
        t.apply_credit(user, amount).unwrap().1.wf(),
        t.apply_credit(user, amount).unwrap().1.total_supply() == t.total_supply() + amount,
        t.apply_credit(user, amount).unwrap().1.total_claimed == t.total_claimed,
{
    let b = (t.balance(user) + amount) as u64;
    t.lemma_with_balance(user, b, user);
}

/// A batch of one recipient does what a single credit does.
pub proof fn law_batch_of_one(s: RewardsView, caller: Seq<char>, user: Seq<char>, amount: u64)
    ensures
        s.batch_credit(caller, seq![(user, amount)]) is Ok <==> s.credit(caller, user, amount) is Ok,
        s.credit(caller, user, amount) is Ok
            ==> s.batch_credit(caller, seq![(user, amount)]).unwrap().1 == s.credit(caller, user, amount).unwrap().1,
        s.credit(caller, user, amount) is Err
            ==> s.batch_credit(caller, seq![(user, amount)]) == Err::<((), RewardsView), RewardsError>(
            s.credit(caller, user, amount)->Err_0,
        ),
{
    let rs = seq![(user, amount)];
    assert(rs.drop_last() =~= Seq::<(Seq<char>, u64)>::empty());
    assert(rs.last() == (user, amount));
    assert(s.apply_batch(rs.drop_last()) == Ok::<RewardsView, RewardsError>(s));
    assert(s.apply_batch(rs) == match s.apply_credit(user, amount) {
        Err(e) => Err::<RewardsView, RewardsError>(e),
        Ok((_, u)) => Ok(u),
    });
}

/// A campaign credit adds the amount scaled by the campaign's multiplier,
/// rounded down; a campaign without a multiplier credits the amount itself.
pub proof fn law_campaign_credit_scaled(s: RewardsView, caller: Seq<char>, user: Seq<char>, campaign_id: u64, amount: u64)
    requires
        s.wf(),
        s.credit_for_campaign(caller, user, campaign_id, amount) is Ok,
    ensures
        ({
            let (b, t) = s.credit_for_campaign(caller, user, campaign_id, amount).unwrap();
            &&& t.wf()
            &&& t.total_claimed == s.total_claimed
            &&& b == s.balance(user) + scaled(amount, s.multiplier(campaign_id))
            &&& t.total_supply() == s.total_supply() + scaled(amount, s.multiplier(campaign_id))
        }),
        !s.has_multiplier(campaign_id) ==> scaled(amount, s.multiplier(campaign_id)) == amount,
{
    let e = scaled(amount, s.multiplier(campaign_id)) as u64;
    let b = (s.balance(user) + e) as u64;
    s.lemma_with_balance(user, b, user);
    if !s.has_multiplier(campaign_id) {
        assert((amount as int) * (BPS_ONE as int) / (BPS_ONE as int) == amount) by (nonlinear_arith);
    }
}

/// A multiplier once set is the one used for that campaign; others keep theirs.
pub proof fn law_multiplier_read_back(s: RewardsView, caller: Seq<char>, campaign_id: u64, bps: u32, other: u64)
    requires
        s.wf(),
        s.set_campaign_multiplier(caller, campaign_id, bps) is Ok,
    ensures
        ({
            let t = s.set_campaign_multiplier(caller, campaign_id, bps).unwrap().1;
            &&& t.wf()
            &&& t.multiplier(campaign_id) == bps
            &&& other != campaign_id ==> t.multiplier(other) == s.multiplier(other)
            &&& t.total_supply() == s.total_supply()
        }),
{
    s.lemma_with_multiplier(campaign_id, bps, other);
}

/// A call that can change the ledger.
pub enum RewardsCall {
    Initialize(Seq<char>, Seq<char>, Seq<char>),
    Credit(Seq<char>, Seq<char>, u64),
    CreditForCampaign(Seq<char>, Seq<char>, u64, u64),
    BatchCredit(Seq<char>, Seq<(Seq<char>, u64)>),
    Claim(Seq<char>, u64),
    AdminTransfer(Seq<char>, Seq<char>, Seq<char>, u64),
    SetMaxCreditPerCall(Seq<char>, u64),
    SetCampaignMultiplier(Seq<char>, u64, u32),
}

/// The state after a call, or why it was refused.
pub open spec fn step(s: RewardsView, call: RewardsCall) -> Result<RewardsView, RewardsError> {
    match call {
        RewardsCall::Initialize(admin, name, symbol) => match s.initialize(admin, name, symbol) {
            Ok((_, t)) => Ok(t),
            Err(e) => Err(e),
        },
        RewardsCall::Credit(caller, user, amount) => match s.credit(caller, user, amount) {
            Ok((_, t)) => Ok(t),
            Err(e) => Err(e),
        },
        RewardsCall::CreditForCampaign(caller, user, campaign_id, amount) => match s.credit_for_campaign(caller, user, campaign_id, amount) {
            Ok((_, t)) => Ok(t),
            Err(e) => Err(e),
        },
        RewardsCall::BatchCredit(caller, rs) => match s.batch_credit(caller, rs) {
            Ok((_, t)) => Ok(t),
            Err(e) => Err(e),
        },
        RewardsCall::Claim(user, amount) => match s.claim(user, amount) {
            Ok((_, t)) => Ok(t),
            Err(e) => Err(e),
        },
        RewardsCall::AdminTransfer(caller, from, to, amount) => match s.admin_transfer(caller, from, to, amount) {
            Ok((_, t)) => Ok(t),
            Err(e) => Err(e),
        },
        RewardsCall::SetMaxCreditPerCall(caller, limit) => match s.set_max_credit_per_call(caller, limit) {
            Ok((_, t)) => Ok(t),
            Err(e) => Err(e),
        },
        RewardsCall::SetCampaignMultiplier(caller, campaign_id, bps) => match s.set_campaign_multiplier(caller, campaign_id, bps) {
            Ok((_, t)) => Ok(t),
            Err(e) => Err(e),
        },
    }
}

/// The points a call creates when it is accepted in state `s`.
pub open spec fn created(s: RewardsView, call: RewardsCall) -> int {
    match call {
        RewardsCall::Credit(_, _, amount) => amount as int,
        RewardsCall::CreditForCampaign(_, _, campaign_id, amount) => scaled(amount, s.multiplier(campaign_id)),
        RewardsCall::BatchCredit(_, rs) => batch_total(rs),
        _ => 0,
    }
}

/// The state after a series of calls, refused ones changing nothing.
pub open spec fn run(s: RewardsView, calls: Seq<RewardsCall>) -> RewardsView
    decreases calls.len(),
{
    if calls.len() == 0 {
        s
    } else {
        let t = run(s, calls.drop_last());
        match step(t, calls.last()) {
            Ok(u) => u,
            Err(_) => t,
        }
    }
}

/// The points created by the accepted calls of a series.
pub open spec fn minted(s: RewardsView, calls: Seq<RewardsCall>) -> int
    decreases calls.len(),
{
    if calls.len() == 0 {
        0
    } else {
        let t = run(s, calls.drop_last());
        minted(s, calls.drop_last()) + if step(t, calls.last()) is Ok {
            created(t, calls.last())
        } else {
            0
        }
    }
}

/// One accepted call keeps the ledger well formed and adds to the points in
/// existence exactly what it creates.
pub proof fn law_step_conserves(s: RewardsView, call: RewardsCall)
    requires
        s.wf(),
        step(s, call) is Ok,
    ensures
        step(s, call).unwrap().wf(),
        step(s, call).unwrap().total_supply() == s.total_supply() + created(s, call),
{
    match call {
        RewardsCall::Initialize(admin, name, symbol) => {},
        RewardsCall::Credit(caller, user, amount) => {
            law_credit_conserves(s, caller, user, amount, user);
        },
        RewardsCall::CreditForCampaign(caller, user, campaign_id, amount) => {
            law_campaign_credit_scaled(s, caller, user, campaign_id, amount);
        },
        RewardsCall::BatchCredit(caller, rs) => {
            law_batch_conserves(s, rs);
        },
        RewardsCall::Claim(user, amount) => {
            law_claim_conserves(s, user, amount, user);
        },
        RewardsCall::AdminTransfer(caller, from, to, amount) => {
            law_transfer_conserves(s, caller, from, to, amount, from);
        },
        RewardsCall::SetMaxCreditPerCall(caller, limit) => {},
        RewardsCall::SetCampaignMultiplier(caller, campaign_id, bps) => {
            law_multiplier_read_back(s, caller, campaign_id, bps, campaign_id);
        },
    }
}

/// Whatever series of calls a ledger sees, it stays well formed, and the
/// balances together with the claimed total grow by exactly the points that
/// the accepted credits created: claims and transfers only move points.
pub proof fn law_run_conserves(s: RewardsView, calls: Seq<RewardsCall>)
    requires
        s.wf(),
    ensures
        run(s, calls).wf(),
        run(s, calls).total_supply() == s.total_supply() + minted(s, calls),
    decreases calls.len(),
{
    if calls.len() > 0 {
        law_run_conserves(s, calls.drop_last());
        let t = run(s, calls.drop_last());
        if step(t, calls.last()) is Ok {
            law_step_conserves(t, calls.last());
        }
    }
}

/// The admin's transfer of at most the source's balance is accepted when the
/// destination's balance can take the amount; points then move from one
/// balance to the other.
pub proof fn law_transfer_accepted(s: RewardsView, caller: Seq<char>, from: Seq<char>, to: Seq<char>, amount: u64)
    requires
        s.wf(),
        s.admin == Some(caller),
        amount <= s.balance(from),
        from == to || s.balance(to) + amount <= u64::MAX,
    ensures
        s.admin_transfer(caller, from, to, amount) is Ok,
        from != to ==> s.admin_transfer(caller, from, to, amount).unwrap().1.balance(from) == s.balance(from) - amount,
        from != to ==> s.admin_transfer(caller, from, to, amount).unwrap().1.balance(to) == s.balance(to) + amount,
{
    let d = (s.balance(from) - amount) as u64;
    s.lemma_with_balance(from, d, to);
    s.lemma_with_balance(from, d, from);
    law_transfer_conserves(s, caller, from, to, amount, from);
}

/// A claim of at most the claimer's balance, keeping the claimed total within
/// `u64`, is accepted: the balance drops by the amount and the claimed total
/// grows by it.
pub proof fn law_claim_accepted(s: RewardsView, user: Seq<char>, amount: u64)
    requires
        s.wf(),
        amount <= s.balance(user),
        s.total_claimed + amount <= u64::MAX,
    ensures
        s.claim(user, amount) is Ok,
        s.claim(user, amount).unwrap().0 == s.balance(user) - amount,
        s.claim(user, amount).unwrap().1.balance(user) == s.balance(user) - amount,
        s.claim(user, amount).unwrap().1.total_claimed == s.total_claimed + amount,
{
    let b = (s.balance(user) - amount) as u64;
    s.lemma_with_balance(user, b, user);
}

/// Credits never change who the admin is.
proof fn lemma_batch_keeps_admin(s: RewardsView, rs: Seq<(Seq<char>, u64)>)
    requires
        s.apply_batch(rs) is Ok,
    ensures
        s.apply_batch(rs).unwrap().admin == s.admin,
    decreases rs.len(),
{
    if rs.len() > 0 {
        lemma_batch_keeps_admin(s, rs.drop_last());
    }
}

/// A batch is the admin's credits one after another, of any length: the empty
/// batch changes nothing, and a batch with one more recipient is the shorter
/// batch followed by a credit to that recipient, refused when either is.
pub proof fn law_batch_is_credits_in_order(s: RewardsView, caller: Seq<char>, rs: Seq<(Seq<char>, u64)>, user: Seq<char>, amount: u64)
    requires
        s.admin == Some(caller),
    ensures
        s.batch_credit(caller, Seq::empty()) == Ok::<((), RewardsView), RewardsError>(((), s)),
        s.batch_credit(caller, rs.push((user, amount))) == match s.batch_credit(caller, rs) {
            Err(e) => Err(e),
            Ok((_, t)) => match t.credit(caller, user, amount) {
                Err(e) => Err(e),
                Ok((_, u)) => Ok::<((), RewardsView), RewardsError>(((), u)),
            },
        },
{
    let rs2 = rs.push((user, amount));
    assert(rs2.drop_last() =~= rs);
    assert(rs2.last() == (user, amount));
    if s.apply_batch(rs) is Ok {
        lemma_batch_keeps_admin(s, rs);
    }
}

} // verus!
