//! What holds of every campaign, whatever calls it has seen.

use vstd::prelude::*;
use crate::campaign::{CampaignView, CampaignError};

verus! {

/// A settings change that only the admin may make.
pub enum AdminCall {
    SetActive(bool),
    SetWindow(u64, u64),
    SetMaxCap(u32),
    SetMerkleRoot([u8; 32]),
}

/// The outcome of an admin call on a campaign.
pub open spec fn apply_admin(s: CampaignView, caller: Seq<char>, nonce: u64, call: AdminCall) -> Result<CampaignView, CampaignError> {
    match call {
        AdminCall::SetActive(a) => s.set_active(caller, nonce, a),
        AdminCall::SetWindow(start, end) => s.set_window(caller, nonce, start, end),
        AdminCall::SetMaxCap(cap) => s.set_max_cap(caller, nonce, cap),
        AdminCall::SetMerkleRoot(root) => s.set_merkle_root(caller, nonce, root),
    }
}

/// A campaign is initialized once: after that, `initialize` is refused.
pub proof fn law_initialize_once(s: CampaignView, admin: Seq<char>, other: Seq<char>)
    requires
        s.initialize(admin) is Ok,
    ensures
        s.initialize(admin).unwrap().initialize(other) == Err::<CampaignView, CampaignError>(CampaignError::AlreadyInitialized),
{
}

/// An accepted admin call came from the admin, carried the current nonce,
/// moved the nonce up by one and left the participants alone; the same nonce
/// is refused from then on, whatever call carries it.
pub proof fn law_admin_nonce_used_once(s: CampaignView, caller: Seq<char>, nonce: u64, call: AdminCall, replay: AdminCall)
    requires
        apply_admin(s, caller, nonce, call) is Ok,
    ensures
        s.admin == Some(caller),
        nonce == s.admin_nonce,
        apply_admin(s, caller, nonce, call).unwrap().admin_nonce == s.admin_nonce + 1,
        apply_admin(s, caller, nonce, call).unwrap().participants == s.participants,
        apply_admin(s, caller, nonce, call).unwrap().admin == s.admin,
        apply_admin(apply_admin(s, caller, nonce, call).unwrap(), caller, nonce, replay)
            == Err::<CampaignView, CampaignError>(CampaignError::InvalidAdminNonce),
{
}

/// Only the admin's calls are accepted: anyone else is refused as
/// unauthorized, whatever nonce they carry.
pub proof fn law_admin_only(s: CampaignView, admin: Seq<char>, caller: Seq<char>, nonce: u64, call: AdminCall)
    requires
        s.admin == Some(admin),
        caller != admin,
    ensures
        apply_admin(s, caller, nonce, call) == Err::<CampaignView, CampaignError>(CampaignError::Unauthorized),
{
}

/// A window refused as empty does not use up the nonce: the same nonce still
/// sets any window that does not end before it starts.
pub proof fn law_refused_window_keeps_nonce(s: CampaignView, caller: Seq<char>, nonce: u64, start: u64, end: u64, start2: u64, end2: u64)
    requires
        s.set_window(caller, nonce, start, end) == Err::<CampaignView, CampaignError>(CampaignError::InvalidWindow),
        start2 <= end2,
    ensures
        s.set_window(caller, nonce, start2, end2) is Ok,
        s.set_window(caller, nonce, start2, end2).unwrap().window_start == start2,
        s.set_window(caller, nonce, start2, end2).unwrap().window_end == end2,
{
}

/// Setting the active flag to the value it has is accepted again and changes
/// nothing but the nonce.
pub proof fn law_set_active_idempotent(s: CampaignView, caller: Seq<char>, nonce: u64, active: bool)
    requires
        s.set_active(caller, nonce, active) is Ok,
        nonce + 1 < u64::MAX,
    ensures
        ({
            let t = s.set_active(caller, nonce, active).unwrap();
            &&& t.set_active(caller, (nonce + 1) as u64, active) is Ok
            &&& t.set_active(caller, (nonce + 1) as u64, active).unwrap() == CampaignView {
                admin_nonce: (nonce + 2) as u64,
                ..t
            }
        }),
{
}

/// A registration that adds someone adds exactly that account, at the end,
/// and leaves everyone else's membership as it was; one that adds nobody
/// changes nothing and concerns an account already registered.
pub proof fn law_register_adds_exactly_one(s: CampaignView, who: Seq<char>, now: u64, allowlisted: bool, other: Seq<char>)
    requires
        s.register(who, now, allowlisted) is Ok,
        other != who,
    ensures
        ({
            let (added, t) = s.register(who, now, allowlisted).unwrap();
            &&& added ==> !s.is_participant(who) && t.participants == s.participants.push(who)
            &&& added ==> t.participants.len() == s.participants.len() + 1
            &&& !added ==> s.is_participant(who) && t == s
            &&& t.is_participant(who)
            &&& t.is_participant(other) == s.is_participant(other)
        }),
{
    let (added, t) = s.register(who, now, allowlisted).unwrap();
    if added {
        assert(t.participants.last() == who);
        assert(t.participants.contains(who));
        if t.participants.contains(other) {
            let i = choose|i: int| 0 <= i < t.participants.len() && t.participants[i] == other;
            assert(i < s.participants.len());
            assert(s.participants[i] == other);
        }
        if s.participants.contains(other) {
            let i = choose|i: int| 0 <= i < s.participants.len() && s.participants[i] == other;
            assert(t.participants[i] == other);
        }
    }
}

/// Nobody gets in while the campaign is inactive or outside its window, and
/// nobody new gets in past the cap or without passing the allowlist.
pub proof fn law_register_gates(s: CampaignView, who: Seq<char>, now: u64, allowlisted: bool)
    requires
        s.register(who, now, allowlisted) is Ok,
    ensures
        s.active,
        s.within_window(now),
        ({
            let (added, t) = s.register(who, now, allowlisted).unwrap();
            added ==> {
                &&& allowlisted
                &&& s.max_cap == 0 || t.participants.len() <= s.max_cap
                &&& t.participants.len() <= u32::MAX
            }
        }),
{
}

/// An inactive campaign refuses every registration as inactive.
pub proof fn law_inactive_refuses(s: CampaignView, who: Seq<char>, now: u64, allowlisted: bool)
    requires
        !s.active,
    ensures
        s.register(who, now, allowlisted) == Err::<(bool, CampaignView), CampaignError>(CampaignError::CampaignInactive),
{
}

/// Registering again, inside the window, answers `false` and changes nothing,
/// whatever proof comes with it.
pub proof fn law_second_registration_is_noop(s: CampaignView, who: Seq<char>, now: u64, allowlisted: bool, later: u64, allowlisted2: bool)
    requires
        s.register(who, now, allowlisted) is Ok,
        s.within_window(later),
    ensures
        ({
            let t = s.register(who, now, allowlisted).unwrap().1;
            t.register(who, later, allowlisted2) == Ok::<(bool, CampaignView), CampaignError>((false, t))
        }),
{
    let (added, t) = s.register(who, now, allowlisted).unwrap();
    if added {
        assert(t.participants.last() == who);
    }
    assert(t.participants.contains(who));
}

/// Every accepted call keeps a campaign well formed: nobody is registered
/// twice, the count fits, and the window does not end before it starts.
pub proof fn law_calls_keep_wf(s: CampaignView, caller: Seq<char>, nonce: u64, call: AdminCall, who: Seq<char>, now: u64, allowlisted: bool)
    requires
        s.wf(),
    ensures
        apply_admin(s, caller, nonce, call) is Ok ==> apply_admin(s, caller, nonce, call).unwrap().wf(),
        s.register(who, now, allowlisted) is Ok ==> s.register(who, now, allowlisted).unwrap().1.wf(),
        s.initialize(caller) is Ok ==> s.initialize(caller).unwrap().wf(),
{
    if s.register(who, now, allowlisted) is Ok {
        let (added, t) = s.register(who, now, allowlisted).unwrap();
        if added {
            assert forall|i: int, j: int| 0 <= i < t.participants.len() && 0 <= j < t.participants.len() && i != j implies t.participants[i] != t.participants[j] by {
                if i < s.participants.len() && j < s.participants.len() {
                } else if i == s.participants.len() {
                    assert(s.participants[j] == t.participants[j]);
                } else {
                    assert(s.participants[i] == t.participants[i]);
                }
            }
        }
    }
    if s.initialize(caller) is Ok {
        assert(s.initialize(caller).unwrap().participants.no_duplicates());
    }
}

/// A call that can change a campaign.
pub enum CampaignCall {
    Initialize(Seq<char>),
    Admin(Seq<char>, u64, AdminCall),
    Register(Seq<char>, u64, bool),
}

/// The state after a call, or why it was refused.
pub open spec fn step(s: CampaignView, call: CampaignCall) -> Result<CampaignView, CampaignError> {
    match call {
        CampaignCall::Initialize(admin) => s.initialize(admin),
        CampaignCall::Admin(caller, nonce, c) => apply_admin(s, caller, nonce, c),
        CampaignCall::Register(who, now, allowlisted) => match s.register(who, now, allowlisted) {
            Ok((_, t)) => Ok(t),
            Err(e) => Err(e),
        },
    }
}

/// The state after a series of calls, refused ones changing nothing.
pub open spec fn run(s: CampaignView, calls: Seq<CampaignCall>) -> CampaignView
    decreases calls.len(),
{
    if calls.len() == 0 {
        s
    } else {
        let t = run(s, calls.drop_last());
        match step(t, calls.last()) {
            Ok(u) => u,
            Err(_) => t,
        }
    }
}

/// Whatever series of calls a well-formed campaign sees, it stays well
/// formed; once it has an admin the admin never changes; nobody who
/// registered is ever dropped, and registrations keep their order; the admin
/// nonce never goes back.
pub proof fn law_run_keeps_history(s: CampaignView, calls: Seq<CampaignCall>)
    requires
        s.wf(),
    ensures
        run(s, calls).wf(),
        s.admin is Some ==> run(s, calls).admin == s.admin,
        s.participants.is_prefix_of(run(s, calls).participants),
        s.admin_nonce <= run(s, calls).admin_nonce,
    decreases calls.len(),
{
    if calls.len() > 0 {
        law_run_keeps_history(s, calls.drop_last());
        let t = run(s, calls.drop_last());
        let call = calls.last();
        if step(t, call) is Ok {
            let u = step(t, call).unwrap();
            match call {
                CampaignCall::Initialize(admin) => {
                    law_calls_keep_wf(t, admin, 0, AdminCall::SetActive(true), admin, 0, true);
                },
                CampaignCall::Admin(caller, nonce, c) => {
                    law_calls_keep_wf(t, caller, nonce, c, caller, 0, true);
                    law_admin_nonce_used_once(t, caller, nonce, c, c);
                },
                CampaignCall::Register(who, now, allowlisted) => {
                    law_calls_keep_wf(t, who, 0, AdminCall::SetActive(true), who, now, allowlisted);
                },
            }
            assert(s.participants.is_prefix_of(u.participants));
        }
    }
}

/// An active campaign inside its window takes every new allowlisted account
/// while fewer than the cap (if any) are registered: the account is added at
/// the end and nothing else changes.
pub proof fn law_register_accepts_below_cap(s: CampaignView, who: Seq<char>, now: u64)
    requires
        s.active,
        s.window_start <= now <= s.window_end,
        !s.participants.contains(who),
        s.max_cap == 0 || s.participants.len() < s.max_cap,
        s.participants.len() < u32::MAX,
    ensures
        s.register(who, now, true) == Ok::<(bool, CampaignView), CampaignError>(
            (true, CampaignView { participants: s.participants.push(who), ..s }),
        ),
{
}

/// A new account is refused for capacity exactly when the cap is set and that
/// many accounts are already registered (or the count is full).
pub proof fn law_register_capacity_exact(s: CampaignView, who: Seq<char>, now: u64, allowlisted: bool)
    requires
        s.active,
        s.window_start <= now <= s.window_end,
        !s.participants.contains(who),
    ensures
        (s.register(who, now, allowlisted) == Err::<(bool, CampaignView), CampaignError>(CampaignError::CapacityReached))
            <==> ((s.max_cap != 0 && s.participants.len() >= s.max_cap) || s.participants.len() >= u32::MAX),
{
}

} // verus!
