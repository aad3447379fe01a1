use trivela::rewards::{Rewards, RewardsError, RewardsEvent, RewardsParts};

fn s(x: &str) -> String {
    x.to_string()
}

fn ready() -> Rewards {
    let mut r = Rewards::new();
    r.initialize(&s("GA"), &s("Trivela"), &s("TVL")).unwrap();
    r
}

#[test]
fn uninitialized_rewards_refuse_admin_calls() {
    let mut r = Rewards::new();
    let mut events = Vec::new();
    assert_eq!(r.credit(&s("GA"), &s("GU"), 1, &mut events), Err(RewardsError::NotInitialized));
    assert_eq!(r.migrate(&s("GA"), 1), Err(RewardsError::NotInitialized));
    r.initialize(&s("GA"), &s("X"), &s("Y")).unwrap();
    assert_eq!(r.initialize(&s("GA"), &s("X"), &s("Y")), Err(RewardsError::AlreadyInitialized));
    assert_eq!(r.credit(&s("GB"), &s("GU"), 1, &mut events), Err(RewardsError::Unauthorized));
    assert!(events.is_empty());
}

#[test]
fn transfer_moves_points_and_keeps_the_total() {
    let mut r = ready();
    let mut events = Vec::new();
    r.credit(&s("GA"), &s("GU"), 30, &mut events).unwrap();
    let mut events = Vec::new();
    r.admin_transfer(&s("GA"), &s("GU"), &s("GV"), 12, &mut events).unwrap();
    assert_eq!(events, vec![RewardsEvent::Transferred { from: s("GU"), to: s("GV"), amount: 12 }]);
    assert_eq!(r.balance(&s("GU")), 18);
    assert_eq!(r.balance(&s("GV")), 12);
    r.admin_transfer(&s("GA"), &s("GU"), &s("GU"), 18, &mut events).unwrap();
    assert_eq!(r.balance(&s("GU")), 18);
    assert_eq!(r.admin_transfer(&s("GA"), &s("GU"), &s("GV"), 19, &mut events), Err(RewardsError::InsufficientBalance));
    assert_eq!(r.admin_transfer(&s("GB"), &s("GU"), &s("GV"), 1, &mut events), Err(RewardsError::Unauthorized));
}

#[test]
fn transfer_that_would_overflow_is_refused() {
    let mut r = ready();
    let mut events = Vec::new();
    r.credit(&s("GA"), &s("GU"), 5, &mut events).unwrap();
    r.credit(&s("GA"), &s("GV"), u64::MAX, &mut events).unwrap();
    assert_eq!(r.admin_transfer(&s("GA"), &s("GU"), &s("GV"), 1, &mut events), Err(RewardsError::Overflow));
    assert_eq!(r.balance(&s("GU")), 5);
    assert_eq!(r.balance(&s("GV")), u64::MAX);
}

#[test]
fn claimed_total_overflow_is_refused() {
    let mut r = ready();
    let mut events = Vec::new();
    r.credit(&s("GA"), &s("GU"), u64::MAX, &mut events).unwrap();
    r.claim(&s("GU"), u64::MAX, &mut events).unwrap();
    r.credit(&s("GA"), &s("GU"), 1, &mut events).unwrap();
    assert_eq!(r.claim(&s("GU"), 1, &mut events), Err(RewardsError::Overflow));
    assert_eq!(r.balance(&s("GU")), 1);
    assert_eq!(r.total_claimed(), u64::MAX);
}

#[test]
fn campaign_credit_defaults_to_one_and_can_overflow() {
    let mut r = ready();
    let mut events = Vec::new();
    assert_eq!(r.campaign_multiplier(99), 10_000);
    assert_eq!(r.credit_for_campaign(&s("GA"), &s("GU"), 99, 77, &mut events), Ok(77));
    assert_eq!(events, vec![RewardsEvent::Credited { user: s("GU"), amount: 77 }]);
    r.set_campaign_multiplier(&s("GA"), 5, 20_000, &mut events).unwrap();
    r.set_campaign_multiplier(&s("GA"), 5, 30_000, &mut events).unwrap();
    assert_eq!(r.campaign_multiplier(5), 30_000);
    assert_eq!(r.campaign_multiplier(99), 10_000);
    assert_eq!(r.credit_for_campaign(&s("GA"), &s("GV"), 5, u64::MAX, &mut events), Err(RewardsError::Overflow));
    assert_eq!(r.credit_for_campaign(&s("GA"), &s("GV"), 5, 3, &mut events), Ok(9));
}

#[test]
fn campaign_credit_respects_the_limit_on_the_scaled_amount() {
    let mut r = ready();
    let mut events = Vec::new();
    r.set_max_credit_per_call(&s("GA"), 100, &mut events).unwrap();
    r.set_campaign_multiplier(&s("GA"), 1, 20_000, &mut events).unwrap();
    assert_eq!(r.credit_for_campaign(&s("GA"), &s("GU"), 1, 51, &mut events), Err(RewardsError::CreditLimitExceeded));
    assert_eq!(r.credit_for_campaign(&s("GA"), &s("GU"), 1, 50, &mut events), Ok(100));
}

#[test]
fn batch_credits_in_order_and_accumulates_repeats() {
    let mut r = ready();
    let mut events = Vec::new();
    let batch = vec![(s("GU"), 5u64), (s("GV"), 7u64), (s("GU"), 10u64)];
    r.batch_credit(&s("GA"), &batch, &mut events).unwrap();
    assert_eq!(
        events,
        vec![
            RewardsEvent::Credited { user: s("GU"), amount: 5 },
            RewardsEvent::Credited { user: s("GV"), amount: 7 },
            RewardsEvent::Credited { user: s("GU"), amount: 10 },
        ]
    );
    assert_eq!(r.balance(&s("GU")), 15);
    assert_eq!(r.balance(&s("GV")), 7);
    let mut events = Vec::new();
    r.batch_credit(&s("GA"), &Vec::new(), &mut events).unwrap();
    assert!(events.is_empty());
}

#[test]
fn batch_refused_by_limit_leaves_everything() {
    let mut r = ready();
    let mut events = Vec::new();
    r.set_max_credit_per_call(&s("GA"), 10, &mut events).unwrap();
    let mut events = Vec::new();
    let batch = vec![(s("GNEW"), 5u64), (s("GV"), 11u64)];
    assert_eq!(r.batch_credit(&s("GA"), &batch, &mut events), Err(RewardsError::CreditLimitExceeded));
    assert!(events.is_empty());
    assert_eq!(r.balance(&s("GNEW")), 0);
    let parts = r.into_parts();
    assert!(parts.accounts.is_empty());
    assert!(parts.amounts.is_empty());
}

#[test]
fn points_in_existence_equal_what_was_credited() {
    let mut r = ready();
    let mut events = Vec::new();
    let mut minted: u64 = 0;
    let users = [s("GU"), s("GV"), s("GW")];
    for round in 0..30u64 {
        let u = &users[(round % 3) as usize];
        let v = &users[((round + 1) % 3) as usize];
        r.credit(&s("GA"), u, round + 3, &mut events).unwrap();
        minted += round + 3;
        r.claim(u, round % 4, &mut events).unwrap();
        r.admin_transfer(&s("GA"), u, v, 1, &mut events).unwrap();
        let held: u64 = users.iter().map(|x| r.balance(x)).sum();
        assert_eq!(held + r.total_claimed(), minted);
    }
}

#[test]
fn rewards_parts_round_trip_and_bad_parts_are_refused() {
    let mut r = ready();
    let mut events = Vec::new();
    r.credit(&s("GA"), &s("GU"), 4, &mut events).unwrap();
    r.set_campaign_multiplier(&s("GA"), 3, 15_000, &mut events).unwrap();
    let parts = r.into_parts();
    assert_eq!(parts.accounts, vec![s("GU")]);
    assert_eq!(parts.amounts, vec![4]);
    assert_eq!(parts.multipliers, vec![(3, 15_000)]);
    let r = Rewards::from_parts(parts).unwrap();
    assert_eq!(r.balance(&s("GU")), 4);

    let uneven = RewardsParts {
        admin: None,
        name: s("Trivela"),
        symbol: s("TVL"),
        accounts: vec![s("GU")],
        amounts: Vec::new(),
        total_claimed: 0,
        max_credit_per_call: 0,
        multipliers: Vec::new(),
    };
    assert!(Rewards::from_parts(uneven).is_none());
    let twice = RewardsParts {
        admin: None,
        name: s("Trivela"),
        symbol: s("TVL"),
        accounts: Vec::new(),
        amounts: Vec::new(),
        total_claimed: 0,
        max_credit_per_call: 0,
        multipliers: vec![(1, 2), (1, 3)],
    };
    assert!(Rewards::from_parts(twice).is_none());
}

#[test]
fn batch_of_one_is_a_credit() {
    let mut a = ready();
    let mut b = ready();
    let mut ea = Vec::new();
    let mut eb = Vec::new();
    a.batch_credit(&s("GA"), &vec![(s("GU"), 9u64)], &mut ea).unwrap();
    b.credit(&s("GA"), &s("GU"), 9, &mut eb).unwrap();
    assert_eq!(ea, eb);
    assert_eq!(a.balance(&s("GU")), b.balance(&s("GU")));
}

#[test]
fn claim_of_nothing_is_accepted_and_changes_no_balance() {
    let mut r = ready();
    let mut events = Vec::new();
    assert_eq!(r.claim(&s("GU"), 0, &mut events), Ok(0));
    assert_eq!(events, vec![RewardsEvent::Claimed { user: s("GU"), amount: 0 }]);
    assert_eq!(r.total_claimed(), 0);
}
