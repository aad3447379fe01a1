use soroban_sdk::{Bytes, Env};
use trivela::campaign::{Campaign, CampaignError, CampaignEvent};

const ADMIN: &str = "GADMIN";

fn account(name: &str) -> String {
    name.to_string()
}

fn setup() -> (Env, String, Campaign) {
    let env = Env::default();
    let admin = account(ADMIN);
    let mut campaign = Campaign::new();
    campaign.initialize(&admin).unwrap();
    (env, admin, campaign)
}

/// Empty proof and a dummy leaf, for campaigns without an allowlist.
fn no_proof_args() -> ([u8; 32], Vec<[u8; 32]>) {
    ([0u8; 32], Vec::new())
}

fn sha256(env: &Env, data: &[u8]) -> [u8; 32] {
    env.crypto().sha256(&Bytes::from_slice(env, data)).to_array()
}

/// A two-leaf Merkle tree: the root, the proof of `leaf_a` and that of `leaf_b`.
fn build_two_leaf_tree(env: &Env, leaf_a: [u8; 32], leaf_b: [u8; 32]) -> ([u8; 32], Vec<[u8; 32]>, Vec<[u8; 32]>) {
    let (left, right) = if leaf_a <= leaf_b { (leaf_a, leaf_b) } else { (leaf_b, leaf_a) };
    let mut combined = [0u8; 64];
    combined[..32].copy_from_slice(&left);
    combined[32..].copy_from_slice(&right);
    let root = sha256(env, &combined);
    (root, vec![leaf_b], vec![leaf_a])
}

fn register(env: &Env, c: &mut Campaign, who: &String, now: u64, leaf: &[u8; 32], proof: &Vec<[u8; 32]>) -> Result<bool, CampaignError> {
    let mut events = Vec::new();
    c.register(env, who, now, leaf, proof, &mut events)
}

fn set_window(c: &mut Campaign, caller: &String, nonce: u64, start: u64, end: u64) -> Result<(), CampaignError> {
    let mut events = Vec::new();
    c.set_window(caller, nonce, start, end, &mut events)
}

fn set_active(c: &mut Campaign, caller: &String, nonce: u64, active: bool) -> Result<(), CampaignError> {
    let mut events = Vec::new();
    c.set_active(caller, nonce, active, &mut events)
}

#[test]
fn test_initialize_and_active() {
    let (_env, _admin, campaign) = setup();
    assert!(campaign.is_active());
}

#[test]
fn test_register_participant() {
    let (env, _admin, mut campaign) = setup();
    let participant = account("GPARTICIPANT");
    let (leaf, proof) = no_proof_args();
    let registered = register(&env, &mut campaign, &participant, 0, &leaf, &proof).unwrap();
    assert!(registered);
    assert!(campaign.is_participant(&participant));
}

#[test]
fn test_time_window_validation() {
    let (env, admin, mut campaign) = setup();
    let participant = account("GPARTICIPANT");
    set_window(&mut campaign, &admin, 0, 100, 200).unwrap();
    let (leaf, proof) = no_proof_args();

    assert_eq!(register(&env, &mut campaign, &participant, 50, &leaf, &proof), Err(CampaignError::OutsideTimeWindow));
    assert!(!campaign.is_participant(&participant));
    assert_eq!(campaign.get_participant_count(), 0);

    assert!(register(&env, &mut campaign, &participant, 150, &leaf, &proof).unwrap());
    assert_eq!(campaign.get_participant_count(), 1);

    let p2 = account("GP2");
    assert_eq!(register(&env, &mut campaign, &p2, 250, &leaf, &proof), Err(CampaignError::OutsideTimeWindow));
    assert!(!campaign.is_participant(&p2));
    assert_eq!(campaign.get_participant_count(), 1);
}

#[test]
fn test_register_participant_twice_returns_false() {
    let (env, _admin, mut campaign) = setup();
    let participant = account("GPARTICIPANT");
    let (leaf, proof) = no_proof_args();
    assert!(register(&env, &mut campaign, &participant, 0, &leaf, &proof).unwrap());
    assert!(!register(&env, &mut campaign, &participant, 0, &leaf, &proof).unwrap());
}

#[test]
fn test_set_active_only_by_admin() {
    let (_env, admin, mut campaign) = setup();
    let other = account("GOTHER");
    assert!(campaign.is_active());
    assert_eq!(set_active(&mut campaign, &other, 0, false), Err(CampaignError::Unauthorized));
    assert!(campaign.is_active());
    assert_eq!(campaign.admin_nonce(), 0);
    set_active(&mut campaign, &admin, 0, false).unwrap();
    assert!(!campaign.is_active());
}

#[test]
fn test_register_when_inactive() {
    let (env, admin, mut campaign) = setup();
    let participant = account("GPARTICIPANT");
    set_active(&mut campaign, &admin, 0, false).unwrap();
    let (leaf, proof) = no_proof_args();
    assert_eq!(register(&env, &mut campaign, &participant, 0, &leaf, &proof), Err(CampaignError::CampaignInactive));
    assert!(!campaign.is_participant(&participant));
    assert_eq!(campaign.get_participant_count(), 0);

    set_active(&mut campaign, &admin, 1, true).unwrap();
    assert!(register(&env, &mut campaign, &participant, 0, &leaf, &proof).unwrap());
    assert!(campaign.is_participant(&participant));
    assert_eq!(campaign.get_participant_count(), 1);
}

#[test]
fn test_is_participant_for_unknown_address() {
    let (env, _admin, mut campaign) = setup();
    let unknown_a = account("GUNKNOWNA");
    let unknown_b = account("GUNKNOWNB");
    assert!(!campaign.is_participant(&unknown_a));
    assert!(!campaign.is_participant(&unknown_b));

    let registered = account("GREGISTERED");
    let (leaf, proof) = no_proof_args();
    assert!(register(&env, &mut campaign, &registered, 0, &leaf, &proof).unwrap());
    assert!(campaign.is_participant(&registered));
    assert!(!campaign.is_participant(&unknown_a));
    assert!(!campaign.is_participant(&unknown_b));
}

#[test]
fn test_capacity_reached() {
    let (env, admin, mut campaign) = setup();
    let mut events = Vec::new();
    campaign.set_max_cap(&admin, 0, 1, &mut events).unwrap();
    let p1 = account("GP1");
    let p2 = account("GP2");
    let (leaf, proof) = no_proof_args();
    assert!(register(&env, &mut campaign, &p1, 0, &leaf, &proof).unwrap());
    assert_eq!(register(&env, &mut campaign, &p2, 0, &leaf, &proof), Err(CampaignError::CapacityReached));
}

#[test]
fn test_merkle_root_not_set_by_default() {
    let (_env, _admin, campaign) = setup();
    assert!(campaign.get_merkle_root().is_none());
}

#[test]
fn test_set_merkle_root_only_by_admin() {
    let (_env, _admin, mut campaign) = setup();
    let other = account("GOTHER");
    let mut events = Vec::new();
    let result = campaign.set_merkle_root(&other, 0, [1u8; 32], &mut events);
    assert_eq!(result, Err(CampaignError::Unauthorized));
}

#[test]
fn test_register_with_valid_merkle_proof() {
    let (env, admin, mut campaign) = setup();
    let p1 = account("GP1");
    let p2 = account("GP2");
    let leaf1 = [0xAAu8; 32];
    let leaf2 = [0xBBu8; 32];
    let (root, proof1, proof2) = build_two_leaf_tree(&env, leaf1, leaf2);
    let mut events = Vec::new();
    campaign.set_merkle_root(&admin, 0, root, &mut events).unwrap();
    assert_eq!(campaign.get_merkle_root(), Some(root));

    assert!(register(&env, &mut campaign, &p1, 0, &leaf1, &proof1).unwrap());
    assert!(register(&env, &mut campaign, &p2, 0, &leaf2, &proof2).unwrap());
    assert!(campaign.is_participant(&p1));
    assert!(campaign.is_participant(&p2));
}

#[test]
fn test_register_rejected_with_invalid_proof() {
    let (env, admin, mut campaign) = setup();
    let p2 = account("GP2");
    let leaf1 = [0xAAu8; 32];
    let leaf2 = [0xBBu8; 32];
    let (root, _proof1, _proof2) = build_two_leaf_tree(&env, leaf1, leaf2);
    let mut events = Vec::new();
    campaign.set_merkle_root(&admin, 0, root, &mut events).unwrap();
    let bad_proof = vec![[0xFFu8; 32]];
    assert_eq!(register(&env, &mut campaign, &p2, 0, &leaf2, &bad_proof), Err(CampaignError::NotInAllowlist));
}

#[test]
fn test_register_rejected_with_leaf_not_in_tree() {
    let (env, admin, mut campaign) = setup();
    let p3 = account("GP3");
    let leaf1 = [0xAAu8; 32];
    let leaf2 = [0xBBu8; 32];
    let (root, _proof1, proof2) = build_two_leaf_tree(&env, leaf1, leaf2);
    let mut events = Vec::new();
    campaign.set_merkle_root(&admin, 0, root, &mut events).unwrap();
    let unknown_leaf = [0xCCu8; 32];
    assert_eq!(register(&env, &mut campaign, &p3, 0, &unknown_leaf, &proof2), Err(CampaignError::NotInAllowlist));
}

#[test]
fn test_register_rejected_with_empty_proof_when_root_set() {
    let (env, admin, mut campaign) = setup();
    let p1 = account("GP1");
    let leaf1 = [0xAAu8; 32];
    let leaf2 = [0xBBu8; 32];
    let (root, _proof1, _proof2) = build_two_leaf_tree(&env, leaf1, leaf2);
    let mut events = Vec::new();
    campaign.set_merkle_root(&admin, 0, root, &mut events).unwrap();
    assert_eq!(register(&env, &mut campaign, &p1, 0, &leaf1, &Vec::new()), Err(CampaignError::NotInAllowlist));
}

#[test]
fn test_open_registration_when_no_root() {
    let (env, _admin, mut campaign) = setup();
    let participant = account("GPARTICIPANT");
    let (leaf, proof) = no_proof_args();
    assert!(register(&env, &mut campaign, &participant, 0, &leaf, &proof).unwrap());
}

#[test]
fn test_schema_version_and_migrate_entrypoint() {
    let (_env, admin, campaign) = setup();
    let other = account("GOTHER");
    assert_eq!(campaign.schema_version(), 1);
    assert_eq!(campaign.migrate(&admin, 1), Ok(1));
    assert_eq!(campaign.schema_version(), 1);
    assert_eq!(campaign.migrate(&admin, 2), Err(CampaignError::UnsupportedMigration));
    assert_eq!(campaign.migrate(&other, 1), Err(CampaignError::Unauthorized));
}

#[test]
fn test_participant_count_increments_on_new_register_only() {
    let (env, _admin, mut campaign) = setup();
    let p1 = account("GP1");
    let (leaf, proof) = no_proof_args();
    assert_eq!(campaign.get_participant_count(), 0);
    assert!(register(&env, &mut campaign, &p1, 0, &leaf, &proof).unwrap());
    assert_eq!(campaign.get_participant_count(), 1);
    assert!(!register(&env, &mut campaign, &p1, 0, &leaf, &proof).unwrap());
    assert_eq!(campaign.get_participant_count(), 1);
}

#[test]
fn test_get_window_default_is_open() {
    let (_env, _admin, campaign) = setup();
    assert_eq!(campaign.get_window(), (0, u64::MAX));
    assert!(campaign.is_within_window(0));
}

#[test]
fn test_get_window_after_set() {
    let (_env, admin, mut campaign) = setup();
    set_window(&mut campaign, &admin, 0, 1_000, 2_000).unwrap();
    assert_eq!(campaign.get_window(), (1_000, 2_000));
}

#[test]
fn test_set_window_rejects_start_after_end() {
    let (_env, admin, mut campaign) = setup();
    let nonce_before = campaign.admin_nonce();
    assert_eq!(set_window(&mut campaign, &admin, nonce_before, 500, 100), Err(CampaignError::InvalidWindow));
    assert_eq!(campaign.get_window(), (0, u64::MAX));
    assert_eq!(campaign.admin_nonce(), nonce_before);

    set_window(&mut campaign, &admin, nonce_before, 100, 500).unwrap();
    assert_eq!(campaign.get_window(), (100, 500));
    assert_eq!(campaign.admin_nonce(), nonce_before + 1);
}

#[test]
fn test_set_window_allows_equal_start_and_end() {
    let (env, admin, mut campaign) = setup();
    let participant = account("GPARTICIPANT");
    set_window(&mut campaign, &admin, 0, 500, 500).unwrap();
    assert_eq!(campaign.get_window(), (500, 500));
    let (leaf, proof) = no_proof_args();
    assert!(campaign.is_within_window(500));
    assert!(register(&env, &mut campaign, &participant, 500, &leaf, &proof).unwrap());
}

#[test]
fn test_register_at_window_boundaries() {
    let (env, admin, mut campaign) = setup();
    set_window(&mut campaign, &admin, 0, 100, 200).unwrap();
    let (leaf, proof) = no_proof_args();

    let p_start = account("GPSTART");
    assert!(campaign.is_within_window(100));
    assert!(register(&env, &mut campaign, &p_start, 100, &leaf, &proof).unwrap());

    let p_end = account("GPEND");
    assert!(campaign.is_within_window(200));
    assert!(register(&env, &mut campaign, &p_end, 200, &leaf, &proof).unwrap());

    let p_after = account("GPAFTER");
    assert!(!campaign.is_within_window(201));
    assert_eq!(register(&env, &mut campaign, &p_after, 201, &leaf, &proof), Err(CampaignError::OutsideTimeWindow));
}

#[test]
fn test_set_window_emits_event() {
    let (_env, admin, mut campaign) = setup();
    let mut events = Vec::new();
    campaign.set_window(&admin, 0, 100, 200, &mut events).unwrap();
    assert_eq!(events, vec![CampaignEvent::WindowSet { start: 100, end: 200 }]);
}

#[test]
fn test_set_active_emits_event_and_is_idempotent() {
    let (_env, admin, mut campaign) = setup();
    let mut events = Vec::new();
    campaign.set_active(&admin, 0, false, &mut events).unwrap();
    assert_eq!(events, vec![CampaignEvent::ActiveSet { active: false }]);

    let mut events = Vec::new();
    campaign.set_active(&admin, 1, false, &mut events).unwrap();
    assert_eq!(events, vec![CampaignEvent::ActiveSet { active: false }]);
    assert!(!campaign.is_active());
}

#[test]
fn test_register_unauthorized_other_address_does_not_persist() {
    let (env, _admin, mut campaign) = setup();
    let participant = account("GPARTICIPANT");
    let (leaf, proof) = no_proof_args();
    assert!(register(&env, &mut campaign, &participant, 0, &leaf, &proof).unwrap());
    let bystander = account("GBYSTANDER");
    assert!(!campaign.is_participant(&bystander));
    assert_eq!(campaign.get_participant_count(), 1);
}

#[test]
fn test_admin_nonce_replay_protection() {
    let (_env, admin, mut campaign) = setup();
    assert_eq!(campaign.admin_nonce(), 0);
    set_active(&mut campaign, &admin, 0, false).unwrap();
    assert_eq!(campaign.admin_nonce(), 1);
    assert_eq!(set_active(&mut campaign, &admin, 0, true), Err(CampaignError::InvalidAdminNonce));
    set_active(&mut campaign, &admin, 1, true).unwrap();
    assert_eq!(campaign.admin_nonce(), 2);
}
