use token_launch::errors::LaunchError;
use token_launch::launch::TokenLaunch;
use token_launch::storage::Participation;

const ADMIN: u64 = 1;
const STAR: u64 = 2;
const CREATOR: u64 = 7;
const TOKEN: u64 = 9;
const ALICE: u64 = 42;
const BOB: u64 = 43;

fn ledger() -> TokenLaunch {
    let mut tl = TokenLaunch::new();
    tl.initialize(ADMIN, STAR).unwrap();
    tl
}

/// One project: window [100, 200], price one token per unit, per-call
/// bounds [10, 1000], vesting over 1000 with a cliff of 100.
fn ledger_with_project() -> TokenLaunch {
    let mut tl = ledger();
    let id = tl
        .create_project(
            CREATOR,
            "Star Launch".to_string(),
            "SL".to_string(),
            TOKEN,
            1_000_000,
            100,
            100,
            100,
            10_000,
            10_000_000,
            10,
            1000,
            100,
            200,
            1000,
            100,
        )
        .unwrap();
    assert_eq!(id, 1);
    tl
}

#[test]
fn test_initialize() {
    let mut tl = TokenLaunch::new();
    tl.initialize(ADMIN, STAR).unwrap();

    assert_eq!(tl.get_admin().unwrap(), ADMIN);
    assert_eq!(tl.get_star_token().unwrap(), STAR);
}

#[test]
fn test_mint_star_points() {
    let mut tl = ledger();
    tl.mint_star_points(ADMIN, ALICE, 1000).unwrap();

    assert_eq!(tl.get_star_points(ALICE), 1000);
}

#[test]
fn initialize_twice_fails() {
    let mut tl = ledger();
    assert_eq!(tl.initialize(ADMIN, STAR), Err(LaunchError::AlreadyInitialized));
}

#[test]
fn uninitialized_ledger_refuses() {
    let mut tl = TokenLaunch::new();
    assert_eq!(tl.get_admin(), Err(LaunchError::NotInitialized));
    assert_eq!(tl.get_star_token(), Err(LaunchError::NotInitialized));
    assert_eq!(
        tl.mint_star_points(ADMIN, ALICE, 5),
        Err(LaunchError::NotInitialized)
    );
}

#[test]
fn mint_star_points_checks() {
    let mut tl = ledger();
    assert_eq!(
        tl.mint_star_points(ALICE, ALICE, 10),
        Err(LaunchError::Unauthorized)
    );
    assert_eq!(
        tl.mint_star_points(ADMIN, ALICE, 0),
        Err(LaunchError::InvalidAmount)
    );
    assert_eq!(
        tl.mint_star_points(ADMIN, ALICE, -3),
        Err(LaunchError::InvalidAmount)
    );
    assert_eq!(tl.get_star_points(ALICE), 0);
}

#[test]
fn create_project_record() {
    let tl = ledger_with_project();
    assert_eq!(tl.get_project_count(), 1);
    let p = tl.get_project(1).unwrap();
    assert_eq!(p.id, 1);
    assert_eq!(p.creator, CREATOR);
    assert_eq!(p.name, "Star Launch".to_string());
    assert_eq!(p.symbol, "SL".to_string());
    assert_eq!(p.token_address, TOKEN);
    assert_eq!(p.total_supply, 1_000_000);
    assert_eq!(p.total_raised, 0);
    assert_eq!(p.price_per_token, 10_000_000);
    assert_eq!(p.start_time, 100);
    assert_eq!(p.end_time, 200);
    assert_eq!(p.vesting_start, 200);
    assert_eq!(p.vesting_duration, 1000);
    assert_eq!(p.vesting_cliff, 100);
    assert!(p.is_active);
    assert!(!p.is_finalized);
}

#[test]
fn project_ids_increase() {
    let mut tl = ledger_with_project();
    let id2 = tl
        .create_project(
            CREATOR,
            "Second".to_string(),
            "S2".to_string(),
            TOKEN,
            500,
            0,
            0,
            0,
            100,
            10_000_000,
            1,
            100,
            10,
            20,
            50,
            5,
        )
        .unwrap();
    assert_eq!(id2, 2);
    assert_eq!(tl.get_project_count(), 2);
    assert_eq!(tl.get_project(1).unwrap().total_supply, 1_000_000);
    assert_eq!(tl.get_project(2).unwrap().total_supply, 500);
}

#[test]
fn allocations_may_exactly_exhaust_supply() {
    let mut tl = ledger();
    let r = tl.create_project(
        CREATOR,
        "Exact".to_string(),
        "EX".to_string(),
        TOKEN,
        300,
        100,
        100,
        100,
        100,
        10_000_000,
        1,
        100,
        10,
        20,
        50,
        5,
    );
    assert_eq!(r, Ok(1));
}

#[test]
fn allocations_over_supply_rejected() {
    let mut tl = ledger();
    let r = tl.create_project(
        CREATOR,
        "Over".to_string(),
        "OV".to_string(),
        TOKEN,
        300,
        100,
        100,
        101,
        100,
        10_000_000,
        1,
        100,
        10,
        20,
        50,
        5,
    );
    assert_eq!(r, Err(LaunchError::InvalidAllocation));
    assert_eq!(tl.get_project_count(), 0);
}

#[test]
fn create_project_other_checks() {
    let mut tl = ledger();
    let zero_supply = tl.create_project(
        CREATOR,
        "A".to_string(),
        "A".to_string(),
        TOKEN,
        0,
        0,
        0,
        0,
        100,
        10_000_000,
        1,
        100,
        10,
        20,
        50,
        5,
    );
    assert_eq!(zero_supply, Err(LaunchError::InvalidAmount));
    let bad_window = tl.create_project(
        CREATOR,
        "B".to_string(),
        "B".to_string(),
        TOKEN,
        100,
        0,
        0,
        0,
        100,
        10_000_000,
        1,
        100,
        20,
        20,
        50,
        5,
    );
    assert_eq!(bad_window, Err(LaunchError::InvalidTimeRange));
    let bad_price = tl.create_project(
        CREATOR,
        "C".to_string(),
        "C".to_string(),
        TOKEN,
        100,
        0,
        0,
        0,
        100,
        0,
        1,
        100,
        10,
        20,
        50,
        5,
    );
    assert_eq!(bad_price, Err(LaunchError::InvalidPrice));
    assert_eq!(tl.get_project_count(), 0);
}

#[test]
fn participation_accumulates() {
    let mut tl = ledger_with_project();
    tl.participate_in_project(150, 1, ALICE, 100, 0).unwrap();
    tl.participate_in_project(160, 1, ALICE, 25, 0).unwrap();
    tl.participate_in_project(170, 1, BOB, 40, 0).unwrap();

    let pa = tl.get_participation(1, ALICE);
    assert_eq!(pa.amount_contributed, 125);
    assert_eq!(pa.tokens_allocated, 125);
    assert_eq!(pa.tokens_claimed, 0);
    assert_eq!(pa.star_points_used, 0);

    let pb = tl.get_participation(1, BOB);
    assert_eq!(pb.amount_contributed, 40);
    assert_eq!(pb.tokens_allocated, 40);

    assert_eq!(tl.get_project(1).unwrap().total_raised, 165);
}

#[test]
fn allocation_uses_floor_division() {
    let mut tl = ledger();
    // Three units buy one token: 100 units yield floor(100e7 / 3e7) = 33.
    tl.create_project(
        CREATOR,
        "Thirds".to_string(),
        "TH".to_string(),
        TOKEN,
        1_000_000,
        0,
        0,
        0,
        10_000,
        30_000_000,
        1,
        1000,
        100,
        200,
        1000,
        0,
    )
    .unwrap();
    tl.participate_in_project(150, 1, ALICE, 100, 0).unwrap();
    assert_eq!(tl.get_participation(1, ALICE).tokens_allocated, 33);
    assert_eq!(tl.get_project(1).unwrap().total_raised, 100);
}

#[test]
fn participation_spends_points() {
    let mut tl = ledger_with_project();
    tl.mint_star_points(ADMIN, ALICE, 500).unwrap();
    tl.participate_in_project(150, 1, ALICE, 100, 30).unwrap();

    assert_eq!(tl.get_star_points(ALICE), 470);
    let p = tl.get_participation(1, ALICE);
    assert_eq!(p.amount_contributed, 100);
    assert_eq!(p.star_points_used, 30);
    // The effective amount (100 + 30) buys the tokens and is what counts
    // as raised.
    assert_eq!(p.tokens_allocated, 130);
    assert_eq!(tl.get_project(1).unwrap().total_raised, 130);
}

#[test]
fn participation_checks_in_order() {
    let mut tl = ledger_with_project();
    assert_eq!(
        tl.participate_in_project(150, 1, ALICE, 0, 0),
        Err(LaunchError::InvalidAmount)
    );
    assert_eq!(
        tl.participate_in_project(150, 1, ALICE, 100, -1),
        Err(LaunchError::InvalidAmount)
    );
    assert_eq!(
        tl.participate_in_project(150, 2, ALICE, 100, 0),
        Err(LaunchError::NotFound)
    );
    assert_eq!(
        tl.participate_in_project(99, 1, ALICE, 100, 0),
        Err(LaunchError::OutOfTimeWindow)
    );
    assert_eq!(
        tl.participate_in_project(201, 1, ALICE, 100, 0),
        Err(LaunchError::OutOfTimeWindow)
    );
    assert_eq!(
        tl.participate_in_project(150, 1, ALICE, 1001, 0),
        Err(LaunchError::AboveMaximum)
    );
    assert_eq!(
        tl.participate_in_project(150, 1, ALICE, 100, 1),
        Err(LaunchError::InsufficientPoints)
    );
}

#[test]
fn below_minimum_leaves_state_unchanged() {
    let mut tl = ledger_with_project();
    tl.participate_in_project(150, 1, ALICE, 100, 0).unwrap();
    let raised_before = tl.get_project(1).unwrap().total_raised;
    let record_before = tl.get_participation(1, ALICE);

    assert_eq!(
        tl.participate_in_project(160, 1, ALICE, 9, 0),
        Err(LaunchError::BelowMinimum)
    );

    assert_eq!(tl.get_project(1).unwrap().total_raised, raised_before);
    assert_eq!(tl.get_participation(1, ALICE), record_before);
}

#[test]
fn finalize_checks() {
    let mut tl = ledger_with_project();
    assert_eq!(tl.finalize_project(CREATOR, 250, 2), Err(LaunchError::NotFound));
    assert_eq!(
        tl.finalize_project(ALICE, 250, 1),
        Err(LaunchError::Unauthorized)
    );
    assert_eq!(
        tl.finalize_project(CREATOR, 199, 1),
        Err(LaunchError::ProjectNotEnded)
    );
    tl.finalize_project(CREATOR, 250, 1).unwrap();
    assert_eq!(
        tl.finalize_project(CREATOR, 260, 1),
        Err(LaunchError::AlreadyFinalized)
    );
}

#[test]
fn finalize_freezes_project_and_sets_vesting_start() {
    let mut tl = ledger_with_project();
    tl.finalize_project(CREATOR, 250, 1).unwrap();
    let p = tl.get_project(1).unwrap();
    assert!(p.is_finalized);
    assert!(!p.is_active);
    // Vesting starts at the actual finalize time, not at the campaign end.
    assert_eq!(p.vesting_start, 250);
    // A finalized project no longer accepts contributions.
    assert_eq!(
        tl.participate_in_project(150, 1, ALICE, 100, 0),
        Err(LaunchError::ProjectNotActive)
    );
}

#[test]
fn claim_before_finalize_always_fails() {
    let mut tl = ledger_with_project();
    tl.participate_in_project(150, 1, ALICE, 100, 0).unwrap();
    for now in [0u64, 200, 300, 1_200, 1_000_000] {
        assert_eq!(
            tl.claim_tokens(now, 1, ALICE),
            Err(LaunchError::NotFinalized)
        );
    }
    assert_eq!(tl.get_participation(1, ALICE).tokens_claimed, 0);
}

#[test]
fn claim_lifecycle() {
    let mut tl = ledger_with_project();
    tl.participate_in_project(150, 1, ALICE, 100, 0).unwrap();
    tl.finalize_project(CREATOR, 200, 1).unwrap();

    // Within the cliff nothing can be claimed.
    assert_eq!(tl.claim_tokens(250, 1, ALICE), Err(LaunchError::CliffNotEnded));
    // Halfway through the schedule, half the allocation is vested.
    assert_eq!(tl.claim_tokens(700, 1, ALICE), Ok(50));
    let p = tl.get_participation(1, ALICE);
    assert_eq!(p.tokens_claimed, 50);
    assert_eq!(p.last_claim_time, 700);
    // Claiming again at the same instant releases nothing.
    assert_eq!(tl.claim_tokens(700, 1, ALICE), Err(LaunchError::NothingToClaim));
    // At maturity the remainder comes out exactly.
    assert_eq!(tl.claim_tokens(1200, 1, ALICE), Ok(50));
    assert_eq!(tl.get_participation(1, ALICE).tokens_claimed, 100);
    // Nothing is ever released beyond the allocation.
    assert_eq!(tl.claim_tokens(2200, 1, ALICE), Err(LaunchError::NothingToClaim));
}

#[test]
fn claim_other_checks() {
    let mut tl = ledger_with_project();
    tl.participate_in_project(150, 1, ALICE, 100, 0).unwrap();
    tl.finalize_project(CREATOR, 200, 1).unwrap();
    assert_eq!(tl.claim_tokens(700, 2, ALICE), Err(LaunchError::NotFound));
    // A participant without a record has nothing to claim.
    assert_eq!(tl.claim_tokens(700, 1, BOB), Err(LaunchError::NotFound));
}

#[test]
fn airdrop_plans_positive_transfers_in_order() {
    let tl = ledger_with_project();
    let recipients = vec![ALICE, BOB, 44u64, 45u64];
    let amounts: Vec<i128> = vec![10, 0, 20, -5];
    let transfers = tl
        .distribute_airdrop(CREATOR, 1, &recipients, &amounts)
        .unwrap();
    assert_eq!(transfers, vec![(ALICE, 10i128), (44u64, 20i128)]);
}

#[test]
fn airdrop_checks() {
    let tl = ledger_with_project();
    let recipients = vec![ALICE];
    let amounts: Vec<i128> = vec![10, 20];
    assert_eq!(
        tl.distribute_airdrop(CREATOR, 2, &recipients, &amounts),
        Err(LaunchError::NotFound)
    );
    assert_eq!(
        tl.distribute_airdrop(ALICE, 1, &recipients, &amounts),
        Err(LaunchError::Unauthorized)
    );
    assert_eq!(
        tl.distribute_airdrop(CREATOR, 1, &recipients, &amounts),
        Err(LaunchError::MismatchedArrays)
    );
}

#[test]
fn unknown_participation_reads_as_empty() {
    let tl = ledger_with_project();
    let p = tl.get_participation(1, BOB);
    assert_eq!(
        p,
        Participation {
            participant: BOB,
            amount_contributed: 0,
            tokens_allocated: 0,
            tokens_claimed: 0,
            star_points_used: 0,
            last_claim_time: 0,
        }
    );
    assert!(tl.get_project(3).is_err());
}
