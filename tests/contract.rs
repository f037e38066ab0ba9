use fungifier::{
    Fungifier, FungifierError, Ledger, SaleOutcome, VoteChoice, Votes, MOTION_DEPOSIT,
    REGISTRATION_DEPOSIT,
};

fn s(x: &str) -> String {
    x.to_string()
}

fn contract_self() -> String {
    s("fungifier.near")
}

/// Total supply 1000, owners A (600) and B (400); acceptance threshold 500,
/// participation threshold 700.
fn two_owners() -> Fungifier {
    let mut f = Fungifier::init(s("deployer"), s("nft.near"), s("token-1"), 1000, 700, 500);
    f.register(&s("a"), REGISTRATION_DEPOSIT).unwrap();
    f.register(&s("b"), REGISTRATION_DEPOSIT).unwrap();
    f.allocate_shares(&s("deployer"), &s("a"), 600).unwrap();
    f.allocate_shares(&s("deployer"), &s("b"), 400).unwrap();
    f
}

/// Two owners, a sale motion "m" to buyer "r" at price 100.
fn with_motion() -> Fungifier {
    let mut f = two_owners();
    f.init_sell_motion(&s("r"), MOTION_DEPOSIT, 100, s("m")).unwrap();
    f
}

fn approved_and_pending() -> Fungifier {
    let mut f = with_motion();
    f.cast_vote(&s("a"), &s("m"), VoteChoice::Accept).unwrap();
    f.cast_vote(&s("b"), &s("m"), VoteChoice::Reject).unwrap();
    match f.finish_sale_motion(&s("r"), 101, s("m")) {
        Ok(SaleOutcome::HandOff(_)) => {},
        _ => panic!("sale should be approved"),
    }
    f
}

fn sold() -> Fungifier {
    let mut f = approved_and_pending();
    let st = f.resolve_sale(&contract_self(), &contract_self(), true).unwrap();
    assert!(st.sold);
    f
}

#[test]
fn approved_when_both_thresholds_met() {
    let mut f = with_motion();
    f.cast_vote(&s("a"), &s("m"), VoteChoice::Accept).unwrap();
    f.cast_vote(&s("b"), &s("m"), VoteChoice::Reject).unwrap();
    match f.finish_sale_motion(&s("r"), 101, s("m")) {
        Ok(SaleOutcome::HandOff(h)) => {
            assert_eq!(h.new_owner, s("r"));
            assert_eq!(h.nft_contract_id, s("nft.near"));
            assert_eq!(h.nft_token_id, s("token-1"));
        },
        _ => panic!("sale should be approved"),
    }
    assert_eq!(f.sale_in_progress_id(), Some(s("m")));
    assert_eq!(f.cashout_amount(), Some(101));
}

#[test]
fn rejected_below_participation_leaves_state() {
    let mut f = with_motion();
    f.cast_vote(&s("b"), &s("m"), VoteChoice::Reject).unwrap();
    let r = f.finish_sale_motion(&s("r"), 101, s("m"));
    assert!(matches!(r, Ok(SaleOutcome::ParticipationNotMet)));
    assert_eq!(f.cashout_amount(), None);
    assert_eq!(f.sale_in_progress_id(), None);
    assert_eq!(f.ft_balance_of(&s("a")), Ok(600));
    assert_eq!(f.ft_balance_of(&s("b")), Ok(400));
}

#[test]
fn rejected_below_acceptance() {
    let mut f = with_motion();
    f.cast_vote(&s("a"), &s("m"), VoteChoice::Reject).unwrap();
    f.cast_vote(&s("b"), &s("m"), VoteChoice::Accept).unwrap();
    let r = f.finish_sale_motion(&s("r"), 101, s("m"));
    assert!(matches!(r, Ok(SaleOutcome::AcceptanceNotMet)));
    assert_eq!(f.cashout_amount(), None);
    assert_eq!(f.sale_in_progress_id(), None);
}

#[test]
fn indifferent_ballots_count_for_participation_only() {
    let mut f = with_motion();
    f.cast_vote(&s("a"), &s("m"), VoteChoice::Accept).unwrap();
    f.cast_vote(&s("b"), &s("m"), VoteChoice::Indifferent).unwrap();
    let r = f.finish_sale_motion(&s("r"), 101, s("m"));
    assert!(matches!(r, Ok(SaleOutcome::HandOff(_))));
}

#[test]
fn failed_hand_off_refunds_and_unlocks() {
    let mut f = approved_and_pending();
    let st = f.resolve_sale(&contract_self(), &contract_self(), false).unwrap();
    assert!(!st.sold);
    assert_eq!(st.refund.receiver_id, s("r"));
    assert_eq!(st.refund.amount, 101);
    assert_eq!(f.cashout_amount(), None);
    assert_eq!(f.sale_in_progress_id(), None);
    // The motion can be finalized again.
    let again = f.finish_sale_motion(&s("r"), 150, s("m"));
    assert!(matches!(again, Ok(SaleOutcome::HandOff(_))));
    assert_eq!(f.cashout_amount(), Some(150));
}

#[test]
fn successful_hand_off_refunds_motion_deposit() {
    let mut f = approved_and_pending();
    let st = f.resolve_sale(&contract_self(), &contract_self(), true).unwrap();
    assert!(st.sold);
    assert_eq!(st.refund.receiver_id, s("r"));
    assert_eq!(st.refund.amount, MOTION_DEPOSIT);
    assert_eq!(f.cashout_amount(), Some(101));
    assert_eq!(f.sale_in_progress_id(), None);
}

#[test]
fn finalize_after_sale_is_already_sold() {
    let mut f = sold();
    assert_eq!(f.finish_sale_motion(&s("r"), 101, s("m")).err(), Some(FungifierError::AlreadySold));
    f.init_sell_motion(&s("q"), MOTION_DEPOSIT, 5, s("n")).unwrap();
    assert_eq!(f.finish_sale_motion(&s("q"), 6, s("n")).err(), Some(FungifierError::AlreadySold));
    assert_eq!(f.cashout_amount(), Some(101));
}

#[test]
fn cashout_twice_pays_share_then_zero() {
    let mut f = sold();
    let first = f.cashout(&s("a"), 1).unwrap();
    assert_eq!(first.receiver_id, s("a"));
    assert_eq!(first.amount, 60);
    assert_eq!(f.ft_balance_of(&s("a")), Ok(0));
    let second = f.cashout(&s("a"), 1).unwrap();
    assert_eq!(second.amount, 0);
}

#[test]
fn cashout_share_is_fixed_point() {
    let mut f = Fungifier::init(s("d"), s("nft"), s("t"), 3, 0, 0);
    f.register(&s("a"), REGISTRATION_DEPOSIT).unwrap();
    f.allocate_shares(&s("d"), &s("a"), 1).unwrap();
    f.init_sell_motion(&s("r"), MOTION_DEPOSIT, 999, s("m")).unwrap();
    assert!(matches!(f.finish_sale_motion(&s("r"), 1000, s("m")), Ok(SaleOutcome::HandOff(_))));
    f.resolve_sale(&s("c"), &s("c"), true).unwrap();
    // share = 1 * 1_000_000 / 3 = 333_333; payout = 1000 * 333_333 / 1_000_000 = 333
    assert_eq!(f.cashout(&s("a"), 1).unwrap().amount, 333);
    // an unregistered caller is refused and stays unregistered
    assert_eq!(f.cashout(&s("z"), 1).err(), Some(FungifierError::NotRegistered));
    assert_eq!(f.ft_balance_of(&s("z")), Err(FungifierError::NotRegistered));
}

#[test]
fn cashout_refusals() {
    let mut f = with_motion();
    assert_eq!(f.cashout(&s("a"), 0).err(), Some(FungifierError::InvalidDeposit));
    assert_eq!(f.cashout(&s("a"), 1).err(), Some(FungifierError::NotSold));
    let mut p = approved_and_pending();
    assert_eq!(p.cashout(&s("a"), 1).err(), Some(FungifierError::SaleInProgress));
    let mut z = Fungifier::init(s("d"), s("nft"), s("t"), 0, 0, 0);
    z.init_sell_motion(&s("r"), MOTION_DEPOSIT, 1, s("m")).unwrap();
    assert!(matches!(z.finish_sale_motion(&s("r"), 2, s("m")), Ok(SaleOutcome::HandOff(_))));
    z.resolve_sale(&s("c"), &s("c"), true).unwrap();
    z.register(&s("a"), REGISTRATION_DEPOSIT).unwrap();
    assert_eq!(z.cashout(&s("a"), 1).err(), Some(FungifierError::PayoutOverflow));
}

#[test]
fn finalize_refusals() {
    let mut f = with_motion();
    assert_eq!(f.finish_sale_motion(&s("r"), 101, s("x")).err(), Some(FungifierError::MotionNotFound));
    assert_eq!(f.finish_sale_motion(&s("a"), 101, s("m")).err(), Some(FungifierError::NotAuthorized));
    assert_eq!(
        f.finish_sale_motion(&s("r"), 100, s("m")).err(),
        Some(FungifierError::InsufficientDeposit)
    );
    let mut p = approved_and_pending();
    assert_eq!(p.finish_sale_motion(&s("r"), 101, s("m")).err(), Some(FungifierError::SaleInProgress));
}

#[test]
fn motion_creation_refusals() {
    let mut f = two_owners();
    assert_eq!(
        f.init_sell_motion(&s("r"), MOTION_DEPOSIT - 1, 100, s("m")).err(),
        Some(FungifierError::InvalidDeposit)
    );
    f.init_sell_motion(&s("r"), MOTION_DEPOSIT, 100, s("m")).unwrap();
    assert_eq!(
        f.init_sell_motion(&s("q"), MOTION_DEPOSIT, 1, s("m")).err(),
        Some(FungifierError::DuplicateMotionId)
    );
    assert_eq!(f.cast_vote(&s("a"), &s("x"), VoteChoice::Accept).err(), Some(FungifierError::MotionNotFound));
}

#[test]
fn withdraw_refunds_deposit_and_removes_motion() {
    let mut f = with_motion();
    assert_eq!(f.withdraw_sale_motion(&s("a"), &s("m")).err(), Some(FungifierError::NotAuthorized));
    let p = f.withdraw_sale_motion(&s("r"), &s("m")).unwrap();
    assert_eq!(p.receiver_id, s("r"));
    assert_eq!(p.amount, MOTION_DEPOSIT);
    assert_eq!(f.withdraw_sale_motion(&s("r"), &s("m")).err(), Some(FungifierError::MotionNotFound));
    assert_eq!(f.finish_sale_motion(&s("r"), 101, s("m")).err(), Some(FungifierError::MotionNotFound));
}

#[test]
fn withdraw_refused_while_pending() {
    let mut f = approved_and_pending();
    assert_eq!(f.withdraw_sale_motion(&s("r"), &s("m")).err(), Some(FungifierError::SaleInProgress));
}

#[test]
fn resolve_sale_refusals() {
    let mut f = with_motion();
    assert_eq!(
        f.resolve_sale(&contract_self(), &contract_self(), true).err(),
        Some(FungifierError::NoSaleInProgress)
    );
    let mut p = approved_and_pending();
    assert_eq!(
        p.resolve_sale(&s("r"), &contract_self(), false).err(),
        Some(FungifierError::NotAuthorized)
    );
    assert_eq!(p.sale_in_progress_id(), Some(s("m")));
}

#[test]
fn registration_needs_exact_deposit() {
    let mut f = Fungifier::init(s("d"), s("nft"), s("t"), 10, 0, 0);
    assert_eq!(f.register(&s("a"), 1).err(), Some(FungifierError::InvalidDeposit));
    assert_eq!(f.ft_balance_of(&s("a")), Err(FungifierError::NotRegistered));
    f.register(&s("a"), REGISTRATION_DEPOSIT).unwrap();
    assert_eq!(f.ft_balance_of(&s("a")), Ok(0));
}

#[test]
fn allocation_refusals() {
    let mut f = two_owners();
    assert_eq!(f.allocate_shares(&s("a"), &s("a"), 1).err(), Some(FungifierError::NotAuthorized));
    assert_eq!(f.allocate_shares(&s("deployer"), &s("z"), 1).err(), Some(FungifierError::NotRegistered));
    assert_eq!(f.allocate_shares(&s("deployer"), &s("a"), 1).err(), Some(FungifierError::ExceedsSupply));
}

#[test]
fn transfer_moves_shares_and_keeps_total() {
    let mut f = two_owners();
    f.ft_transfer(&s("a"), 1, &s("b"), 100).unwrap();
    assert_eq!(f.ft_balance_of(&s("a")), Ok(500));
    assert_eq!(f.ft_balance_of(&s("b")), Ok(500));
    assert_eq!(f.ft_total_supply(), 1000);
}

#[test]
fn transfer_needs_strictly_greater_balance() {
    let mut f = two_owners();
    assert_eq!(f.ft_transfer(&s("b"), 1, &s("a"), 400).err(), Some(FungifierError::InsufficientShares));
    assert_eq!(f.ft_transfer(&s("b"), 0, &s("a"), 1).err(), Some(FungifierError::InvalidDeposit));
    assert_eq!(f.ft_transfer(&s("b"), 1, &s("z"), 1).err(), Some(FungifierError::NotRegistered));
    assert_eq!(f.ft_transfer(&s("z"), 1, &s("a"), 1).err(), Some(FungifierError::NotRegistered));
    f.ft_transfer(&s("b"), 1, &s("a"), 399).unwrap();
    assert_eq!(f.ft_balance_of(&s("b")), Ok(1));
    assert_eq!(f.ft_balance_of(&s("a")), Ok(999));
}

#[test]
fn transfer_to_oneself_changes_nothing() {
    let mut f = two_owners();
    f.ft_transfer(&s("a"), 1, &s("a"), 100).unwrap();
    assert_eq!(f.ft_balance_of(&s("a")), Ok(600));
}

#[test]
fn tally_counts_each_ballot_and_unregistered_as_zero() {
    let mut l = Ledger::new(1000);
    l.register(&s("a"));
    l.register(&s("b"));
    l.allocate(&s("a"), 600).unwrap();
    l.allocate(&s("b"), 400).unwrap();
    let mut v = Votes::new();
    assert_eq!(v.total_votes(&l), 0);
    v.cast(&s("a"), VoteChoice::Accept);
    v.cast(&s("b"), VoteChoice::Reject);
    v.cast(&s("ghost"), VoteChoice::Indifferent);
    assert_eq!(v.total_votes(&l), 1000);
    assert_eq!(v.favorable_votes(&l), 600);
    // ballots are not deduplicated
    v.cast(&s("a"), VoteChoice::Accept);
    assert_eq!(v.favorable_votes(&l), 1200);
}

#[test]
fn tally_holds_at_largest_amount() {
    let mut l = Ledger::new(u128::MAX);
    l.register(&s("a"));
    l.allocate(&s("a"), u128::MAX).unwrap();
    let mut v = Votes::new();
    v.cast(&s("a"), VoteChoice::Accept);
    v.cast(&s("a"), VoteChoice::Accept);
    assert_eq!(v.favorable_votes(&l), u128::MAX);
}

#[test]
fn registering_again_keeps_balance() {
    let mut f = two_owners();
    assert_eq!(f.register(&s("a"), REGISTRATION_DEPOSIT).err(), Some(FungifierError::AlreadyRegistered));
    assert_eq!(f.ft_balance_of(&s("a")), Ok(600));
    let mut l = Ledger::new(10);
    l.register(&s("a"));
    l.allocate(&s("a"), 7).unwrap();
    l.register(&s("a"));
    assert_eq!(l.balance_of(&s("a")), Ok(7));
    assert_eq!(l.transfer(&s("a"), &s("a"), 3), Ok(()));
    assert_eq!(l.total_supply(), 10);
}

#[test]
fn sold_motion_cannot_be_withdrawn() {
    let mut f = sold();
    assert_eq!(f.withdraw_sale_motion(&s("r"), &s("m")).err(), Some(FungifierError::AlreadySold));
    // another motion still returns its own deposit
    f.init_sell_motion(&s("q"), MOTION_DEPOSIT, 5, s("n")).unwrap();
    assert_eq!(f.withdraw_sale_motion(&s("q"), &s("n")).unwrap().amount, MOTION_DEPOSIT);
}

#[test]
fn state_survives_parts_round_trip() {
    let f = approved_and_pending();
    let parts = f.into_parts();
    assert_eq!(parts.total_supply, 1000);
    assert_eq!(parts.sale_in_progress_id, Some(s("m")));
    let mut g = Fungifier::from_parts(parts).unwrap();
    assert_eq!(g.ft_balance_of(&s("a")), Ok(600));
    assert_eq!(g.cashout_amount(), Some(101));
    let st = g.resolve_sale(&contract_self(), &contract_self(), false).unwrap();
    assert_eq!(st.refund.amount, 101);
}

#[test]
fn inconsistent_parts_are_refused() {
    let dup = two_owners().into_parts();
    let mut owners = dup.owners.clone();
    owners.push((s("a"), 0));
    let p = fungifier::FungifierParts { owners, ..dup };
    assert!(Fungifier::from_parts(p).is_none());

    let over = two_owners().into_parts();
    let p = fungifier::FungifierParts { total_supply: 999, ..over };
    assert!(Fungifier::from_parts(p).is_none());

    let lone = two_owners().into_parts();
    let p = fungifier::FungifierParts {
        cashout_amount: Some(5),
        sale_in_progress_id: Some(s("m")),
        ..lone
    };
    assert!(Fungifier::from_parts(p).is_none());
}
