use std::collections::HashMap;

use tournament_contract::{
    Contract, ContractMetadata, TournamentContract, TournamentContractMetadata, TournamentError,
};

fn s(x: &str) -> String {
    x.to_string()
}

fn prizes(pairs: &[(u8, u8)]) -> HashMap<u8, u8> {
    pairs.iter().cloned().collect()
}

fn winners(pairs: &[(u8, &str)]) -> HashMap<u8, String> {
    pairs.iter().map(|(k, v)| (*k, v.to_string())).collect()
}

fn contract_with_t1(capacity: u8, price: u128, table: &[(u8, u8)]) -> Contract {
    let mut c = Contract::new_default_meta(s("owner"));
    let r = c.create(s("owner"), s("t1"), s("Cup"), None, capacity, price, s("org"), prizes(table));
    assert_eq!(r, Ok(()));
    c
}

#[test]
fn end_to_end_two_players() {
    let mut c = contract_with_t1(2, 100, &[(1, 60), (2, 40)]);
    assert_eq!(c.participate_tournament(s("t1"), s("alice"), 100), Ok(Some(0)));
    assert_eq!(c.participate_tournament(s("t1"), s("bob"), 100), Ok(Some(0)));
    let view = c.display_tournament(s("t1")).unwrap();
    assert_eq!(view.prize_fond, 200);
    assert!(view.active);
    assert_eq!(c.display_freeplaces_in_tournament(s("t1")), Some(0));

    let reward = c
        .reward_prizes(s("t1"), s("org"), winners(&[(1, "alice"), (2, "bob")]))
        .unwrap()
        .unwrap();
    assert_eq!(reward.rewarded_amount, 200);
    assert_eq!(reward.payouts.len(), 2);
    assert_eq!(reward.payouts[0].place, 1);
    assert_eq!(reward.payouts[0].account_id, "alice");
    assert_eq!(reward.payouts[0].amount, 120);
    assert_eq!(reward.payouts[1].place, 2);
    assert_eq!(reward.payouts[1].account_id, "bob");
    assert_eq!(reward.payouts[1].amount, 80);

    let view = c.display_tournament(s("t1")).unwrap();
    assert_eq!(view.prize_fond, 0);
    assert!(!view.active);

    let again = c.reward_prizes(s("t1"), s("org"), winners(&[(1, "alice"), (2, "bob")]));
    assert_eq!(again.err(), Some(TournamentError::Inactive));
}

#[test]
fn create_with_zero_price_fails() {
    let mut c = Contract::new_default_meta(s("owner"));
    let r = c.create(s("owner"), s("t1"), s("Cup"), None, 4, 0, s("org"), prizes(&[(1, 100)]));
    assert_eq!(r, Err(TournamentError::ZeroEntryPrice));
    assert!(c.display_tournament(s("t1")).is_none());
}

#[test]
fn create_with_positive_price_succeeds() {
    let mut c = Contract::new_default_meta(s("owner"));
    let r = c.create(s("owner"), s("t1"), s("Cup"), Some(s("cup.png")), 4, 1, s("org"), prizes(&[]));
    assert_eq!(r, Ok(()));
    let view = c.display_tournament(s("t1")).unwrap();
    assert_eq!(view.tournament_id, "t1");
    assert_eq!(view.owner_id, "org");
    assert_eq!(view.metadata.name, "Cup");
    assert_eq!(view.metadata.icon, Some(s("cup.png")));
    assert_eq!(view.metadata.players_number, 4);
    assert_eq!(view.metadata.in_price, 1);
    assert_eq!(view.prize_fond, 0);
    assert!(view.active);
    assert_eq!(c.display_freeplaces_in_tournament(s("t1")), Some(4));
}

#[test]
fn create_with_duplicate_id_fails_and_keeps_record() {
    let mut c = contract_with_t1(3, 100, &[(1, 50), (2, 30), (3, 20)]);
    let r = c.create(s("owner"), s("t1"), s("Other"), None, 9, 7, s("someone"), prizes(&[(1, 1)]));
    assert_eq!(r, Err(TournamentError::AlreadyExists));
    let view = c.display_tournament(s("t1")).unwrap();
    assert_eq!(view.metadata.name, "Cup");
    assert_eq!(view.metadata.players_number, 3);
    assert_eq!(view.metadata.in_price, 100);
    assert_eq!(view.owner_id, "org");
    assert_eq!(view.first_place_prize, Some(50));
}

#[test]
fn create_by_non_owner_fails() {
    let mut c = Contract::new_default_meta(s("owner"));
    let r = c.tournament_create(s("mallory"), s("t1"), s("Cup"), None, 2, 10, s("org"), prizes(&[]));
    assert_eq!(r, Err(TournamentError::NotOwner));
    assert!(c.display_tournament(s("t1")).is_none());
}

#[test]
fn entering_full_tournament_fails() {
    let mut c = contract_with_t1(1, 100, &[(1, 100)]);
    assert_eq!(c.participate_tournament(s("t1"), s("alice"), 100), Ok(Some(0)));
    assert_eq!(c.participate_tournament(s("t1"), s("bob"), 100), Err(TournamentError::Full));
    assert_eq!(c.display_tournament(s("t1")).unwrap().prize_fond, 100);
}

#[test]
fn entering_with_small_deposit_fails() {
    let mut c = contract_with_t1(2, 100, &[(1, 100)]);
    assert_eq!(
        c.participate_tournament(s("t1"), s("alice"), 99),
        Err(TournamentError::DepositTooSmall)
    );
    assert_eq!(c.display_freeplaces_in_tournament(s("t1")), Some(2));
}

#[test]
fn entering_twice_fails() {
    let mut c = contract_with_t1(3, 100, &[(1, 100)]);
    assert_eq!(c.participate_tournament(s("t1"), s("alice"), 100), Ok(Some(0)));
    assert_eq!(
        c.participate_tournament(s("t1"), s("alice"), 100),
        Err(TournamentError::AlreadyEntered)
    );
    assert_eq!(c.display_tournament(s("t1")).unwrap().prize_fond, 100);
    assert_eq!(c.display_freeplaces_in_tournament(s("t1")), Some(2));
}

#[test]
fn entering_closed_tournament_fails() {
    let mut c = contract_with_t1(3, 100, &[(1, 100)]);
    assert_eq!(c.participate_tournament(s("t1"), s("alice"), 100), Ok(Some(0)));
    assert!(c.reward_prizes(s("t1"), s("org"), winners(&[(1, "alice")])).is_ok());
    assert_eq!(
        c.participate_tournament(s("t1"), s("bob"), 100),
        Err(TournamentError::Inactive)
    );
}

#[test]
fn entering_unknown_tournament_is_ignored() {
    let mut c = contract_with_t1(3, 100, &[(1, 100)]);
    assert_eq!(c.participate_tournament(s("nope"), s("alice"), 100), Ok(None));
    assert_eq!(c.display_freeplaces_in_tournament(s("t1")), Some(3));
}

#[test]
fn refund_of_excess_deposit() {
    let mut c = contract_with_t1(3, 100, &[(1, 100)]);
    assert_eq!(c.participate_tournament(s("t1"), s("alice"), 250), Ok(Some(150)));
    assert_eq!(c.participate_tournament(s("t1"), s("bob"), 101), Ok(Some(0)));
    assert_eq!(c.participate_tournament(s("t1"), s("carol"), 102), Ok(Some(2)));
    assert_eq!(c.display_tournament(s("t1")).unwrap().prize_fond, 300);
}

#[test]
fn pool_is_entries_times_price() {
    let mut c = contract_with_t1(10, 37, &[(1, 100)]);
    let names = ["a", "b", "c", "d", "e", "f", "g"];
    for (n, name) in names.iter().enumerate() {
        assert_eq!(c.participate_tournament(s("t1"), s(name), 40), Ok(Some(3)));
        let pool = c.display_tournament(s("t1")).unwrap().prize_fond;
        assert_eq!(pool, (n as u128 + 1) * 37);
    }
    assert_eq!(c.display_freeplaces_in_tournament(s("t1")), Some(3));
}

#[test]
fn pool_overflow_is_rejected() {
    let mut c = contract_with_t1(3, u128::MAX, &[(1, 100)]);
    assert_eq!(c.participate_tournament(s("t1"), s("alice"), u128::MAX), Ok(Some(0)));
    assert_eq!(
        c.participate_tournament(s("t1"), s("bob"), u128::MAX),
        Err(TournamentError::BalanceOverflow)
    );
    assert_eq!(c.display_freeplaces_in_tournament(s("t1")), Some(2));
}

#[test]
fn reward_by_non_owner_fails() {
    let mut c = contract_with_t1(2, 100, &[(1, 100)]);
    assert_eq!(c.participate_tournament(s("t1"), s("alice"), 100), Ok(Some(0)));
    let r = c.reward_prizes(s("t1"), s("owner"), winners(&[(1, "alice")]));
    assert_eq!(r.err(), Some(TournamentError::NotOwner));
    let view = c.display_tournament(s("t1")).unwrap();
    assert!(view.active);
    assert_eq!(view.prize_fond, 100);
}

#[test]
fn reward_by_non_owner_fails_after_close() {
    let mut c = contract_with_t1(2, 100, &[(1, 100)]);
    assert!(c.reward_prizes(s("t1"), s("org"), winners(&[])).is_ok());
    let r = c.reward_prizes(s("t1"), s("alice"), winners(&[]));
    assert_eq!(r.err(), Some(TournamentError::NotOwner));
}

#[test]
fn reward_unknown_tournament_is_ignored() {
    let mut c = contract_with_t1(2, 100, &[(1, 100)]);
    let r = c.reward_prizes(s("nope"), s("org"), winners(&[(1, "alice")]));
    assert!(matches!(r, Ok(None)));
}

#[test]
fn reward_for_unconfigured_place_fails() {
    let mut c = contract_with_t1(2, 100, &[(1, 100)]);
    assert_eq!(c.participate_tournament(s("t1"), s("alice"), 100), Ok(Some(0)));
    let r = c.reward_prizes(s("t1"), s("org"), winners(&[(1, "alice"), (4, "bob")]));
    assert_eq!(r.err(), Some(TournamentError::UnknownPlace));
    let view = c.display_tournament(s("t1")).unwrap();
    assert!(view.active);
    assert_eq!(view.prize_fond, 100);
}

#[test]
fn reward_above_pool_fails() {
    let mut c = contract_with_t1(2, 100, &[(1, 60), (2, 60)]);
    assert_eq!(c.participate_tournament(s("t1"), s("alice"), 100), Ok(Some(0)));
    assert_eq!(c.participate_tournament(s("t1"), s("bob"), 100), Ok(Some(0)));
    let r = c.reward_prizes(s("t1"), s("org"), winners(&[(1, "alice"), (2, "bob")]));
    assert_eq!(r.err(), Some(TournamentError::PayoutExceedsBalance));
    let view = c.display_tournament(s("t1")).unwrap();
    assert!(view.active);
    assert_eq!(view.prize_fond, 200);
}

#[test]
fn reward_with_overflowing_share_fails() {
    let mut c = contract_with_t1(2, u128::MAX / 2, &[(1, 100)]);
    assert_eq!(c.participate_tournament(s("t1"), s("alice"), u128::MAX / 2), Ok(Some(0)));
    let r = c.reward_prizes(s("t1"), s("org"), winners(&[(1, "alice")]));
    assert_eq!(r.err(), Some(TournamentError::PayoutOverflow));
    assert!(c.display_tournament(s("t1")).unwrap().active);
}

#[test]
fn partial_payout_leaves_rest_in_pool() {
    let mut c = contract_with_t1(3, 100, &[(1, 50), (2, 30), (3, 20)]);
    for name in ["a", "b", "c"] {
        assert_eq!(c.participate_tournament(s("t1"), s(name), 100), Ok(Some(0)));
    }
    let reward = c.reward_prizes(s("t1"), s("org"), winners(&[(2, "b")])).unwrap().unwrap();
    assert_eq!(reward.rewarded_amount, 90);
    assert_eq!(reward.payouts.len(), 1);
    assert_eq!(reward.payouts[0].account_id, "b");
    let view = c.display_tournament(s("t1")).unwrap();
    assert_eq!(view.prize_fond, 210);
    assert!(!view.active);
}

#[test]
fn display_unknown_is_none() {
    let c = contract_with_t1(2, 100, &[(1, 100)]);
    assert!(c.display_tournament(s("t2")).is_none());
    assert_eq!(c.display_freeplaces_in_tournament(s("t2")), None);
}

#[test]
fn display_shows_configured_places_only() {
    let c = contract_with_t1(2, 100, &[(1, 70), (3, 30)]);
    let view = c.display_tournament(s("t1")).unwrap();
    assert_eq!(view.first_place_prize, Some(70));
    assert_eq!(view.second_place_prize, None);
    assert_eq!(view.third_place_prize, Some(30));
}

#[test]
fn listing_pages_in_creation_order() {
    let mut c = Contract::new_default_meta(s("owner"));
    for id in ["a", "b", "c", "d"] {
        let r = c.create(s("owner"), s(id), s(id), None, 2, 5, s("org"), prizes(&[]));
        assert_eq!(r, Ok(()));
    }
    let all = c.display_tournaments(None, None);
    let ids: Vec<String> = all.iter().map(|t| t.tournament_id.clone()).collect();
    assert_eq!(ids, vec![s("a"), s("b"), s("c"), s("d")]);
    let page = c.display_tournaments(Some(1), Some(2));
    let ids: Vec<String> = page.iter().map(|t| t.tournament_id.clone()).collect();
    assert_eq!(ids, vec![s("b"), s("c")]);
    assert_eq!(c.display_tournaments(Some(3), Some(10)).len(), 1);
    assert_eq!(c.display_tournaments(Some(4), None).len(), 0);
    assert_eq!(c.display_tournaments(Some(u128::MAX), Some(u64::MAX)).len(), 0);
    assert_eq!(c.display_tournaments(Some(0), Some(0)).len(), 0);
}

#[test]
fn listing_defaults_to_fifty() {
    let mut t = TournamentContract::new();
    for n in 0..60u32 {
        let r = t.tournament_create(format!("t{}", n), s("x"), None, 1, 1, s("org"), prizes(&[]));
        assert_eq!(r, Ok(()));
    }
    assert_eq!(t.display_tournaments(None, None).len(), 50);
    assert_eq!(t.display_tournaments(Some(55), None).len(), 5);
}

#[test]
fn contract_metadata_is_kept() {
    let c = Contract::new_default_meta(s("owner"));
    let m = c.contract_metadata();
    assert_eq!(m.name, "Tournament Test Contract");
    assert_eq!(m.icon, None);
    let c = Contract::new(
        s("owner"),
        TournamentContractMetadata { name: s("Mine"), icon: Some(s("i.svg")) },
    );
    let m = c.contract_metadata();
    assert_eq!(m.name, "Mine");
    assert_eq!(m.icon, Some(s("i.svg")));
}
