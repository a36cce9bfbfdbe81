use blrustix::bill::Bill;
use blrustix::bill::BillState;
use blrustix::bill::ExportableBillData;
use blrustix::build_persistent_backend;
use blrustix::build_transient_backend;
use blrustix::build_transient_backend_with;
use blrustix::catalog::matches_usergroup;
use blrustix::catalog::UserGroup;
use blrustix::config::StaticConfig;
use blrustix::datastore::DatastoreQueries;
use blrustix::datastore::FreebyAble;
use blrustix::datastore::Itemable;
use blrustix::datastore::PurchaseFunctions;
use blrustix::datastore::SuffixTreeRebuildable;
use blrustix::datastore::Purchaseable;
use blrustix::datastore::Userable;
use blrustix::errors::CustomRustixFrontendError;
use blrustix::keyed::NameKeyedMap;
use blrustix::keyed::TextSet;
use blrustix::left_threaded_avl_tree::AVLTree;
use blrustix::persistencer::id_to_key;
use blrustix::persistencer::key_to_id;
use blrustix::persistencer::transform_u32_to_array_of_u8;
use blrustix::persistencer::Persistencer;
use blrustix::purchase::find_purchase_indices;
use blrustix::purchase::Purchase;
use blrustix::rustix_backend::RustixBackend;
use blrustix::rustix_backend::WriteBackend;
use blrustix::rustix_event_shop::BLEvents;
use blrustix::rustix_event_shop::Event;
use std::collections::HashSet;

fn sorted(ids: &HashSet<u32>) -> Vec<u32> {
    let mut v: Vec<u32> = ids.iter().cloned().collect();
    v.sort();
    v
}

fn shop() -> RustixBackend {
    let mut b = build_transient_backend_with(20, 2);
    assert!(b.create_user("anna".to_string()));
    assert!(b.create_user("bert".to_string()));
    assert!(b.create_user("cleo".to_string()));
    assert!(b.create_item("mate".to_string(), 150, Some("soft".to_string())));
    assert!(b.create_item("beer".to_string(), 200, Some("hard".to_string())));
    b
}

#[test]
fn version_counts_accepted_events() {
    let mut b = build_transient_backend();
    assert_eq!(b.datastore.version, 0);
    assert!(b.create_user("anna".to_string()));
    assert_eq!(b.datastore.version, 1);
    assert!(!b.delete_user(7));
    assert_eq!(b.datastore.version, 1);
    assert!(b.create_item("mate".to_string(), 150, None));
    assert_eq!(b.datastore.version, 2);
    assert!(!b.purchase(0, 9, 5));
    assert_eq!(b.datastore.version, 2);
    assert!(b.purchase(0, 0, 5));
    assert_eq!(b.datastore.version, 3);
}

#[test]
fn create_and_find_user() {
    let mut b = build_transient_backend();
    assert!(b.create_user("klaus".to_string()));
    assert_eq!(b.datastore.users.get(&0).unwrap().username, "klaus".to_string());
    assert_eq!(b.datastore.users.get(&0).unwrap().is_billed, true);
    assert_eq!(b.datastore.users.get(&0).unwrap().highlight_in_ui, false);
    assert_eq!(b.datastore.users_searchhit_ids(""), vec![0]);
    assert_eq!(b.datastore.users_searchhit_ids("klau"), vec![0]);
    assert_eq!(b.datastore.users_searchhit_ids("lisa"), Vec::<u32>::new());
}

#[test]
fn search_ignores_case_and_deleted_and_follows_renaming() {
    let mut b = shop();
    assert_eq!(b.datastore.users_searchhit_ids("AN"), vec![0]);
    assert_eq!(b.datastore.users_searchhit_ids("e"), vec![1, 2]);
    assert!(b.delete_user(1));
    assert_eq!(b.datastore.users_searchhit_ids("e"), vec![2]);
    assert!(b.update_user(2, "Cleopatra".to_string(), true, true, None));
    assert_eq!(b.datastore.users_searchhit_ids("PATRA"), vec![2]);
    assert_eq!(b.datastore.users_searchhit_ids("cleo"), vec![2]);
    assert_eq!(sorted(&b.datastore.highlighted_users), vec![2]);
    assert_eq!(b.datastore.items_searchhit_ids("ee"), vec![1]);
    assert!(b.update_item(1, "wine".to_string(), 300, Some("hard".to_string())));
    assert_eq!(b.datastore.items_searchhit_ids("ee"), Vec::<u32>::new());
    assert_eq!(b.datastore.items_searchhit_ids("win"), vec![1]);
    assert_eq!(b.datastore.items.get(&1).unwrap().cost_cents, 300);
}

#[test]
fn top_n_bookkeeping_with_one_top_user() {
    let mut b = build_transient_backend_with(20, 1);
    b.create_user("a".to_string());
    b.create_user("b".to_string());
    b.create_item("x".to_string(), 135, None);
    b.purchase(0, 0, 12345678);
    b.purchase(1, 0, 12345888);
    b.purchase(1, 0, 12347878);
    assert_eq!(sorted(&b.datastore.top_users), vec![1]);
    assert_eq!(sorted(b.datastore.top_drinks_per_user.get(&0).unwrap()), vec![0]);
    assert_eq!(sorted(b.datastore.top_drinks_per_user.get(&1).unwrap()), vec![0]);
    assert_eq!(b.datastore.top_user_ids(2), vec![1, 0]);
    assert_eq!(b.datastore.top_item_ids(1, 3), vec![0]);
    assert_eq!(b.datastore.top_item_ids(9, 3), Vec::<u32>::new());
}

#[test]
fn top_sets_are_what_the_rankings_give() {
    let mut b = shop();
    b.purchase(2, 1, 10);
    b.purchase(2, 1, 11);
    b.purchase(1, 0, 12);
    b.create_item("soda".to_string(), 100, None);
    b.delete_item(0);
    b.create_user("dora".to_string());
    b.delete_user(0);
    let n_users = b.persistencer.config.users_in_top_users;
    let n_items = b.persistencer.config.top_drinks_per_user;
    let best: HashSet<u32> = b.datastore.top_user_scores.extract_top(n_users).into_iter().collect();
    assert_eq!(b.datastore.top_users, best);
    assert_eq!(sorted(&b.datastore.top_users), vec![1, 2]);
    for (user, tree) in b.datastore.drink_scores_per_user.iter() {
        let best: HashSet<u32> = tree.extract_top(n_items).into_iter().collect();
        assert_eq!(b.datastore.top_drinks_per_user.get(user).unwrap(), &best);
    }
    assert_eq!(sorted(b.datastore.top_drinks_per_user.get(&3).unwrap()), vec![1, 2]);
    assert!(b.datastore.top_drinks_per_user.get(&0).is_none());
}

#[test]
fn purchases_stay_ordered_by_time() {
    let mut b = shop();
    assert!(b.purchase(0, 0, 100));
    assert!(b.purchase(1, 1, 100));
    assert!(!b.purchase(1, 1, 99));
    assert!(!b.special_purchase(1, "cake".to_string(), 50));
    assert!(b.special_purchase(1, "cake".to_string(), 120));
    assert!(!b.cart_purchase(0, vec![], vec![0], 119));
    assert!(b.cart_purchase(0, vec!["pie".to_string()], vec![0, 1, 0], 130));
    let times: Vec<i64> = b.datastore.purchases.iter().map(|p| *p.get_timestamp()).collect();
    assert_eq!(times, vec![100, 100, 120, 130, 130, 130, 130]);
    let ids: Vec<u64> = b.datastore.purchases.iter().map(|p| p.get_unique_id()).collect();
    assert_eq!(ids, vec![1, 2, 3, 4, 5, 6, 7]);
    assert_eq!(b.datastore.purchase_count, 7);
    for p in b.datastore.purchases.iter() {
        assert!(b.datastore.has_user(*p.get_user_id()));
        if p.has_item_id() {
            assert!(b.datastore.has_item(*p.get_item_id()));
        }
    }
    assert!(b.datastore.purchases[6].is_special());
    let key_a = (0u32, "anna".to_string());
    let mate = (0u32, "mate".to_string());
    let beer = (1u32, "beer".to_string());
    assert_eq!(b.datastore.balance_cost_per_user.get(&key_a).unwrap().get(&mate), Some(&450));
    assert_eq!(b.datastore.balance_count_per_user.get(&key_a).unwrap().get(&mate), Some(&3));
    assert_eq!(b.datastore.balance_cost_per_user.get(&key_a).unwrap().get(&beer), Some(&200));
    assert_eq!(b.datastore.version, 5 + 4);
}

#[test]
fn empty_cart_is_accepted_and_changes_nothing_but_the_version() {
    let mut b = shop();
    assert!(b.cart_purchase(77, vec![], vec![], 1));
    assert_eq!(b.datastore.purchases.len(), 0);
    assert_eq!(b.datastore.version, 6);
    assert!(!b.cart_purchase(77, vec![], vec![0], 1));
    assert!(!b.cart_purchase(0, vec!["x".to_string()], vec![5], 1));
    assert_eq!(b.datastore.version, 6);
}

#[test]
fn undo_returns_the_balances() {
    let mut b = shop();
    b.purchase(0, 0, 10);
    let user = (0u32, "anna".to_string());
    let item = (0u32, "mate".to_string());
    let cost_before = *b.datastore.balance_cost_per_user.get(&user).unwrap().get(&item).unwrap();
    let count_before = *b.datastore.balance_count_per_user.get(&user).unwrap().get(&item).unwrap();
    assert_eq!((cost_before, count_before), (150, 1));
    assert!(b.purchase(0, 0, 20));
    assert_eq!(b.datastore.balance_cost_per_user.get(&user).unwrap().get(&item), Some(&300));
    assert!(b.undo_purchase(2));
    assert_eq!(b.datastore.balance_cost_per_user.get(&user).unwrap().get(&item), Some(&cost_before));
    assert_eq!(b.datastore.balance_count_per_user.get(&user).unwrap().get(&item), Some(&count_before));
    assert_eq!(b.datastore.purchases.len(), 1);
    assert!(!b.undo_purchase(2));
    assert!(b.undo_purchase(1));
    assert_eq!(b.datastore.balance_cost_per_user.get(&user).unwrap().get(&item), Some(&0));
    assert_eq!(b.datastore.balance_count_per_user.get(&user).unwrap().get(&item), Some(&0));
    assert!(b.special_purchase(0, "cake".to_string(), 30));
    assert!(b.undo_purchase(3));
    assert!(b.datastore.purchases.is_empty());
}

#[test]
fn undo_after_renaming_finds_nothing_booked_and_is_rejected() {
    let mut b = shop();
    b.purchase(0, 0, 10);
    assert!(b.update_user(0, "annabel".to_string(), true, false, None));
    assert!(!b.undo_purchase(1));
    assert_eq!(b.datastore.purchases.len(), 1);
    assert!(b.update_user(0, "anna".to_string(), true, false, None));
    assert!(b.update_item(0, "mate".to_string(), 151, Some("soft".to_string())));
    assert!(!b.undo_purchase(1));
    assert!(b.update_item(0, "mate".to_string(), 100, Some("soft".to_string())));
    assert!(b.undo_purchase(1));
    let user = (0u32, "anna".to_string());
    let item = (0u32, "mate".to_string());
    assert_eq!(b.datastore.balance_cost_per_user.get(&user).unwrap().get(&item), Some(&50));
}

#[test]
fn ffa_validation() {
    let mut b = shop();
    assert!(b.create_ffa(vec!["soft".to_string()], vec![], 2, "cheers".to_string(), 1, 1));
    assert!(b.create_item("cola".to_string(), 120, None));
    let before = format!("{:?}", b.datastore);
    let version = b.datastore.version;
    assert!(!b.ffa_purchase(1, 1, 5));
    assert!(!b.ffa_purchase(1, 2, 5));
    assert!(!b.ffa_purchase(1, 99, 5));
    assert!(!b.ffa_purchase(2, 0, 5));
    assert_eq!(b.datastore.version, version);
    assert_eq!(format!("{:?}", b.datastore), before);
    assert!(b.ffa_purchase(1, 0, 5));
    assert_eq!(b.datastore.open_ffa.len(), 1);
    assert_eq!(b.datastore.open_ffa[0].left(), 1);
    assert!(b.datastore.open_ffa[0].is_open());
    match &b.datastore.purchases[0] {
        Purchase::FFAPurchase { unique_id, item_id, freeby_id, donor, timestamp_epoch_millis } => {
            assert_eq!((*unique_id, *item_id, *freeby_id, *donor, *timestamp_epoch_millis), (1, 0, 1, 1, 5));
        }
        other => panic!("{:?}", other),
    }
    let donor = (1u32, "bert".to_string());
    let item = (0u32, "mate".to_string());
    assert_eq!(b.datastore.balance_cost_per_user.get(&donor).unwrap().get(&item), Some(&150));
    assert!(b.ffa_purchase(1, 0, 6));
    assert!(b.datastore.open_ffa.is_empty());
    assert_eq!(b.datastore.used_up_freebies.len(), 1);
    assert_eq!(b.datastore.used_up_freebies[0].left(), 0);
    assert!(!b.ffa_purchase(1, 0, 7));
    assert_eq!(b.datastore.get_ffa_freeby(1).unwrap().get_donor(), 1);
    assert_eq!(b.datastore.get_ffa_freeby(1).unwrap().message(), "cheers");
    assert!(b.datastore.get_ffa_freeby(3).is_none());
}

#[test]
fn freebies_are_open_while_something_is_left() {
    let mut b = shop();
    b.create_free_count(vec![], vec![0], 1, "one".to_string(), 1, 0, 1);
    b.create_free_budget(100, "money".to_string(), 2, 0, 1);
    b.create_free_count(vec![], vec![0], 2, "two".to_string(), 3, 2, 1);
    b.create_ffa(vec![], vec![0], 1, "all".to_string(), 4, 2);
    b.purchase(1, 0, 10);
    b.purchase(1, 0, 11);
    b.purchase(1, 1, 12);
    b.ffa_purchase(4, 0, 13);
    b.create_bill(0, 1000, UserGroup::AllUsers, "".to_string());
    b.update_user(1, "bert".to_string(), true, false, Some("ext".to_string()));
    b.update_user(2, "cleo".to_string(), true, false, Some("ext".to_string()));
    assert!(b.apply(&BLEvents::FinalizeBill { timestamp_from: 0, timestamp_to: 1000 }));
    for f in b.datastore.open_ffa.iter() {
        assert!(f.left() > 0);
    }
    for list in b.datastore.open_freebies.values() {
        for f in list.iter() {
            assert!(f.left() > 0);
        }
    }
    let used: Vec<u64> = b.datastore.used_up_freebies.iter().map(|f| f.get_id()).collect();
    assert_eq!(used, vec![1, 2, 4]);
    for f in b.datastore.used_up_freebies.iter() {
        assert_eq!(f.left(), 0);
    }
    let left: Vec<(u64, u64)> =
        b.datastore.open_freebies.get(&1).unwrap().iter().map(|f| (f.get_id(), f.left())).collect();
    assert_eq!(left, vec![(3, 1)]);
    let day = b.datastore.bills[0].finalized_data.user_consumption.get(&1).unwrap().per_day.get(&0).unwrap();
    assert_eq!(day.personally_consumed.get(&1), Some(&1));
    assert_eq!(day.personally_consumed.get(&0), None);
    assert_eq!(day.giveouts_to_user_id.get(&0).unwrap().budget_gotten, 100);
    let donor_day =
        b.datastore.bills[0].finalized_data.user_consumption.get(&0).unwrap().per_day.get(&0).unwrap();
    assert_eq!(donor_day.giveouts_to_user_id.get(&1).unwrap().budget_given, 100);
    assert_eq!(donor_day.giveouts_to_user_id.get(&1).unwrap().count_giveouts_used.get(&0), Some(&1));
    assert_eq!(b.datastore.get_personal_freeby(1, 3).unwrap().get_donor(), 2);
    assert_eq!(b.datastore.get_personal_freeby(1, 2).unwrap().left(), 0);
    assert!(b.datastore.get_personal_freeby(2, 3).is_none());
    assert_eq!(b.datastore.get_budget_freeby_id_useable_for(1), None);
    assert_eq!(b.datastore.get_count_freeby_id_useable_for(1, 0), Some(0));
    assert_eq!(b.datastore.get_count_freeby_id_useable_for(1, 1), None);
}

#[test]
fn an_empty_freeby_stays_open_and_unused() {
    let mut b = shop();
    assert!(b.create_ffa(vec![], vec![0], 0, "nothing".to_string(), 1, 0));
    assert_eq!(b.datastore.open_ffa.len(), 1);
    assert_eq!(b.datastore.open_ffa[0].left(), 0);
    assert!(!b.ffa_purchase(1, 0, 5));
    assert!(b.create_free_count(vec![], vec![0], 0, "nothing".to_string(), 2, 0, 1));
    assert!(b.purchase(1, 0, 10));
    assert!(b.create_bill(0, 100, UserGroup::SingleUser { user_id: 1 }, "c".to_string()));
    assert!(b.update_user(1, "bert".to_string(), false, false, None));
    assert!(b.apply(&BLEvents::FinalizeBill { timestamp_from: 0, timestamp_to: 100 }));
    assert_eq!(b.datastore.open_freebies.get(&1).unwrap().len(), 1);
    assert!(b.datastore.used_up_freebies.is_empty());
    let day = b.datastore.bills[0].finalized_data.user_consumption.get(&1).unwrap().per_day.get(&0).unwrap();
    assert_eq!(day.personally_consumed.get(&0), Some(&1));
}

#[test]
fn finalizing_takes_the_billed_purchases_and_no_others() {
    let mut b = shop();
    b.purchase(0, 0, 10);
    b.purchase(1, 0, 20);
    b.purchase(0, 1, 86_400_000 + 5);
    b.purchase(2, 1, 86_400_000 + 6);
    b.purchase(0, 1, 200_000_000);
    assert!(b.create_bill(0, 200_000_000, UserGroup::MultipleUsers { user_ids: vec![0, 2] }, "c".to_string()));
    assert!(!b.create_bill(0, 200_000_000, UserGroup::AllUsers, "again".to_string()));
    assert_eq!(b.datastore.get_un_set_users_to_bill(0, 200_000_000), vec![0, 2]);
    assert_eq!(b.datastore.get_users_to_bill(0, 200_000_000), vec![0, 2]);
    assert_eq!(b.datastore.get_users_to_bill(1, 2), Vec::<u32>::new());
    assert!(!b.apply(&BLEvents::FinalizeBill { timestamp_from: 0, timestamp_to: 200_000_000 }));
    let mut excluded = HashSet::new();
    excluded.insert(2u32);
    assert!(b.apply(&BLEvents::UpdateBill {
        timestamp_from: 0,
        timestamp_to: 200_000_000,
        comment: "changed".to_string(),
        users: UserGroup::MultipleUsers { user_ids: vec![0, 2] },
        users_that_will_not_be_billed: excluded,
    }));
    assert_eq!(b.datastore.bills[0].comment, "changed".to_string());
    assert!(b.datastore.bills[0].users_that_will_not_be_billed.contains(&2));
    assert_eq!(b.datastore.get_un_set_users_to_bill(0, 200_000_000), vec![0]);
    assert!(b.update_user(0, "anna".to_string(), true, false, Some("a-1".to_string())));
    assert_eq!(b.datastore.get_un_set_users_to_bill(0, 200_000_000), Vec::<u32>::new());
    let bill = b.datastore.get_bill(0, 200_000_000).unwrap();
    assert_eq!(b.datastore.get_purchase_indices_to_bill(bill), vec![0, 2, 3]);
    assert_eq!(b.datastore.get_bill_index(0, 200_000_000), Some(0));
    assert_eq!(b.datastore.get_bill_index(0, 1), None);
    assert!(!b.apply(&BLEvents::ExportBill { timestamp_from: 0, timestamp_to: 200_000_000 }));
    assert!(b.apply(&BLEvents::FinalizeBill { timestamp_from: 0, timestamp_to: 200_000_000 }));
    let left: Vec<u64> = b.datastore.purchases.iter().map(|p| p.get_unique_id()).collect();
    assert_eq!(left, vec![2, 5]);
    for p in b.datastore.purchases.iter() {
        let t = *p.get_timestamp();
        let billed = 0 <= t && t < 200_000_000 && (*p.get_user_id() == 0 || *p.get_user_id() == 2);
        assert!(!billed);
    }
    let data: &ExportableBillData = &b.datastore.bills[0].finalized_data;
    let anna = data.user_consumption.get(&0).unwrap();
    assert_eq!(anna.user_id, 0);
    assert_eq!(anna.per_day.get(&0).unwrap().personally_consumed.get(&0), Some(&1));
    assert_eq!(anna.per_day.get(&1).unwrap().personally_consumed.get(&1), Some(&1));
    assert_eq!(anna.per_day.len(), 2);
    assert_eq!(data.user_consumption.get(&2).unwrap().per_day.get(&1).unwrap().personally_consumed.get(&1), Some(&1));
    assert!(data.user_consumption.get(&1).is_none());
    assert_eq!(data.all_users.len(), 2);
    assert_eq!(data.all_items.len(), 2);
    assert_eq!(b.datastore.bills[0].bill_state, BillState::Finalized);
    assert!(!b.apply(&BLEvents::FinalizeBill { timestamp_from: 0, timestamp_to: 200_000_000 }));
    assert!(!b.apply(&BLEvents::DeleteUnfinishedBill { timestamp_from: 0, timestamp_to: 200_000_000 }));
    assert!(b.apply(&BLEvents::ExportBill { timestamp_from: 0, timestamp_to: 200_000_000 }));
    assert_eq!(b.datastore.bills[0].bill_state, BillState::ExportedAtLeastOnce);
    assert!(b.apply(&BLEvents::ExportBill { timestamp_from: 0, timestamp_to: 200_000_000 }));
    assert_eq!(b.datastore.bills_filtered(Some(1), 0, 10).len(), 0);
    assert_eq!(b.datastore.bills_filtered(Some(2), 0, 10).len(), 1);
    assert_eq!(b.datastore.bills_filtered(None, 200_000_001, 300_000_000).len(), 0);
}

#[test]
fn unpriced_specials_hold_a_bill_back() {
    let mut b = shop();
    b.special_purchase(0, "cake".to_string(), 10);
    b.special_purchase(0, "pie".to_string(), 11);
    b.purchase(0, 0, 12);
    assert!(!b.create_bill(5, 50, UserGroup::AllUsers, "x".to_string()) == false);
    b.update_user(0, "anna".to_string(), false, false, None);
    assert_eq!(b.datastore.get_specials_to_bill(5, 50), vec![1, 2]);
    assert_eq!(b.datastore.get_unpriced_specials_to_bill(5, 50), vec![1, 2]);
    assert_eq!(b.datastore.get_specials_to_bill(5, 51), Vec::<u64>::new());
    assert!(b.apply(&BLEvents::SetPriceForSpecial { unique_id: 2, price: 70 }));
    assert!(b.apply(&BLEvents::SetPriceForSpecial { unique_id: 3, price: 70 }));
    assert!(!b.apply(&BLEvents::SetPriceForSpecial { unique_id: 4, price: 70 }));
    assert_eq!(b.datastore.get_purchase(3).unwrap().has_item_id(), true);
    assert_eq!(b.datastore.get_purchase(2).unwrap().get_special_set_price(), Some(70));
    assert_eq!(b.datastore.get_purchase(1).unwrap().get_special_set_price(), None);
    assert_eq!(b.datastore.get_unpriced_specials_to_bill(5, 50), vec![1]);
    assert!(!b.apply(&BLEvents::FinalizeBill { timestamp_from: 5, timestamp_to: 50 }));
    assert!(b.apply(&BLEvents::SetPriceForSpecial { unique_id: 1, price: 5 }));
    assert!(b.apply(&BLEvents::FinalizeBill { timestamp_from: 5, timestamp_to: 50 }));
    let day = b.datastore.bills[0].finalized_data.user_consumption.get(&0).unwrap().per_day.get(&0).unwrap();
    let filed: Vec<(u64, u32, String)> =
        day.specials_consumed.iter().map(|s| (s.purchase_id, s.price, s.name.clone())).collect();
    assert_eq!(filed, vec![(1, 5, "cake".to_string()), (2, 70, "pie".to_string())]);
    assert_eq!(b.datastore.get_purchase_timestamp(1), None);
}

#[test]
fn an_unfinished_bill_can_be_deleted() {
    let mut b = shop();
    assert!(!b.create_bill(0, 10, UserGroup::AllUsers, "early".to_string()));
    b.purchase(0, 0, 1);
    assert!(b.create_bill(0, 10, UserGroup::AllUsers, "first".to_string()));
    assert!(b.create_bill(0, 11, UserGroup::AllUsers, "second".to_string()));
    assert!(b.apply(&BLEvents::DeleteUnfinishedBill { timestamp_from: 0, timestamp_to: 10 }));
    assert!(!b.apply(&BLEvents::DeleteUnfinishedBill { timestamp_from: 0, timestamp_to: 10 }));
    assert_eq!(b.datastore.bills.len(), 1);
    assert_eq!(b.datastore.bills[0].comment, "second".to_string());
    let copy: Bill = b.datastore.bills[0].clone();
    assert_eq!(copy.timestamp_to, 11);
    assert!(copy.bill_state.is_created());
}

#[test]
fn deleting_an_item_drops_its_category_if_unused() {
    let mut b = shop();
    b.create_item("cola".to_string(), 100, Some("soft".to_string()));
    assert_eq!(b.datastore.categories.len(), 2);
    assert!(b.delete_item(0));
    assert_eq!(b.datastore.categories.len(), 2);
    assert!(b.delete_item(2));
    let mut cats = b.datastore.all_categories();
    cats.sort();
    assert_eq!(cats, vec!["hard".to_string()]);
    assert!(b.datastore.items.get(&0).unwrap().deleted);
    assert_eq!(b.datastore.items.len(), 3);
    assert_eq!(b.datastore.top_item_ids(0, 5), vec![1]);
}

#[test]
fn replay_gives_the_same_aggregate() {
    fn events() -> Vec<BLEvents> {
        vec![
            BLEvents::CreateUser { username: "anna".to_string() },
            BLEvents::CreateItem { itemname: "mate".to_string(), price_cents: 150, category: None },
            BLEvents::MakeSimplePurchase { user_id: 0, item_id: 0, timestamp: 7 },
            BLEvents::MakeSimplePurchase { user_id: 3, item_id: 0, timestamp: 8 },
            BLEvents::MakeSpecialPurchase { user_id: 0, special_name: "x".to_string(), timestamp: 9 },
            BLEvents::CreateFreeBudget {
                cents_worth_total: 10,
                text_message: "m".to_string(),
                created_timestamp: 1,
                donor: 0,
                recipient: 0,
            },
        ]
    }
    let mut live = build_transient_backend();
    let mut accepted = 0u64;
    for e in events().iter() {
        if live.apply(e) {
            accepted += 1;
        }
    }
    assert_eq!(accepted, 5);
    let mut again = build_transient_backend();
    let version = again.replay(&events());
    assert_eq!(version, 5);
    assert_eq!(version, live.datastore.version);
    assert_eq!(format!("{:?}", again.datastore.purchases), format!("{:?}", live.datastore.purchases));
    assert_eq!(format!("{:?}", again.datastore.open_freebies), format!("{:?}", live.datastore.open_freebies));
    assert_eq!(again.datastore.top_users, live.datastore.top_users);
    assert_eq!(again.datastore.users_searchhit_ids(""), live.datastore.users_searchhit_ids(""));
    assert_eq!(again.datastore.purchase_count, 2);
    let mut third = build_transient_backend();
    let staged = third.persistencer.next_event_id(&events()[0], &third.datastore);
    assert_eq!(staged, Some(1));
    assert!(!third.persistencer.commit(&events()[0], &mut third.datastore, false));
    assert_eq!(third.datastore.version, 0);
    assert!(third.persistencer.commit(&events()[0], &mut third.datastore, true));
    assert_eq!(third.datastore.version, 1);
    assert_eq!(third.persistencer.next_event_id(&events()[3], &third.datastore), None);
    assert!(events()[1].can_be_applied(&third.datastore));
    assert!(events()[1].apply(&mut third.datastore, &StaticConfig::default()));
    assert_eq!(third.datastore.version, 1);
}

#[test]
fn a_persistent_backend_waits_for_its_log() {
    let mut b = build_persistent_backend("some/dir");
    assert_eq!(b.persistencer.config.persistence_file_path, "some/dir".to_string());
    assert!(b.persistencer.config.use_persistence);
    assert_eq!(b.persistencer.config.users_in_top_users, 40);
    assert!(!b.create_user("anna".to_string()));
    assert_eq!(b.datastore.version, 0);
    let event = BLEvents::CreateUser { username: "anna".to_string() };
    assert!(!b.persistencer.test_store_apply(&event, &mut b.datastore));
    assert_eq!(b.snapshot_target(), Some(("some/dir/snapshot.json".to_string(), 0)));
    assert_eq!(build_transient_backend().snapshot_target(), None);
    let id = b.persistencer.next_event_id(&event, &b.datastore).unwrap();
    assert_eq!(id_to_key(id), vec![0, 0, 0, 0, 0, 0, 0, 1]);
    assert!(b.persistencer.commit(&event, &mut b.datastore, true));
    let mut other = build_persistent_backend("some/dir");
    let taken = std::mem::replace(&mut b.datastore, blrustix::datastore::Datastore::default());
    assert_eq!(other.install_snapshot(taken), Some(1));
    assert_eq!(other.datastore.users.len(), 1);
    assert_eq!(other.datastore.users_searchhit_ids("ann"), vec![0]);
    let mut broken = shop().datastore;
    broken.user_id_counter = 1;
    assert_eq!(other.install_snapshot(broken), None);
    assert_eq!(other.datastore.users.len(), 1);
}

#[test]
fn a_log_decides_whether_an_event_is_applied() {
    let mut b = build_persistent_backend("some/dir");
    let event = BLEvents::CreateUser { username: "anna".to_string() };
    let mut written: Vec<u64> = Vec::new();
    assert!(!b.persistencer.test_store_apply_with(&event, &mut b.datastore, |id| {
        written.push(id);
        false
    }));
    assert_eq!(b.datastore.version, 0);
    assert!(b.datastore.users.is_empty());
    assert!(b.persistencer.test_store_apply_with(&event, &mut b.datastore, |id| {
        written.push(id);
        true
    }));
    assert_eq!(b.datastore.version, 1);
    let rejected = BLEvents::DeleteUser { user_id: 5 };
    assert!(!b.persistencer.test_store_apply_with(&rejected, &mut b.datastore, |id| {
        written.push(id);
        true
    }));
    assert_eq!(written, vec![1, 1]);
    assert_eq!(b.datastore.version, 1);
}

#[test]
fn purchases_leave_by_position_and_indices_are_rebuilt() {
    let mut b = shop();
    b.purchase(0, 0, 1);
    b.purchase(1, 0, 2);
    b.purchase(2, 0, 3);
    b.purchase(0, 1, 4);
    b.datastore.remove_purchases_indices(vec![2, 0]);
    let left: Vec<u64> = b.datastore.purchases.iter().map(|p| p.get_unique_id()).collect();
    assert_eq!(left, vec![2, 4]);
    b.datastore.remove_purchases_indices(vec![]);
    assert_eq!(b.datastore.purchases.len(), 2);
    b.datastore.users.get_mut(&1).unwrap().username = "bertram".to_string();
    assert_eq!(b.datastore.users_searchhit_ids("tram"), Vec::<u32>::new());
    b.datastore.rebuild_user_tree();
    assert_eq!(b.datastore.users_searchhit_ids("tram"), vec![1]);
    b.datastore.items.get_mut(&0).unwrap().deleted = true;
    b.datastore.rebuild_item_tree();
    assert_eq!(b.datastore.items_searchhit_ids(""), vec![1]);
    assert_eq!(b.datastore.users.get(&1).unwrap().as_searchable_text(), "bertram".to_string());
    assert_eq!(b.datastore.users.get(&1).unwrap().get_id(), 1);
    assert_eq!(b.datastore.items.get(&1).unwrap().as_searchable_text(), "beer".to_string());
    assert_eq!(b.datastore.items.get(&1).unwrap().get_id(), 1);
}

#[test]
fn a_finalized_bill_holds_each_purchase_once() {
    let mut b = shop();
    b.create_free_count(vec![], vec![0], 1, "one".to_string(), 1, 0, 1);
    b.create_free_budget(100, "money".to_string(), 2, 0, 1);
    b.create_ffa(vec![], vec![1], 3, "all".to_string(), 3, 2);
    b.purchase(1, 0, 10);
    b.purchase(1, 0, 11);
    b.purchase(2, 1, 12);
    b.special_purchase(1, "cake".to_string(), 13);
    b.ffa_purchase(3, 1, 14);
    b.purchase(1, 1, 500);
    b.apply(&BLEvents::SetPriceForSpecial { unique_id: 4, price: 1 });
    b.create_bill(0, 100, UserGroup::AllUsers, "".to_string());
    for user in 0..3 {
        let name = b.datastore.users.get(&user).unwrap().username.clone();
        b.update_user(user, name, false, false, None);
    }
    let before = b.datastore.purchases.len();
    assert!(b.apply(&BLEvents::FinalizeBill { timestamp_from: 0, timestamp_to: 100 }));
    let mut held: usize = 0;
    for instance in b.datastore.bills[0].finalized_data.user_consumption.values() {
        for day in instance.per_day.values() {
            held += day.specials_consumed.len();
            held += day.personally_consumed.values().map(|n| *n as usize).sum::<usize>();
            held += day.ffa_giveouts.values().map(|n| *n as usize).sum::<usize>();
            for paid in day.giveouts_to_user_id.values() {
                held += paid.count_giveouts_used.values().map(|n| *n as usize).sum::<usize>();
            }
        }
    }
    assert_eq!(held, 5);
    assert_eq!(held + b.datastore.purchases.len(), before);
}

#[test]
fn only_a_sound_aggregate_is_restored() {
    let full = || {
        let mut b = shop();
        b.create_free_count(vec![], vec![0], 1, "one".to_string(), 1, 0, 1);
        b.create_ffa(vec![], vec![1], 3, "all".to_string(), 3, 2);
        b.purchase(1, 0, 10);
        b.purchase(2, 1, 12);
        b.ffa_purchase(2, 1, 14);
        b.create_bill(0, 11, UserGroup::AllUsers, "".to_string());
        b.update_user(1, "bert".to_string(), false, false, None);
        b.apply(&BLEvents::FinalizeBill { timestamp_from: 0, timestamp_to: 11 });
        b.create_bill(0, 12, UserGroup::AllUsers, "".to_string());
        b.datastore
    };
    let mut sound = full();
    assert!(sound.restore());
    assert_eq!(sound.users_searchhit_ids("e"), vec![1, 2]);
    let mut d = full();
    d.purchases.swap(0, 1);
    assert!(!d.restore());
    let mut d = full();
    d.users.remove(&2);
    assert!(!d.restore());
    let mut d = full();
    d.items.get_mut(&1).unwrap().item_id = 0;
    assert!(!d.restore());
    let mut d = full();
    d.item_id_counter = 1;
    assert!(!d.restore());
    let mut d = full();
    d.top_user_scores.ids.push(0);
    d.top_user_scores.scores.push(0);
    assert!(!d.restore());
    let mut d = full();
    d.top_drinks_per_user.remove(&1);
    assert!(!d.restore());
    let mut d = full();
    d.drink_scores_per_user.get_mut(&0).unwrap().scores.pop();
    assert!(!d.restore());
    let mut d = full();
    let moved = d.used_up_freebies.pop().unwrap();
    d.open_ffa.push(moved);
    assert!(!d.restore());
    let mut d = full();
    let moved = d.open_ffa.pop().unwrap();
    d.open_freebies.insert(0, vec![moved]);
    assert!(!d.restore());
    let mut d = full();
    let kept = d.users.get(&0).unwrap().clone();
    d.bills[1].finalized_data.all_users.insert(0, kept);
    assert!(!d.restore());
    let mut d = full();
    d.open_freebies.insert(9, vec![]);
    assert!(!d.restore());
    assert!(full().top_user_scores.is_wf());
    assert!(full().categories.is_wf());
    assert!(full().balance_cost_per_user.is_wf());
}

#[test]
fn keys_are_big_endian() {
    assert_eq!(id_to_key(258), vec![0, 0, 0, 0, 0, 0, 1, 2]);
    assert_eq!(id_to_key(u64::MAX), vec![255; 8]);
    assert_eq!(id_to_key(0x0102030405060708), vec![1, 2, 3, 4, 5, 6, 7, 8]);
    assert_eq!(key_to_id(&[0, 0, 0, 0, 0, 0, 1, 2]), 258);
    assert_eq!(key_to_id(&[1, 2, 3, 4, 5, 6, 7, 8, 9]), 0x0102030405060708);
    assert_eq!(key_to_id(&id_to_key(918733457491587)), 918733457491587);
    assert!(id_to_key(255) < id_to_key(256));
    assert_eq!(transform_u32_to_array_of_u8(0x01020304), [1, 2, 3, 4]);
    assert_eq!(transform_u32_to_array_of_u8(u32::MAX), [255, 255, 255, 255]);
}

#[test]
fn day_index_counts_whole_days() {
    let bill = |from: i64| Bill {
        timestamp_from: from,
        timestamp_to: from + 1,
        comment: String::new(),
        users: UserGroup::default(),
        bill_state: BillState::default(),
        users_that_will_not_be_billed: HashSet::new(),
        finalized_data: ExportableBillData::default(),
    };
    assert_eq!(bill(0).get_day_index(0), 0);
    assert_eq!(bill(0).get_day_index(86_399_999), 0);
    assert_eq!(bill(0).get_day_index(86_400_000), 1);
    assert_eq!(bill(100).get_day_index(86_400_000), 1);
    assert_eq!(bill(86_400_001).get_day_index(3 * 86_400_000 + 5), 2);
    assert_eq!(bill(-1).get_day_index(-1), 0);
    assert_eq!(bill(-86_400_001).get_day_index(0), 1);
    assert_eq!(bill(50).get_day_index(10), 0);
}

#[test]
fn usergroups_admit() {
    assert!(matches_usergroup(&None, &UserGroup::SingleUser { user_id: 3 }));
    assert!(matches_usergroup(&Some(3), &UserGroup::SingleUser { user_id: 3 }));
    assert!(!matches_usergroup(&Some(4), &UserGroup::SingleUser { user_id: 3 }));
    assert!(matches_usergroup(&Some(4), &UserGroup::AllUsers));
    assert!(matches_usergroup(&Some(4), &UserGroup::MultipleUsers { user_ids: vec![1, 4] }));
    assert!(!matches_usergroup(&Some(5), &UserGroup::MultipleUsers { user_ids: vec![1, 4] }));
    assert!(!matches_usergroup(&Some(5), &UserGroup::MultipleUsers { user_ids: vec![] }));
    assert!(matches!(UserGroup::default(), UserGroup::AllUsers));
    assert!(matches!(
        UserGroup::MultipleUsers { user_ids: vec![1] }.clone(),
        UserGroup::MultipleUsers { user_ids } if user_ids == vec![1]
    ));
}

#[test]
fn purchase_indices_bound_a_time_span() {
    let at = |id: u64, t: i64| Purchase::SimplePurchase {
        unique_id: id,
        timestamp_epoch_millis: t,
        item_id: 0,
        consumer_id: 0,
    };
    let ps = vec![at(1, 10), at(2, 20), at(3, 20), at(4, 20), at(5, 30)];
    assert_eq!(find_purchase_indices(&ps, 20, 21), (1, 4));
    assert_eq!(find_purchase_indices(&ps, 20, 20), (1, 1));
    assert_eq!(find_purchase_indices(&ps, 0, 100), (0, 5));
    assert_eq!(find_purchase_indices(&ps, 11, 30), (1, 4));
    assert_eq!(find_purchase_indices(&ps, 31, 40), (5, 5));
    assert_eq!(find_purchase_indices(&ps, 25, 5), (4, 4));
    assert_eq!(find_purchase_indices(&ps, i64::MIN, i64::MAX), (0, 5));
    assert_eq!(find_purchase_indices(&[], 0, 1), (0, 0));
}

#[test]
fn configurations() {
    let plain = StaticConfig::default();
    assert_eq!(plain.users_per_page, 20);
    assert_eq!(plain.users_in_top_users, 20);
    assert_eq!(plain.top_drinks_per_user, 4);
    assert_eq!(plain.use_persistence, false);
    assert_eq!(plain.persistence_file_path, "");
    let kept = StaticConfig::default_persistence("dir");
    assert_eq!(kept.users_per_page, 40);
    assert_eq!(kept.users_in_top_users, 40);
    assert_eq!(kept.top_drinks_per_user, 4);
    assert_eq!(kept.use_persistence, true);
    assert_eq!(kept.persistence_file_path, "dir");
    let b = build_transient_backend_with(7, 3);
    assert_eq!(b.persistencer.config.users_per_page, 7);
    assert_eq!(b.persistencer.config.users_in_top_users, 3);
    assert_eq!(b.persistencer.config.top_drinks_per_user, 4);
}

#[test]
fn frontend_error_texts() {
    let e = CustomRustixFrontendError { err: "x".to_string() };
    assert_eq!(e.description(), "Something bad happened");
    assert_eq!(e.message(), "Oh no, something bad went down");
}

#[test]
fn keyed_maps_and_text_sets() {
    let mut m: NameKeyedMap<u32> = NameKeyedMap::new();
    assert_eq!(m.len(), 0);
    assert_eq!(m.insert((1, "a".to_string()), 5), None);
    assert_eq!(m.insert((1, "b".to_string()), 6), None);
    assert_eq!(m.insert((1, "a".to_string()), 7), Some(5));
    assert_eq!(m.len(), 2);
    assert_eq!(m.get(&(1, "a".to_string())), Some(&7));
    assert_eq!(m.get(&(2, "a".to_string())), None);
    assert!(m.contains_key(&(1, "b".to_string())));
    assert_eq!(m.remove(&(1, "a".to_string())), Some(7));
    assert_eq!(m.remove(&(1, "a".to_string())), None);
    assert_eq!(m.len(), 1);
    let mut s = TextSet::new();
    assert!(s.insert("x".to_string()));
    assert!(!s.insert("x".to_string()));
    assert!(s.insert("y".to_string()));
    assert_eq!(s.len(), 2);
    assert!(s.contains(&"y".to_string()));
    assert!(s.remove(&"x".to_string()));
    assert!(!s.remove(&"x".to_string()));
    assert_eq!(s.to_vec(), vec!["y".to_string()]);
}
