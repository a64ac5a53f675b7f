use currency_ledger::{Chatters, Currency, MemoryStore};

fn fresh(name: &str) -> Currency {
    Currency::new(name.to_string(), true, MemoryStore::new())
}

fn balance(c: &Currency, channel: &str, user: &str) -> Option<(i64, i64)> {
    c.balance_of(channel, user)
        .unwrap()
        .map(|b| (b.balance, b.watch_time))
}

#[test]
fn concrete_scenario() {
    let mut c = fresh("points");

    assert!(c.balance_of("chan", "u1").unwrap().is_none());

    c.balance_add("chan", "u1", 100).unwrap();
    assert_eq!(balance(&c, "chan", "u1"), Some((100, 0)));

    let r = c.balance_transfer("chan", "u2", "u1", 150, false);
    assert!(r.is_err());
    assert_eq!(balance(&c, "chan", "u1"), Some((100, 0)));
    assert_eq!(balance(&c, "chan", "u2"), None);

    c.balance_transfer("chan", "u2", "u1", 150, true).unwrap();
    assert_eq!(balance(&c, "chan", "u2"), Some((-150, 0)));
    assert_eq!(balance(&c, "chan", "u1"), Some((250, 0)));
}

#[test]
fn transfer_fails_iff_insufficient() {
    let mut c = fresh("points");
    c.balance_add("chan", "giver", 10).unwrap();

    assert!(c.balance_transfer("chan", "giver", "taker", 11, false).is_err());
    assert_eq!(balance(&c, "chan", "giver"), Some((10, 0)));
    assert_eq!(balance(&c, "chan", "taker"), None);

    c.balance_transfer("chan", "giver", "taker", 10, false).unwrap();
    assert_eq!(balance(&c, "chan", "giver"), Some((0, 0)));
    assert_eq!(balance(&c, "chan", "taker"), Some((10, 0)));
}

#[test]
fn override_transfer_goes_negative() {
    let mut c = fresh("points");
    c.balance_transfer("chan", "giver", "taker", 40, true).unwrap();
    assert_eq!(balance(&c, "chan", "giver"), Some((-40, 0)));
    assert_eq!(balance(&c, "chan", "taker"), Some((40, 0)));
}

#[test]
fn transfer_sequence_conserves_sum() {
    let mut c = fresh("points");
    c.balance_add("chan", "a", 70).unwrap();
    c.balance_add("chan", "b", 30).unwrap();

    c.balance_transfer("chan", "a", "b", 50, false).unwrap();
    c.balance_transfer("chan", "b", "a", 20, false).unwrap();
    c.balance_transfer("chan", "a", "b", 40, false).unwrap();

    let a = balance(&c, "chan", "a").unwrap().0;
    let b = balance(&c, "chan", "b").unwrap().0;
    assert_eq!(a + b, 100);
    assert_eq!(a, 0);
    assert_eq!(b, 100);
}

#[test]
fn balance_add_saturates() {
    let mut c = fresh("points");
    c.balance_add("chan", "u", i64::MAX).unwrap();
    c.balance_add("chan", "u", 1).unwrap();
    assert_eq!(balance(&c, "chan", "u"), Some((i64::MAX, 0)));

    c.balance_add("chan", "d", i64::MIN + 1).unwrap();
    c.balance_add("chan", "d", -2).unwrap();
    assert_eq!(balance(&c, "chan", "d"), Some((i64::MIN, 0)));
}

#[test]
fn balance_add_accumulates() {
    let mut c = fresh("points");
    c.balance_add("chan", "u", 100).unwrap();
    c.balance_add("chan", "u", 28).unwrap();
    assert_eq!(balance(&c, "chan", "u"), Some((128, 0)));
}

#[test]
fn increment_updates_both_users_any_order() {
    let mut one = fresh("points");
    one.balances_increment("chan", &vec!["u1".to_string(), "u2".to_string()], 5, 10)
        .unwrap();
    assert_eq!(balance(&one, "chan", "u1"), Some((5, 10)));
    assert_eq!(balance(&one, "chan", "u2"), Some((5, 10)));

    let mut two = fresh("points");
    two.balances_increment("chan", &vec!["u2".to_string(), "u1".to_string()], 5, 10)
        .unwrap();
    assert_eq!(balance(&two, "chan", "u1"), Some((5, 10)));
    assert_eq!(balance(&two, "chan", "u2"), Some((5, 10)));
}

#[test]
fn increment_accumulates_across_calls() {
    let mut c = fresh("points");
    let users = vec!["u1".to_string(), "u2".to_string()];
    c.balances_increment("chan", &users, 5, 10).unwrap();
    c.balances_increment("chan", &users, 5, 10).unwrap();
    assert_eq!(balance(&c, "chan", "u1"), Some((10, 20)));
    assert_eq!(balance(&c, "chan", "u2"), Some((10, 20)));
}

#[test]
fn increment_with_empty_roster_changes_nothing() {
    let mut c = fresh("points");
    c.balance_add("chan", "u", 3).unwrap();
    c.balances_increment("chan", &Vec::new(), 5, 10).unwrap();
    assert_eq!(balance(&c, "chan", "u"), Some((3, 0)));
    assert_eq!(c.export_balances().unwrap().len(), 1);
}

#[test]
fn add_channel_all_deduplicates_roster() {
    let mut c = fresh("points");
    let chatters = Chatters {
        viewers: vec!["a".to_string(), "b".to_string()],
        moderators: vec!["b".to_string(), "m".to_string()],
        broadcaster: vec!["m".to_string()],
    };
    let n = c.add_channel_all("chan", chatters, 7, 60).unwrap();
    assert_eq!(n, 3);
    assert_eq!(balance(&c, "chan", "a"), Some((7, 60)));
    assert_eq!(balance(&c, "chan", "b"), Some((7, 60)));
    assert_eq!(balance(&c, "chan", "m"), Some((7, 60)));
}

#[test]
fn add_channel_all_empty_roster() {
    let mut c = fresh("points");
    let chatters = Chatters {
        viewers: Vec::new(),
        moderators: Vec::new(),
        broadcaster: Vec::new(),
    };
    let n = c.add_channel_all("chan", chatters, 7, 60).unwrap();
    assert_eq!(n, 0);
    assert!(c.export_balances().unwrap().is_empty());
}

#[test]
fn export_then_import_is_identity() {
    let mut c = fresh("points");
    c.balance_add("chan", "u1", 100).unwrap();
    c.balance_add("chan", "u2", -20).unwrap();
    c.balances_increment("other", &vec!["u3".to_string()], 5, 99).unwrap();

    let before = c.export_balances().unwrap();
    let snapshot: Vec<(String, String, i64, i64)> = before
        .iter()
        .map(|b| (b.channel.clone(), b.user.clone(), b.amount, b.watch_time))
        .collect();

    c.import_balances(before).unwrap();
    let after = c.export_balances().unwrap();
    let after_snapshot: Vec<(String, String, i64, i64)> = after
        .iter()
        .map(|b| (b.channel.clone(), b.user.clone(), b.amount, b.watch_time))
        .collect();
    assert_eq!(snapshot, after_snapshot);

    // A second import of the same export is also a no-op.
    let again = c.export_balances().unwrap();
    c.import_balances(again).unwrap();
    let last: Vec<(String, String, i64, i64)> = c
        .export_balances()
        .unwrap()
        .iter()
        .map(|b| (b.channel.clone(), b.user.clone(), b.amount, b.watch_time))
        .collect();
    assert_eq!(snapshot, last);
}

#[test]
fn import_overwrites_instead_of_adding() {
    let mut c = fresh("points");
    c.balance_add("chan", "u1", 100).unwrap();

    let mut records = c.export_balances().unwrap();
    records[0].amount = 7;
    records[0].watch_time = 9;
    c.import_balances(records).unwrap();
    assert_eq!(balance(&c, "chan", "u1"), Some((7, 9)));
}

#[test]
fn import_normalizes_channel_and_clamps_watch_time() {
    let mut c = fresh("points");
    let record = currency_ledger::Balance {
        channel: "chan".to_string(),
        user: "u1".to_string(),
        amount: 4,
        watch_time: -5,
    };
    c.import_balances(vec![record]).unwrap();

    let rows = c.export_balances().unwrap();
    assert_eq!(rows.len(), 1);
    assert_eq!(rows[0].channel, "#chan");
    assert_eq!(rows[0].watch_time, 0);
    assert_eq!(balance(&c, "#chan", "u1"), Some((4, 0)));
    assert_eq!(balance(&c, "chan", "u1"), Some((4, 0)));
}

#[test]
fn users_are_case_folded_in_storage() {
    let mut c = fresh("points");
    c.balance_add("Chan", "AbC", 10).unwrap();

    let rows = c.export_balances().unwrap();
    assert_eq!(rows.len(), 1);
    assert_eq!(rows[0].user, "abc");
    assert_eq!(rows[0].channel, "#Chan");

    assert_eq!(balance(&c, "Chan", "abc"), Some((10, 0)));
    assert_eq!(balance(&c, "#Chan", "ABC"), Some((10, 0)));
}

#[test]
fn increment_counts_each_listed_occurrence() {
    let mut c = fresh("points");
    let users = vec!["u".to_string(), "u".to_string()];
    c.balances_increment("chan", &users, 5, 10).unwrap();
    assert_eq!(balance(&c, "chan", "u"), Some((10, 20)));
}

#[test]
fn roster_names_that_fold_together_are_rewarded_per_raw_name() {
    let mut c = fresh("points");
    let chatters = Chatters {
        viewers: vec!["Bob".to_string(), "BOB".to_string()],
        moderators: Vec::new(),
        broadcaster: Vec::new(),
    };
    // The roster holds two distinct raw names, so two are counted and the
    // one folded row receives the reward once per raw name.
    let n = c.add_channel_all("chan", chatters, 5, 0).unwrap();
    assert_eq!(n, 2);
    assert_eq!(balance(&c, "chan", "bob"), Some((10, 0)));
}
