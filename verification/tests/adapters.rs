use currency_ledger::{
    Alias, BackendType, BalanceOf, BalanceTransferError, Built, Chatters, Currency,
    CurrencyBuilder, Duration, Error, MemoryStore, Notification, Schema, apply_add,
    balance_of_row, balance_or_default, channel_id, clone_record, join_spaced, setup,
    transfer_allowed, transfer_writes, user_id, words,
};

fn schema(table: &str, user: &str, bal: &str) -> Schema {
    Schema {
        table: table.to_string(),
        user_column: user.to_string(),
        balance_column: bal.to_string(),
    }
}

#[test]
fn channel_id_normalizes() {
    assert_eq!(channel_id("chan"), "#chan");
    assert_eq!(channel_id("#chan"), "#chan");
    assert_eq!(channel_id("##chan"), "#chan");
    assert_eq!(channel_id(""), "#");
    assert_eq!(channel_id("#"), "#");
}

#[test]
fn user_id_case_folds() {
    assert_eq!(user_id("SomeUser"), "someuser");
    assert_eq!(user_id("ÅNGSTRÖM"), "ångström");
    assert_eq!(user_id(""), "");
}

#[test]
fn select_statements_follow_schema() {
    let b = currency_ledger::mysql::Backend::new(
        String::new(),
        "mysql://localhost".to_string(),
        schema("honkos", "username", "honko_balance"),
    );
    assert_eq!(
        b.select_balance_stmt(),
        "SELECT `honko_balance` FROM `honkos` WHERE `username` = ?"
    );
    assert_eq!(
        b.select_balance_for_update_stmt(),
        "SELECT `honko_balance` FROM `honkos` WHERE `username` = ? FOR UPDATE"
    );
    assert_eq!(
        b.write_balance_stmt(),
        "INSERT INTO `honkos` (`username`, `honko_balance`) VALUES (?, ?) ON DUPLICATE KEY UPDATE `honko_balance` = ?"
    );
    assert_eq!(
        b.export_stmt(),
        "SELECT `username`, `honko_balance` FROM `honkos`"
    );
}

#[test]
fn remote_decisions() {
    assert_eq!(balance_or_default(None), 0);
    assert_eq!(balance_or_default(Some(7)), 7);

    assert!(balance_of_row(None).is_none());
    let b = balance_of_row(Some(9)).unwrap();
    assert_eq!(b.balance, 9);
    assert_eq!(b.watch_time, 0);

    assert_eq!(apply_add(None, 5), 5);
    assert_eq!(apply_add(Some(3), -5), -2);
    assert_eq!(apply_add(Some(i64::MAX), 1), i64::MAX);
    assert_eq!(apply_add(Some(i64::MIN), -1), i64::MIN);

    assert!(transfer_allowed(10, 10, false));
    assert!(!transfer_allowed(9, 10, false));
    assert!(transfer_allowed(9, 10, true));

    let w = transfer_writes(Some(10), None, 4, false).unwrap();
    assert_eq!(w, (4, 6));
    let e = transfer_writes(Some(3), None, 4, false);
    assert!(matches!(e, Err(BalanceTransferError::NoBalance)));
    let w = transfer_writes(None, Some(2), 4, true).unwrap();
    assert_eq!(w, (6, -4));
}

#[test]
fn builder_disabled_is_inactive() {
    let mut b = CurrencyBuilder::new(schema("t", "u", "b"));
    b.name = Some("points".to_string());
    b.db = Some(MemoryStore::new());
    assert!(matches!(b.build(), Built::Inactive));
}

#[test]
fn builder_builtin_needs_db_and_name() {
    let mut b = CurrencyBuilder::new(schema("t", "u", "b"));
    b.enabled = true;
    b.name = Some("points".to_string());
    assert!(matches!(b.build(), Built::Inactive));

    b.db = Some(MemoryStore::new());
    b.name = None;
    assert!(matches!(b.build(), Built::Inactive));

    b.name = Some("points".to_string());
    b.command_enabled = true;
    match b.build() {
        Built::Active(c) => {
            assert_eq!(c.name, "points");
            assert!(c.command_enabled);
        }
        _ => panic!("expected an active currency"),
    }
}

#[test]
fn builder_mysql_uses_configured_schema() {
    let mut b = CurrencyBuilder::new(schema("tbl", "usr", "bal"));
    b.ty = BackendType::Mysql;
    b.enabled = true;
    b.name = Some("points".to_string());
    assert!(matches!(b.build(), Built::Inactive));

    b.mysql_url = Some("mysql://db".to_string());
    match b.build() {
        Built::Remote(rc) => {
            assert_eq!(rc.name, "points");
            assert_eq!(rc.backend.url, "mysql://db");
            assert_eq!(rc.backend.channel, "");
            assert_eq!(rc.backend.schema.table, "tbl");
            assert_eq!(rc.backend.schema.user_column, "usr");
            assert_eq!(rc.backend.schema.balance_column, "bal");
        }
        _ => panic!("expected a remote currency"),
    }
}

#[test]
fn builder_honkos_uses_fixed_schema() {
    let mut b = CurrencyBuilder::new(schema("tbl", "usr", "bal"));
    b.ty = BackendType::Honkos;
    b.enabled = true;
    b.name = Some("honkos".to_string());
    b.mysql_url = Some("mysql://db".to_string());
    match b.build() {
        Built::Remote(rc) => {
            assert_eq!(rc.backend.schema.table, "honkos");
            assert_eq!(rc.backend.schema.user_column, "username");
            assert_eq!(rc.backend.schema.balance_column, "honko_balance");
        }
        _ => panic!("expected a remote currency"),
    }
}

#[test]
fn backend_type_default_is_builtin() {
    assert!(matches!(BackendType::default(), BackendType::BuiltIn));
}

#[test]
fn duration_and_watch_time() {
    assert_eq!(Duration::seconds(90).secs, 90);
    assert_eq!(Duration::default().secs, 0);

    let b = BalanceOf { balance: 1, watch_time: 90 };
    assert_eq!(b.watch_time().secs, 90);
    let b = BalanceOf { balance: 1, watch_time: -5 };
    assert_eq!(b.watch_time().secs, 0);
}

#[test]
fn record_checked_clamps_watch_time() {
    let b = currency_ledger::Balance {
        channel: "#chan".to_string(),
        user: "u".to_string(),
        amount: -3,
        watch_time: -7,
    };
    let c = b.checked();
    assert_eq!(c.amount, -3);
    assert_eq!(c.watch_time, 0);
    let d = clone_record(&c);
    assert_eq!(d.channel, "#chan");
    assert_eq!(d.user, "u");
    assert_eq!(d.amount, -3);
    assert_eq!(d.watch_time, 0);
}

#[test]
fn error_messages() {
    assert_eq!(Error::BackendError.message(), "backend error");
    assert_eq!(Error::NotConfigured.message(), "currency is not configured");
    assert_eq!(
        BalanceTransferError::NoBalance.message(),
        "missing balance for transfer"
    );
    let other = BalanceTransferError::from(Error::BackendError);
    assert_eq!(other.message(), "backend error");
}

#[test]
fn words_split_on_spaces() {
    assert_eq!(words("a b  c"), vec!["a", "b", "c"]);
    assert_eq!(words("  leading and trailing  "), vec!["leading", "and", "trailing"]);
    assert!(words("").is_empty());
    assert!(words("   ").is_empty());
    assert_eq!(join_spaced(&vec!["x".to_string(), "y".to_string()]), "x y");
}

#[test]
fn alias_unwrap_or_without_alias() {
    let alias = Alias { alias: None };
    assert_eq!(alias.unwrap_or("!currency boost"), "!currency boost");
}

#[test]
fn alias_unwrap_or_decodes() {
    let alias = Alias { alias: Some(("!c", "currency boost")) };
    assert_eq!(alias.unwrap_or("currency boost user 10"), "!c user 10");

    let alias = Alias { alias: Some(("!c", "currency boost extra words")) };
    assert_eq!(alias.unwrap_or("currency boost"), "!c");
}

#[test]
fn noop_system() {
    let sys = setup("/tmp/root", "/tmp/log").unwrap();
    assert!(sys.is_running());
    assert_eq!(sys.is_installed().unwrap(), true);
    sys.join().unwrap();
    sys.install().unwrap();
    sys.uninstall().unwrap();
    sys.clear();
    sys.error("nothing".to_string());
    sys.notification(Notification::new("title".to_string(), "body".to_string()));
}

#[test]
fn currency_keeps_name_through_operations() {
    let mut c = Currency::new("points".to_string(), false, MemoryStore::new());
    c.balance_add("chan", "u", 1).unwrap();
    let chatters = Chatters {
        viewers: vec!["u".to_string()],
        moderators: Vec::new(),
        broadcaster: Vec::new(),
    };
    c.add_channel_all("chan", chatters, 1, 0).unwrap();
    assert_eq!(c.name, "points");
    assert!(!c.command_enabled);
}

#[test]
fn builder_can_rebuild_and_copies_its_table() {
    let mut seed = Currency::new("seed".to_string(), false, MemoryStore::new());
    seed.balance_add("chan", "u", 42).unwrap();

    let mut b = CurrencyBuilder::new(schema("t", "u", "b"));
    b.enabled = true;
    b.name = Some("points".to_string());
    b.db = Some(MemoryStore::new());

    let mut first = match b.build() {
        Built::Active(c) => c,
        _ => panic!("expected an active currency"),
    };
    first.balance_add("chan", "u", 5).unwrap();

    // The builder still holds its table, and a second build starts from
    // that table, not from the first instance's mutations.
    let second = match b.build() {
        Built::Active(c) => c,
        _ => panic!("expected an active currency"),
    };
    assert!(second.balance_of("chan", "u").unwrap().is_none());
    assert_eq!(first.balance_of("chan", "u").unwrap().unwrap().balance, 5);
}
