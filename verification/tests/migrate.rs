use item_repo::config::{Config, DatabaseConfig, WebConfig};
use item_repo::migrate::MigrationLedger;

#[test]
fn fresh_ledger_plans_every_available_migration() {
    let ledger = MigrationLedger::new();
    let available = vec![1u64, 2, 3];
    assert_eq!(ledger.plan(&available), vec![1, 2, 3]);
}

#[test]
fn plan_skips_recorded_migrations_and_keeps_order() {
    let mut ledger = MigrationLedger::new();
    ledger.record(1);
    ledger.record(3);
    let available = vec![1u64, 2, 3, 4];
    assert_eq!(ledger.plan(&available), vec![2, 4]);
}

#[test]
fn rerunning_a_current_schema_plans_nothing() {
    let mut ledger = MigrationLedger::new();
    let available = vec![1u64, 2, 3];
    for v in ledger.plan(&available) {
        ledger.record(v);
    }
    assert!(ledger.plan(&available).is_empty());
}

#[test]
fn record_then_is_applied() {
    let mut ledger = MigrationLedger::new();
    assert!(!ledger.is_applied(5));
    ledger.record(5);
    assert!(ledger.is_applied(5));
    assert!(!ledger.is_applied(6));
}

#[test]
fn config_keeps_its_parts() {
    let cfg = Config::new(
        DatabaseConfig { url: "postgres://localhost/items".to_owned() },
        WebConfig { addr: "127.0.0.1:8080".to_owned() },
    );
    assert_eq!(cfg.database.url, "postgres://localhost/items");
    assert_eq!(cfg.web.addr, "127.0.0.1:8080");
}
