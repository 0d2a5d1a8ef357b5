use kikan::migrations::{
    known_migration_names, login_lockout_down, login_lockout_up, meta_activity_log_up, set_pragmas_down, set_pragmas_up,
    uses_transaction, LOGIN_LOCKOUT_NAME, META_ACTIVITY_LOG_NAME, MOKUMO_APPLICATION_ID,
    SET_PRAGMAS_NAME,
};

#[test]
fn application_id_spells_mkmo() {
    assert_eq!(MOKUMO_APPLICATION_ID, 0x4D4B4D4F);
    assert_eq!(&MOKUMO_APPLICATION_ID.to_be_bytes()[4..], b"MKMO");
}

#[test]
fn set_pragmas_statements() {
    assert_eq!(
        set_pragmas_up(),
        vec!["PRAGMA application_id = 1296780623".to_string(), "PRAGMA user_version = 7".to_string()]
    );
    assert_eq!(
        set_pragmas_down(),
        vec!["PRAGMA application_id = 0".to_string(), "PRAGMA user_version = 6".to_string()]
    );
}

#[test]
fn login_lockout_statements() {
    let up = login_lockout_up();
    assert_eq!(up.len(), 3);
    assert!(up[0].contains("failed_login_attempts INTEGER NOT NULL DEFAULT 0"));
    assert_eq!(up[2], "PRAGMA user_version = 9");
    let down = login_lockout_down();
    assert_eq!(down.len(), 4);
    assert!(down[0].starts_with("CREATE TABLE users_backup AS SELECT"));
    assert!(!down[0].contains("locked_until"));
    assert_eq!(down[1], "DROP TABLE users");
    assert_eq!(down[3], "PRAGMA user_version = 8");
}

#[test]
fn meta_activity_log_statements() {
    let up = meta_activity_log_up();
    assert_eq!(up.len(), 3);
    assert!(up[0].starts_with("CREATE TABLE IF NOT EXISTS activity_log ("));
    assert_eq!(
        up[1],
        "CREATE INDEX IF NOT EXISTS idx_activity_log_entity ON activity_log(entity_type, entity_id)"
    );
    assert_eq!(
        up[2],
        "CREATE INDEX IF NOT EXISTS idx_activity_log_type ON activity_log(entity_type)"
    );
}

#[test]
fn migration_names_and_transactions() {
    assert_eq!(SET_PRAGMAS_NAME, "m20260404_000000_set_pragmas");
    assert_eq!(LOGIN_LOCKOUT_NAME, "m20260416_000000_login_lockout");
    assert_eq!(META_ACTIVITY_LOG_NAME, "m20260425_000003_create_meta_activity_log");
    assert!(uses_transaction());
}

#[test]
fn known_migration_names_in_declaration_order() {
    assert_eq!(
        known_migration_names(),
        vec![
            "m20260404_000000_set_pragmas".to_string(),
            "m20260416_000000_login_lockout".to_string(),
        ]
    );
}
