//! The SQL each schema migration runs, in order; the migration runner
//! executes the statements one by one inside a transaction.
use vstd::prelude::*;
use vstd::string::StringExecFns;
use crate::calendar::{decimal, push_decimal};

verus! {

/// `PRAGMA application_id` of a Mokumo database: "MKMO" read as a
/// big-endian 32-bit integer (0x4D4B4D4F).
pub const MOKUMO_APPLICATION_ID: u64 = 1296780623;

/// Name of the migration that stamps the application id and schema version.
pub const SET_PRAGMAS_NAME: &'static str = "m20260404_000000_set_pragmas";

/// Name of the migration that adds the login-lockout columns.
pub const LOGIN_LOCKOUT_NAME: &'static str = "m20260416_000000_login_lockout";

/// Name of the platform migration that creates the install-level activity
/// log.
pub const META_ACTIVITY_LOG_NAME: &'static str = "m20260425_000003_create_meta_activity_log";

/// The views of a list of statements.
pub open spec fn statement_texts(v: Seq<String>) -> Seq<Seq<char>> {
    v.map_values(|s: String| s@)
}

/// Every migration here runs inside a transaction.
pub fn uses_transaction() -> (r: bool)
    ensures
        r,
{
    true
}

/// Statements that stamp a database as Mokumo's at schema version 7.
pub fn set_pragmas_up() -> (r: Vec<String>)
    ensures
        statement_texts(r@) == seq![
            "PRAGMA application_id = "@ + decimal(MOKUMO_APPLICATION_ID as nat),
            "PRAGMA user_version = 7"@,
        ],
{
    let mut stamp = String::from_str("PRAGMA application_id = ");
    push_decimal(&mut stamp, MOKUMO_APPLICATION_ID);
    let mut r: Vec<String> = Vec::new();
    r.push(stamp);
    r.push(String::from_str("PRAGMA user_version = 7"));
    assert(statement_texts(r@) =~= seq![
        "PRAGMA application_id = "@ + decimal(MOKUMO_APPLICATION_ID as nat),
        "PRAGMA user_version = 7"@,
    ]);
    r
}

/// Statements that clear the stamp and step back to schema version 6.
pub fn set_pragmas_down() -> (r: Vec<String>)
    ensures
        statement_texts(r@) == seq!["PRAGMA application_id = 0"@, "PRAGMA user_version = 6"@],
{
    let mut r: Vec<String> = Vec::new();
    r.push(String::from_str("PRAGMA application_id = 0"));
    r.push(String::from_str("PRAGMA user_version = 6"));
    assert(statement_texts(r@) =~= seq![
        "PRAGMA application_id = 0"@,
        "PRAGMA user_version = 6"@,
    ]);
    r
}

/// Statements that add the failed-login counter (default 0) and the
/// lock-expiry timestamp (default NULL) to `users`, at schema version 9.
pub fn login_lockout_up() -> (r: Vec<String>)
    ensures
        statement_texts(r@) == seq![
            "ALTER TABLE users ADD COLUMN failed_login_attempts INTEGER NOT NULL DEFAULT 0"@,
            "ALTER TABLE users ADD COLUMN locked_until TEXT NULL"@,
            "PRAGMA user_version = 9"@,
        ],
{
    let mut r: Vec<String> = Vec::new();
    r.push(
        String::from_str(
            "ALTER TABLE users ADD COLUMN failed_login_attempts INTEGER NOT NULL DEFAULT 0",
        ),
    );
    r.push(String::from_str("ALTER TABLE users ADD COLUMN locked_until TEXT NULL"));
    r.push(String::from_str("PRAGMA user_version = 9"));
    assert(statement_texts(r@) =~= seq![
        "ALTER TABLE users ADD COLUMN failed_login_attempts INTEGER NOT NULL DEFAULT 0"@,
        "ALTER TABLE users ADD COLUMN locked_until TEXT NULL"@,
        "PRAGMA user_version = 9"@,
    ]);
    r
}

/// Statements that rebuild `users` without the lockout columns (older
/// SQLite cannot drop them), at schema version 8.
pub fn login_lockout_down() -> (r: Vec<String>)
    ensures
        statement_texts(r@) == seq![
            "CREATE TABLE users_backup AS SELECT
                id, email, name, password_hash, role_id, is_active,
                last_login_at, recovery_code_hash, created_at, updated_at, deleted_at
             FROM users"@,
            "DROP TABLE users"@,
            "ALTER TABLE users_backup RENAME TO users"@,
            "PRAGMA user_version = 8"@,
        ],
{
    let mut r: Vec<String> = Vec::new();
    r.push(
        String::from_str(
            "CREATE TABLE users_backup AS SELECT
                id, email, name, password_hash, role_id, is_active,
                last_login_at, recovery_code_hash, created_at, updated_at, deleted_at
             FROM users",
        ),
    );
    r.push(String::from_str("DROP TABLE users"));
    r.push(String::from_str("ALTER TABLE users_backup RENAME TO users"));
    r.push(String::from_str("PRAGMA user_version = 8"));
    assert(statement_texts(r@) =~= seq![
        "CREATE TABLE users_backup AS SELECT
                id, email, name, password_hash, role_id, is_active,
                last_login_at, recovery_code_hash, created_at, updated_at, deleted_at
             FROM users"@,
        "DROP TABLE users"@,
        "ALTER TABLE users_backup RENAME TO users"@,
        "PRAGMA user_version = 8"@,
    ]);
    r
}

/// Statements that create the install-level `activity_log` table and its
/// two indexes, each only if absent.
pub fn meta_activity_log_up() -> (r: Vec<String>)
    ensures
        statement_texts(r@) == seq![
            "CREATE TABLE IF NOT EXISTS activity_log (
                id INTEGER PRIMARY KEY AUTOINCREMENT,
                entity_type TEXT NOT NULL,
                entity_id TEXT NOT NULL,
                action TEXT NOT NULL,
                actor_id TEXT NOT NULL DEFAULT 'system',
                actor_type TEXT NOT NULL DEFAULT 'system',
                payload TEXT NOT NULL,
                created_at TEXT NOT NULL DEFAULT (strftime('%Y-%m-%dT%H:%M:%SZ', 'now'))
            )"@,
            "CREATE INDEX IF NOT EXISTS idx_activity_log_entity ON activity_log(entity_type, entity_id)"@,
            "CREATE INDEX IF NOT EXISTS idx_activity_log_type ON activity_log(entity_type)"@,
        ],
{
    let mut r: Vec<String> = Vec::new();
    r.push(
        String::from_str(
            "CREATE TABLE IF NOT EXISTS activity_log (
                id INTEGER PRIMARY KEY AUTOINCREMENT,
                entity_type TEXT NOT NULL,
                entity_id TEXT NOT NULL,
                action TEXT NOT NULL,
                actor_id TEXT NOT NULL DEFAULT 'system',
                actor_type TEXT NOT NULL DEFAULT 'system',
                payload TEXT NOT NULL,
                created_at TEXT NOT NULL DEFAULT (strftime('%Y-%m-%dT%H:%M:%SZ', 'now'))
            )",
        ),
    );
    r.push(
        String::from_str(
            "CREATE INDEX IF NOT EXISTS idx_activity_log_entity ON activity_log(entity_type, entity_id)",
        ),
    );
    r.push(
        String::from_str(
            "CREATE INDEX IF NOT EXISTS idx_activity_log_type ON activity_log(entity_type)",
        ),
    );
    assert(statement_texts(r@) =~= seq![
        "CREATE TABLE IF NOT EXISTS activity_log (
                id INTEGER PRIMARY KEY AUTOINCREMENT,
                entity_type TEXT NOT NULL,
                entity_id TEXT NOT NULL,
                action TEXT NOT NULL,
                actor_id TEXT NOT NULL DEFAULT 'system',
                actor_type TEXT NOT NULL DEFAULT 'system',
                payload TEXT NOT NULL,
                created_at TEXT NOT NULL DEFAULT (strftime('%Y-%m-%dT%H:%M:%SZ', 'now'))
            )"@,
        "CREATE INDEX IF NOT EXISTS idx_activity_log_entity ON activity_log(entity_type, entity_id)"@,
        "CREATE INDEX IF NOT EXISTS idx_activity_log_type ON activity_log(entity_type)"@,
    ]);
    r
}

/// Names of the shop-database migrations defined here, in declaration
/// order, as the `migrate status` listing compares them with those applied.
pub fn known_migration_names() -> (r: Vec<String>)
    ensures
        statement_texts(r@) == seq![SET_PRAGMAS_NAME@, LOGIN_LOCKOUT_NAME@],
{
    let mut r: Vec<String> = Vec::new();
    r.push(String::from_str(SET_PRAGMAS_NAME));
    r.push(String::from_str(LOGIN_LOCKOUT_NAME));
    assert(statement_texts(r@) =~= seq![SET_PRAGMAS_NAME@, LOGIN_LOCKOUT_NAME@]);
    r
}

} // verus!
