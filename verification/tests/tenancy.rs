use kikan::socket::{
    cleanup_failure_warns, not_a_socket_message, stale_path_action, StalePathAction, SOCKET_UMASK,
};
use kikan::db::sqlite_url_to_path;
use kikan::setup::SetupMode;
use kikan::shop::logo_info_from_row;
use kikan::server::{
    announces_mdns, backup_profile, bootstrap_password, lock_conflict_message, readonly_db_url,
    recovery_codes_file_text, serve_host, ServeMode, DEFAULT_PORT,
};
use kikan::tenancy::{admin_socket_path, profile_db_path, Tenancy};

#[test]
fn tenancy_keeps_data_dir() {
    let t = Tenancy::new("/var/lib/mokumo".to_string());
    assert_eq!(t.data_dir(), "/var/lib/mokumo");
}

#[test]
fn admin_socket_path_joins_like_path_join() {
    assert_eq!(admin_socket_path("/var/lib/mokumo"), "/var/lib/mokumo/admin.sock");
    assert_eq!(admin_socket_path("/var/lib/mokumo/"), "/var/lib/mokumo/admin.sock");
    assert_eq!(admin_socket_path(""), "admin.sock");
}

#[test]
fn profile_db_path_per_profile() {
    assert_eq!(
        profile_db_path("/data", SetupMode::Demo, "mokumo.db"),
        "/data/demo/mokumo.db"
    );
    assert_eq!(
        profile_db_path("/data/", SetupMode::Production, "mokumo.db"),
        "/data/production/mokumo.db"
    );
}

#[test]
fn backup_profile_choice() {
    assert_eq!(backup_profile(true, SetupMode::Demo), SetupMode::Production);
    assert_eq!(backup_profile(false, SetupMode::Demo), SetupMode::Demo);
    assert_eq!(backup_profile(false, SetupMode::Production), SetupMode::Production);
}

#[test]
fn bootstrap_password_trims_and_checks_length() {
    assert_eq!(bootstrap_password("  hunter22\n"), Ok("hunter22".to_string()));
    let refusal = bootstrap_password("1234567\n").unwrap_err();
    assert_eq!(refusal.message, "Password must be at least 8 characters");
    assert_eq!(refusal.exit_code, 1);
    assert!(bootstrap_password("   \n").is_err());
    assert_eq!(bootstrap_password("pässwörd"), Ok("pässwörd".to_string()));
}

#[test]
fn serve_hosts() {
    assert_eq!(serve_host(ServeMode::Lan), "0.0.0.0");
    assert_eq!(serve_host(ServeMode::Loopback), "127.0.0.1");
}

#[test]
fn sqlite_url_to_path_strips_scheme_and_query() {
    assert_eq!(sqlite_url_to_path("sqlite:///var/db/mokumo.db?mode=rwc"), "var/db/mokumo.db");
    assert_eq!(sqlite_url_to_path("sqlite://data/mokumo.db"), "data/mokumo.db");
    assert_eq!(sqlite_url_to_path("sqlite:mokumo.db?mode=rwc"), "mokumo.db");
    assert_eq!(sqlite_url_to_path("/plain/path.db"), "/plain/path.db");
    assert_eq!(sqlite_url_to_path("sqlite::memory:"), ":memory:");
}

#[test]
fn logo_info_requires_both_columns() {
    assert_eq!(
        logo_info_from_row(Some((Some("png".to_string()), Some(1_000_000)))),
        Some(("png".to_string(), 1_000_000))
    );
    assert_eq!(logo_info_from_row(Some((Some("png".to_string()), None))), None);
    assert_eq!(logo_info_from_row(Some((None, Some(5)))), None);
    assert_eq!(logo_info_from_row(None), None);
}

#[test]
fn mdns_only_on_lan() {
    assert!(announces_mdns(ServeMode::Lan));
    assert!(!announces_mdns(ServeMode::Loopback));
    assert_eq!(DEFAULT_PORT, 6565);
}

#[test]
fn lock_conflict_messages() {
    assert_eq!(
        lock_conflict_message(Some(6566)),
        "Another mokumo process is running (port 6566)."
    );
    assert_eq!(lock_conflict_message(None), "Another mokumo process is running.");
}

#[test]
fn recovery_codes_file_contents() {
    let codes = vec!["aaaa-bbbb".to_string(), "cccc-dddd".to_string()];
    assert_eq!(recovery_codes_file_text(&codes), "aaaa-bbbb\ncccc-dddd\n");
    assert_eq!(recovery_codes_file_text(&Vec::new()), "\n");
    assert_eq!(recovery_codes_file_text(&vec!["x".to_string()]), "x\n");
}

#[test]
fn readonly_url_for_diagnostics() {
    assert_eq!(readonly_db_url("/data/demo/mokumo.db"), "sqlite:/data/demo/mokumo.db?mode=ro");
}

#[test]
fn stale_socket_handling() {
    assert_eq!(SOCKET_UMASK, 0o177);
    assert_eq!(stale_path_action(false, false), StalePathAction::Bind);
    assert_eq!(stale_path_action(true, true), StalePathAction::RemoveThenBind);
    assert_eq!(stale_path_action(true, false), StalePathAction::Refuse);
    assert_eq!(
        not_a_socket_message("/data/admin.sock"),
        "/data/admin.sock exists but is not a Unix socket — refusing to overwrite"
    );
    assert!(cleanup_failure_warns(false));
    assert!(!cleanup_failure_warns(true));
}

#[test]
fn diagnostics_bundle_disposition() {
    assert_eq!(
        kikan::server::attachment_disposition("mokumo-diagnostics.zip"),
        "attachment; filename=\"mokumo-diagnostics.zip\""
    );
    assert_eq!(kikan::server::HEALTH_BODY, "ok");
}
