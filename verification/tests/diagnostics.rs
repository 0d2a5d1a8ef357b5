use kikan::diagnostics::{
    daemon_diagnostics_text, local_diagnostics_text, AppInfo, DiagnosticsReport, OsInfo,
    ProfileDbInfo, RuntimeInfo, SystemInfo,
};
use kikan::setup::SetupMode;

fn report(full: bool) -> DiagnosticsReport {
    DiagnosticsReport {
        app: AppInfo {
            name: "mokumo".to_string(),
            version: "0.4.2".to_string(),
            build_commit: if full { Some("abc123".to_string()) } else { None },
        },
        runtime: RuntimeInfo {
            uptime_seconds: 3600,
            active_profile: SetupMode::Production,
            setup_complete: full,
            is_first_launch: !full,
            mdns_active: full,
            lan_url: if full { Some("http://mokumo.local:6565".to_string()) } else { None },
        },
        production_db: ProfileDbInfo {
            schema_version: 7,
            file_size_bytes: Some(2048 * 1024 + 5),
            wal_mode: true,
            wal_size_bytes: 4096,
            vacuum_needed: true,
        },
        demo_db: ProfileDbInfo {
            schema_version: 3,
            file_size_bytes: None,
            wal_mode: false,
            wal_size_bytes: 0,
            vacuum_needed: false,
        },
        os: OsInfo { family: "linux".to_string(), arch: "x86_64".to_string() },
        system: SystemInfo {
            hostname: if full { Some("shop-pc".to_string()) } else { None },
            used_memory_bytes: 3 * 1048576 + 1,
            total_memory_bytes: 16 * 1048576,
            disk_total_bytes: if full { Some(100 * 1048576) } else { None },
            disk_free_bytes: Some(5 * 1048576),
            disk_warning: true,
        },
    }
}

#[test]
fn daemon_summary_full() {
    let expected = "mokumo v0.4.2 (abc123)\n\
\n\
Runtime\n\
\x20 uptime:        3600s\n\
\x20 profile:       Production\n\
\x20 setup:         complete\n\
\x20 first launch:  false\n\
\x20 mDNS:          active\n\
\x20 LAN URL:       http://mokumo.local:6565\n\
\n\
Database (production)\n\
\x20 schema:        v7\n\
\x20 size:          2048 KB\n\
\x20 WAL:           enabled (4 KB pending)\n\
\x20 vacuum:        needed\n\
\n\
Database (demo)\n\
\x20 schema:        v3\n\
\x20 WAL:           disabled (clean)\n\
\n\
System\n\
\x20 hostname:      shop-pc\n\
\x20 OS:            linux (x86_64)\n\
\x20 memory:        3 / 16 MB\n\
\x20 disk:          5 / 100 MB free ⚠ LOW\n";
    assert_eq!(daemon_diagnostics_text(&report(true)), expected);
}

#[test]
fn daemon_summary_sparse() {
    let text = daemon_diagnostics_text(&report(false));
    assert!(text.starts_with("mokumo v0.4.2 (unknown commit)\n\nRuntime\n"));
    assert!(text.contains("  setup:         pending\n"));
    assert!(text.contains("  first launch:  true\n"));
    assert!(text.contains("  mDNS:          inactive\n"));
    assert!(!text.contains("LAN URL"));
    assert!(!text.contains("hostname"));
    assert!(!text.contains("disk:"));
}

#[test]
fn local_summary_full() {
    let expected = "mokumo v0.4.2 (abc123)\n\
\n\
Runtime\n\
\x20 profile:       Production\n\
\x20 setup:         complete\n\
\n\
Database (production)\n\
\x20 schema:        v7\n\
\x20 size:          2048 KB\n\
\x20 WAL:           enabled\n\
\x20 vacuum:        needed\n\
\n\
Database (demo)\n\
\x20 schema:        v3\n\
\x20 WAL:           disabled\n\
\n\
System\n\
\x20 hostname:      shop-pc\n\
\x20 OS:            linux (x86_64)\n\
\x20 memory:        3 / 16 MB\n\
\x20 disk:          5 / 100 MB free LOW\n";
    assert_eq!(local_diagnostics_text(&report(true)), expected);
}
