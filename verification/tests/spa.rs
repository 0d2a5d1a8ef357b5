use kikan::spa::{cache_policy_for, disk_cache_control_for, embedded_serve, EmbeddedServe, SvelteKitSpaDir};

#[test]
fn cache_policy_long_for_immutable_assets() {
    assert_eq!(
        cache_policy_for("_app/immutable/chunks/app.js"),
        "public, max-age=31536000, immutable",
    );
}

#[test]
fn cache_policy_short_for_mutable_assets() {
    assert_eq!(cache_policy_for("favicon.ico"), "public, max-age=3600");
    assert_eq!(cache_policy_for("index.html"), "public, max-age=3600");
    assert_eq!(
        cache_policy_for("app/_app/immutable/x.js"),
        "public, max-age=3600",
    );
}

#[test]
fn disk_cache_control_not_found_is_no_store() {
    assert_eq!(disk_cache_control_for(true, "/_app/immutable/a.js", None), "no-store");
}

#[test]
fn disk_cache_control_immutable_beats_html() {
    assert_eq!(
        disk_cache_control_for(false, "/_app/immutable/a.js", Some("text/html")),
        "public, max-age=31536000, immutable"
    );
}

#[test]
fn disk_cache_control_html_shell_is_no_cache() {
    assert_eq!(
        disk_cache_control_for(false, "/orders/12", Some("text/html; charset=utf-8")),
        "no-cache"
    );
}

#[test]
fn disk_cache_control_other_assets_short_cache() {
    assert_eq!(
        disk_cache_control_for(false, "/favicon.ico", Some("image/x-icon")),
        "public, max-age=3600"
    );
    assert_eq!(disk_cache_control_for(false, "/robots.txt", None), "public, max-age=3600");
}

#[test]
fn embedded_serve_choices() {
    let (kind, status, cc) = embedded_serve(true, true, "_app/immutable/a.js");
    assert!(matches!(kind, EmbeddedServe::Asset));
    assert_eq!(status, 200);
    assert_eq!(cc, "public, max-age=31536000, immutable");
    let (kind, status, cc) = embedded_serve(false, true, "customers/7");
    assert!(matches!(kind, EmbeddedServe::Shell));
    assert_eq!(status, 200);
    assert_eq!(cc, "no-cache");
    let (kind, status, cc) = embedded_serve(false, false, "x");
    assert!(matches!(
        kind,
        EmbeddedServe::NotBuilt { content_type: "text/plain", body: "SPA not built. Run: moon run web:build" }
    ));
    assert_eq!(status, 404);
    assert_eq!(cc, "no-store");
}

#[test]
fn spa_dir_keeps_its_directory() {
    let d = SvelteKitSpaDir::new("/srv/web".to_string());
    assert_eq!(d.dir, "/srv/web");
}
