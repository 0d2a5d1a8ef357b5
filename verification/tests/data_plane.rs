use kikan::data_plane::{
    forwarded_ip_text, last_bind_port, next_bind_step, session_cookie_flags, BindOutcome, BindStep,
    DeploymentMode, ForwardedAction, ForwardedLayer, SameSite, STRIPPED_FORWARDED_HEADERS,
};

#[test]
fn only_reverse_proxy_trusts_forwarded_headers() {
    assert!(!DeploymentMode::Lan.trust_forwarded());
    assert!(!DeploymentMode::Internet.trust_forwarded());
    assert!(DeploymentMode::ReverseProxy.trust_forwarded());
    assert!(!ForwardedLayer::for_mode(DeploymentMode::Lan).trusts_forwarded());
    assert!(ForwardedLayer::for_mode(DeploymentMode::ReverseProxy).trusts_forwarded());
}

#[test]
fn lan_and_internet_strip_forwarded_headers() {
    for mode in [DeploymentMode::Lan, DeploymentMode::Internet] {
        let svc = ForwardedLayer::for_mode(mode).layer(());
        assert_eq!(svc.action_for(Some("203.0.113.7")), ForwardedAction::StripHeaders);
        assert_eq!(svc.action_for(None), ForwardedAction::StripHeaders);
    }
    assert!(STRIPPED_FORWARDED_HEADERS.contains(&"x-forwarded-for"));
}

#[test]
fn reverse_proxy_attaches_leftmost_entry() {
    let svc = ForwardedLayer::for_mode(DeploymentMode::ReverseProxy).layer(());
    assert_eq!(
        svc.action_for(Some("203.0.113.7, 10.0.0.1, 10.0.0.2")),
        ForwardedAction::AttachClientIp("203.0.113.7".to_string())
    );
    assert_eq!(svc.action_for(None), ForwardedAction::PassThrough);
}

#[test]
fn forwarded_ip_text_cases() {
    assert_eq!(forwarded_ip_text("203.0.113.7"), "203.0.113.7");
    assert_eq!(forwarded_ip_text(" 203.0.113.7 , 10.0.0.1"), "203.0.113.7");
    assert_eq!(forwarded_ip_text("[2001:db8::1]:4443"), "2001:db8::1");
    assert_eq!(forwarded_ip_text("[2001:db8::1]"), "2001:db8::1");
    assert_eq!(forwarded_ip_text("198.51.100.4:8080"), "198.51.100.4");
    assert_eq!(forwarded_ip_text("not-an-ip"), "not-an-ip");
    assert_eq!(forwarded_ip_text("2001:db8::1"), "2001:db8::1");
    assert_eq!(forwarded_ip_text(" ::1 , 10.0.0.1"), "::1");
    assert_eq!(forwarded_ip_text(""), "");
}

#[test]
fn forwarded_service_keeps_inner() {
    let mut svc = ForwardedLayer::for_mode(DeploymentMode::Lan).layer(5u32);
    assert_eq!(*svc.inner_mut(), 5);
    *svc.inner_mut() = 9;
    assert_eq!(*svc.inner_mut(), 9);
}

#[test]
fn session_cookie_flags_per_mode() {
    let lan = session_cookie_flags(DeploymentMode::Lan);
    assert!(!lan.secure);
    assert_eq!(lan.same_site, SameSite::Lax);
    assert!(lan.http_only);
    assert_eq!(lan.inactivity_hours, 24);
    for mode in [DeploymentMode::Internet, DeploymentMode::ReverseProxy] {
        let f = session_cookie_flags(mode);
        assert!(f.secure);
        assert_eq!(f.same_site, SameSite::Strict);
    }
}

#[test]
fn bind_port_range_saturates() {
    assert_eq!(last_bind_port(6565), 6575);
    assert_eq!(last_bind_port(65530), 65535);
    assert_eq!(last_bind_port(65535), 65535);
}

#[test]
fn bind_steps() {
    assert_eq!(next_bind_step(6565, 6575, BindOutcome::Bound), BindStep::Listening);
    assert_eq!(next_bind_step(6565, 6575, BindOutcome::AddrInUse), BindStep::Try(6566));
    assert_eq!(next_bind_step(6575, 6575, BindOutcome::AddrInUse), BindStep::Exhausted);
    assert_eq!(next_bind_step(6570, 6575, BindOutcome::OtherError), BindStep::Fail);
}

#[test]
fn later_forwarded_entries_never_matter() {
    for rest in ["", "10.0.0.1", " [::1]:80, 1.2.3.4", "garbage,,,"] {
        assert_eq!(
            forwarded_ip_text(&format!("203.0.113.7,{rest}")),
            forwarded_ip_text("203.0.113.7")
        );
    }
}
