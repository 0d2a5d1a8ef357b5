use kikan::setup::{default_profile_from_active, SetupMode};

#[test]
fn roundtrip_display_parse() {
    for mode in [SetupMode::Demo, SetupMode::Production] {
        let s = mode.to_string();
        let parsed: SetupMode = s.parse().unwrap();
        assert_eq!(parsed, mode);
    }
}

#[test]
fn parse_case_insensitive() {
    assert_eq!("Demo".parse::<SetupMode>().unwrap(), SetupMode::Demo);
    assert_eq!(
        "PRODUCTION".parse::<SetupMode>().unwrap(),
        SetupMode::Production
    );
}

#[test]
fn parse_unknown_fails() {
    assert!("unknown".parse::<SetupMode>().is_err());
}

#[test]
fn as_dir_name_matches_profile_strings() {
    assert_eq!(SetupMode::Demo.as_dir_name(), "demo");
    assert_eq!(SetupMode::Production.as_dir_name(), "production");
}

#[test]
fn parse_trims_surrounding_whitespace() {
    assert_eq!(" demo\n".parse::<SetupMode>().unwrap(), SetupMode::Demo);
    assert_eq!("\tProduction ".parse::<SetupMode>().unwrap(), SetupMode::Production);
}

#[test]
fn parse_unknown_reports_lowercased_input() {
    assert_eq!(
        SetupMode::from_text("  Staging "),
        Err("unknown setup mode: staging".to_string())
    );
}

#[test]
fn as_str_and_to_string_agree() {
    assert_eq!(SetupMode::Demo.as_str(), "demo");
    assert_eq!(SetupMode::Production.to_string(), "production");
}

#[test]
fn default_profile_falls_back_to_demo() {
    assert_eq!(default_profile_from_active("production"), SetupMode::Production);
    assert_eq!(default_profile_from_active("demo\n"), SetupMode::Demo);
    assert_eq!(default_profile_from_active("garbage"), SetupMode::Demo);
    assert_eq!(default_profile_from_active(""), SetupMode::Demo);
}

#[test]
fn parse_agrees_up_to_case_and_padding() {
    for (a, b) in [(" DeMo ", "demo"), ("PRODUCTION\t", "production"), ("Nope", "NOPE ")] {
        assert_eq!(a.parse::<SetupMode>().ok(), b.parse::<SetupMode>().ok());
    }
}
