use kikan::slug::{derive_slug, Slug, SlugError, DERIVE_INPUT_BYTE_CAP, MAX_SLUG_LEN, RESERVED_SLUGS};

#[test]
fn new_accepts_valid_kebab_slug() {
    assert_eq!(
        Slug::new("acme-printing".to_string()).unwrap().as_str(),
        "acme-printing"
    );
}

#[test]
fn new_rejects_empty() {
    assert_eq!(Slug::new("".to_string()), Err(SlugError::Empty));
}

#[test]
fn new_rejects_over_max_len() {
    let s = "a".repeat(MAX_SLUG_LEN + 1);
    assert!(matches!(Slug::new(s), Err(SlugError::TooLong { .. })));
}

#[test]
fn new_rejects_reserved() {
    for name in RESERVED_SLUGS {
        assert!(
            matches!(Slug::new(name.to_string()), Err(SlugError::Reserved(_))),
            "expected `{name}` to be reserved"
        );
    }
}

#[test]
fn new_rejects_uppercase() {
    assert!(matches!(
        Slug::new("Acme".to_string()),
        Err(SlugError::InvalidChars(_))
    ));
}

#[test]
fn new_rejects_underscore() {
    assert!(matches!(
        Slug::new("acme_print".to_string()),
        Err(SlugError::InvalidChars(_))
    ));
}

#[test]
fn new_rejects_leading_hyphen() {
    assert!(matches!(
        Slug::new("-acme".to_string()),
        Err(SlugError::HyphenLayout(_))
    ));
}

#[test]
fn new_rejects_trailing_hyphen() {
    assert!(matches!(
        Slug::new("acme-".to_string()),
        Err(SlugError::HyphenLayout(_))
    ));
}

#[test]
fn new_rejects_double_hyphen() {
    assert!(matches!(
        Slug::new("acme--print".to_string()),
        Err(SlugError::HyphenLayout(_))
    ));
}

#[test]
fn from_str_round_trips_through_display() {
    let s = Slug::new("acme-printing".to_string()).unwrap();
    let s2: Slug = s.to_string().parse().unwrap();
    assert_eq!(s, s2);
}

#[test]
fn derive_slug_kebabs_whitespace() {
    assert_eq!(
        derive_slug("Acme Printing").unwrap().as_str(),
        "acme-printing"
    );
}

#[test]
fn derive_slug_ascii_lowercases() {
    assert_eq!(derive_slug("ACME").unwrap().as_str(), "acme");
}

#[test]
fn derive_slug_collapses_punctuation_runs_to_single_hyphen() {
    assert_eq!(derive_slug("Acme   &&  Co.").unwrap().as_str(), "acme-co");
}

#[test]
fn derive_slug_trims_leading_and_trailing_punctuation() {
    assert_eq!(derive_slug("--Acme--").unwrap().as_str(), "acme");
}

#[test]
fn derive_slug_drops_non_ascii_bytes() {
    assert_eq!(derive_slug("Café").unwrap().as_str(), "caf");
}

#[test]
fn derive_slug_rejects_empty_input() {
    assert!(matches!(
        derive_slug(""),
        Err(SlugError::Unparseable { .. })
    ));
}

#[test]
fn derive_slug_rejects_all_whitespace() {
    assert!(matches!(
        derive_slug("   \t\n"),
        Err(SlugError::Unparseable { .. })
    ));
}

#[test]
fn derive_slug_rejects_all_punctuation() {
    assert!(matches!(
        derive_slug("!!!"),
        Err(SlugError::Unparseable { .. })
    ));
}

#[test]
fn derive_slug_rejects_reserved_slugs() {
    assert!(matches!(
        derive_slug("Demo"),
        Err(SlugError::Reserved(s)) if s == "demo"
    ));
    assert!(matches!(
        derive_slug("META"),
        Err(SlugError::Reserved(s)) if s == "meta"
    ));
    assert!(matches!(
        derive_slug("sessions"),
        Err(SlugError::Reserved(s)) if s == "sessions"
    ));
}

#[test]
fn derive_slug_rejects_input_over_byte_cap_before_allocating() {
    let input = format!("{}acme", "a".repeat(DERIVE_INPUT_BYTE_CAP));
    let err = derive_slug(&input).unwrap_err();
    let SlugError::TooLong { len, max } = err else {
        panic!("expected TooLong, got {err:?}");
    };
    assert_eq!(len, input.len());
    assert_eq!(max, MAX_SLUG_LEN);
}

#[test]
fn derive_slug_accepts_input_at_byte_cap() {
    let input = "a".repeat(DERIVE_INPUT_BYTE_CAP);
    assert!(matches!(
        derive_slug(&input),
        Err(SlugError::TooLong { .. })
    ));
}

#[test]
fn derive_slug_rejects_over_length() {
    let input = "a".repeat(MAX_SLUG_LEN + 1);
    assert!(matches!(
        derive_slug(&input),
        Err(SlugError::TooLong { .. })
    ));
}

#[test]
fn derive_slug_accepts_max_length() {
    let input = "a".repeat(MAX_SLUG_LEN);
    assert_eq!(derive_slug(&input).unwrap().as_str(), input);
}

#[test]
fn derive_slug_preserves_digits() {
    assert_eq!(
        derive_slug("Shop 42 — Main").unwrap().as_str(),
        "shop-42-main"
    );
}

#[test]
fn derive_slug_is_idempotent_on_valid_slugs() {
    for s in ["acme", "acme-printing", "shop-42-main", "a1-b2-c3"] {
        let once = derive_slug(s).unwrap();
        assert_eq!(once.as_str(), s);
        let twice = derive_slug(once.as_str()).unwrap();
        assert_eq!(twice, once);
    }
}

#[test]
fn slug_text_reparses_to_same_slug() {
    let s = derive_slug("Best Shop in Town!").unwrap();
    assert_eq!(s.as_str(), "best-shop-in-town");
    let again = Slug::new(s.clone().into_inner()).unwrap();
    assert_eq!(again, s);
}

#[test]
fn new_reports_too_long_with_byte_length() {
    let s = "a".repeat(61);
    assert_eq!(
        Slug::new(s),
        Err(SlugError::TooLong { len: 61, max: 60 })
    );
}

#[test]
fn new_rejects_non_ascii_as_invalid_chars() {
    assert_eq!(
        Slug::new("café".to_string()),
        Err(SlugError::InvalidChars("café".to_string()))
    );
}

#[test]
fn new_accepts_digits_only() {
    assert_eq!(Slug::new("42".to_string()).unwrap().as_str(), "42");
}

#[test]
fn derive_slug_of_reserved_with_punctuation_is_reserved() {
    assert_eq!(
        derive_slug("  Sessions!! "),
        Err(SlugError::Reserved("sessions".to_string()))
    );
}

#[test]
fn derive_slug_unparseable_keeps_input() {
    assert_eq!(
        derive_slug("¡¿"),
        Err(SlugError::Unparseable { input: "¡¿".to_string() })
    );
}

#[test]
fn slug_as_ref_and_to_string_agree() {
    let s = Slug::new("acme".to_string()).unwrap();
    let r: &str = s.as_ref();
    assert_eq!(r, "acme");
    assert_eq!(s.to_string(), "acme");
}
