use kikan::cookie::{cookie_name_matches, has_path_root, session_cookie_violates_path_root};

#[test]
fn cookie_name_matches_accepts_exact_leading_name() {
    assert!(cookie_name_matches("id=abc; Path=/; HttpOnly", "id"));
    assert!(cookie_name_matches(" id =abc; Path=/", "id"));
}

#[test]
fn cookie_name_matches_rejects_other_cookies() {
    assert!(!cookie_name_matches("csrf=token; Path=/", "id"));
    assert!(!cookie_name_matches("identify=value; Path=/", "id"));
}

#[test]
fn has_path_root_accepts_exact_root_path() {
    assert!(has_path_root("id=abc; Path=/; HttpOnly"));
    assert!(has_path_root("id=abc; HttpOnly; Path=/; SameSite=Lax"));
    assert!(has_path_root("id=abc; path=/"));
}

#[test]
fn has_path_root_rejects_scoped_paths() {
    assert!(!has_path_root("id=abc; Path=/admin; HttpOnly"));
    assert!(!has_path_root("id=abc; Path=/foo/; HttpOnly"));
    assert!(!has_path_root("id=abc; Path=/admin/; HttpOnly"));
}

#[test]
fn has_path_root_rejects_missing_path_attribute() {
    assert!(!has_path_root("id=abc; HttpOnly"));
    assert!(!has_path_root("id=abc"));
}

#[test]
fn has_path_root_uses_last_path_when_multiple_attributes_present() {
    assert!(has_path_root("id=abc; Path=/admin; Path=/; HttpOnly"));
}

#[test]
fn has_path_root_rejects_when_last_path_overrides_root() {
    assert!(!has_path_root("id=abc; Path=/; Path=/admin; HttpOnly"));
}

#[test]
fn cookie_name_without_equals_names_nothing() {
    assert!(!cookie_name_matches("id", "id"));
}

#[test]
fn has_path_root_trims_attribute_pieces() {
    assert!(has_path_root("id=abc;   PATH =  /  ; Secure"));
}

#[test]
fn session_cookie_violation_cases() {
    assert!(!session_cookie_violates_path_root("id=abc; Path=/; HttpOnly; SameSite=Lax"));
    assert!(session_cookie_violates_path_root("id=abc; Path=/admin; HttpOnly"));
    assert!(session_cookie_violates_path_root("id=abc; HttpOnly"));
    assert!(!session_cookie_violates_path_root("csrf=token; Path=/admin; HttpOnly"));
}

#[test]
fn appended_path_attribute_decides() {
    let prefixes = ["id=abc", "id=abc; Path=/admin", "id=abc; path=/x; Secure", ""];
    for p in prefixes {
        assert!(has_path_root(&format!("{p}; Path=/")));
        assert!(!has_path_root(&format!("{p}; Path=/admin")));
    }
}
