use dep_updater::version::{caret_constraint, extract_version, is_up_to_date};

#[test]
fn strips_caret_prefix() {
    assert_eq!(extract_version("^1.2.3"), "1.2.3");
}

#[test]
fn strips_tilde_prefix() {
    assert_eq!(extract_version("~1.0"), "1.0");
}

#[test]
fn strips_equals_prefix() {
    assert_eq!(extract_version("=2.0.0"), "2.0.0");
}

#[test]
fn strips_leading_space() {
    assert_eq!(extract_version(" 1.0"), "1.0");
}

#[test]
fn strips_repeated_prefixes_in_order() {
    assert_eq!(extract_version("^^~1.0"), "1.0");
    // The kinds are stripped in a fixed order, so a caret behind a tilde
    // stays.
    assert_eq!(extract_version("~^1.0"), "^1.0");
}

#[test]
fn plain_version_unchanged() {
    assert_eq!(extract_version("1.0.190"), "1.0.190");
    assert_eq!(extract_version(""), "");
}

#[test]
fn up_to_date_is_string_equality() {
    assert!(is_up_to_date("1.0.190", "1.0.190"));
    assert!(!is_up_to_date("1.0.0", "1.0.190"));
    assert!(!is_up_to_date("1.0", "1.0.0"));
}

#[test]
fn caret_constraint_prefixes_a_caret() {
    assert_eq!(caret_constraint("1.0.190"), "^1.0.190");
    assert_eq!(caret_constraint(""), "^");
}
