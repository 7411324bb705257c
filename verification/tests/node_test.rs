use dep_updater::json_update::json_round_trip;
use dep_updater::model::ManifestUpdate;
use dep_updater::node::{get_outdated_packages, update_npm};

#[test]
fn report_rows_with_differing_versions_resolve() {
    let stdout = "{\"lodash\": {\"current\": \"3.9.0\", \"wanted\": \"3.10.1\", \"latest\": \"4.17.21\"}}";
    let report = get_outdated_packages(stdout);
    assert!(!report.parse_failed);
    assert_eq!(report.entries.len(), 1);
    assert_eq!(report.entries[0].name, "lodash");
    assert_eq!(report.entries[0].current, "3.9.0");
    assert_eq!(report.entries[0].latest, "4.17.21");
}

#[test]
fn equal_versions_are_not_outdated() {
    let stdout = "{\"lodash\": {\"current\": \"4.17.21\", \"latest\": \"4.17.21\"}}";
    let report = get_outdated_packages(stdout);
    assert!(!report.parse_failed);
    assert!(report.entries.is_empty());
}

#[test]
fn rows_missing_fields_are_skipped() {
    let stdout = "{\"lodash\": {\"wanted\": \"3.10.1\"}, \"underscore\": {\"current\": \"1.0.0\", \"latest\": \"1.13.6\"}}";
    let report = get_outdated_packages(stdout);
    assert!(!report.parse_failed);
    assert_eq!(report.entries.len(), 1);
    assert_eq!(report.entries[0].name, "underscore");
}

#[test]
fn empty_report_resolves_to_nothing() {
    let report = get_outdated_packages("");
    assert!(!report.parse_failed);
    assert!(report.entries.is_empty());
}

#[test]
fn garbage_report_warns_and_resolves_to_nothing() {
    let report = get_outdated_packages("not json at all");
    assert!(report.parse_failed);
    assert!(report.entries.is_empty());
}

#[test]
fn outdated_dependency_rewritten_in_manifest() {
    let manifest = "{\n  \"name\": \"demo\",\n  \"dependencies\": {\n    \"lodash\": \"^3.9.0\"\n  }\n}";
    let stdout = "{\"lodash\": {\"current\": \"3.9.0\", \"latest\": \"4.17.21\"}}";
    let report = get_outdated_packages(stdout);
    match update_npm(manifest, &report.entries) {
        ManifestUpdate::Updated(u) => {
            assert_eq!(u.updates, 1);
            assert!(u.new_text.contains("\"lodash\": \"^4.17.21\""));
            assert!(u.new_text.contains("\"name\": \"demo\""));
        },
        _ => panic!("expected an update"),
    }
}

#[test]
fn dev_dependencies_section_rewritten_too() {
    let manifest = "{\"devDependencies\": {\"mocha\": \"^9.0.0\"}}";
    let stdout = "{\"mocha\": {\"current\": \"9.0.0\", \"latest\": \"10.2.0\"}}";
    let report = get_outdated_packages(stdout);
    match update_npm(manifest, &report.entries) {
        ManifestUpdate::Updated(u) => {
            assert!(u.new_text.contains("\"mocha\": \"^10.2.0\""));
        },
        _ => panic!("expected an update"),
    }
}

#[test]
fn empty_outdated_set_means_nothing_to_do() {
    let manifest = "{\"dependencies\": {\"lodash\": \"^3.9.0\"}}";
    let report = get_outdated_packages("");
    assert!(matches!(update_npm(manifest, &report.entries), ManifestUpdate::NothingOutdated));
}

#[test]
fn outdated_package_absent_from_manifest_changes_nothing() {
    let manifest = "{\"dependencies\": {\"express\": \"^4.0.0\"}}";
    let stdout = "{\"lodash\": {\"current\": \"3.9.0\", \"latest\": \"4.17.21\"}}";
    let report = get_outdated_packages(stdout);
    assert!(matches!(update_npm(manifest, &report.entries), ManifestUpdate::NoChanges(_)));
}

#[test]
fn npm_malformed_manifest_fails_to_parse() {
    let stdout = "{\"lodash\": {\"current\": \"3.9.0\", \"latest\": \"4.17.21\"}}";
    let report = get_outdated_packages(stdout);
    assert!(matches!(
        update_npm("{\"dependencies\":", &report.entries),
        ManifestUpdate::ParseFailed(_)
    ));
}

#[test]
fn second_run_writes_identical_content() {
    let manifest = "{\"dependencies\": {\"lodash\": \"^3.9.0\"}}";
    let stdout = "{\"lodash\": {\"current\": \"3.9.0\", \"latest\": \"4.17.21\"}}";
    let report = get_outdated_packages(stdout);
    let first = match update_npm(manifest, &report.entries) {
        ManifestUpdate::Updated(u) => u.new_text,
        _ => panic!("expected an update"),
    };
    // With the tool's report held fixed the entry is rewritten again, to
    // the same constraint: the file's content does not change.
    let second = match update_npm(first.as_str(), &report.entries) {
        ManifestUpdate::Updated(u) => u.new_text,
        _ => panic!("expected an update"),
    };
    assert_eq!(second, first);
}

#[test]
fn round_trip_preserves_dependency_content() {
    let manifest = "{\"dependencies\": {\"lodash\": \"^3.9.0\", \"express\": \"^4.0.0\"}}";
    let round = json_round_trip(manifest).expect("manifest parses");
    assert!(round.contains("\"lodash\": \"^3.9.0\""));
    assert!(round.contains("\"express\": \"^4.0.0\""));
    // A pretty-printed document round-trips to itself.
    let twice = json_round_trip(round.as_str()).expect("rendered text parses");
    assert_eq!(twice, round);
}

#[test]
fn object_entry_rewritten_in_version_field_only() {
    let manifest = "{\"dependencies\": {\"lodash\": {\"version\": \"3.9.0\", \"optional\": true}}}";
    let stdout = "{\"lodash\": {\"current\": \"3.9.0\", \"latest\": \"4.17.21\"}}";
    let report = get_outdated_packages(stdout);
    match update_npm(manifest, &report.entries) {
        ManifestUpdate::Updated(u) => {
            assert_eq!(u.updates, 1);
            assert!(u.unsupported.is_empty());
            assert!(u.new_text.contains("\"version\": \"^4.17.21\""));
            assert!(u.new_text.contains("\"optional\": true"));
        },
        _ => panic!("expected an update"),
    }
}

#[test]
fn object_entry_without_version_is_reported_not_rewritten() {
    let manifest = "{\"dependencies\": {\"lodash\": {\"optional\": true}}}";
    let stdout = "{\"lodash\": {\"current\": \"3.9.0\", \"latest\": \"4.17.21\"}}";
    let report = get_outdated_packages(stdout);
    match update_npm(manifest, &report.entries) {
        ManifestUpdate::NoChanges(unsupported) => {
            assert_eq!(unsupported, vec!["lodash".to_string()]);
        },
        _ => panic!("expected no changes"),
    }
}

#[test]
fn non_string_entry_is_reported_not_rewritten() {
    let manifest = "{\"dependencies\": {\"lodash\": 42, \"underscore\": \"^1.0.0\"}}";
    let stdout = "{\"lodash\": {\"current\": \"3.9.0\", \"latest\": \"4.17.21\"}, \"underscore\": {\"current\": \"1.0.0\", \"latest\": \"1.13.6\"}}";
    let report = get_outdated_packages(stdout);
    match update_npm(manifest, &report.entries) {
        ManifestUpdate::Updated(u) => {
            assert_eq!(u.updates, 1);
            assert_eq!(u.unsupported, vec!["lodash".to_string()]);
            assert!(u.new_text.contains("\"lodash\": 42"));
            assert!(u.new_text.contains("\"underscore\": \"^1.13.6\""));
        },
        _ => panic!("expected an update"),
    }
}
