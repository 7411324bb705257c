use dep_updater::model::ManifestUpdate;
use dep_updater::php::{get_outdated_packages, update_composer};

#[test]
fn packages_not_up_to_date_resolve() {
    let stdout = "{\"installed\": [{\"name\": \"monolog/monolog\", \"version\": \"2.0.0\", \"latest\": \"3.5.0\", \"latest-status\": \"update-possible\"}]}";
    let report = get_outdated_packages(stdout);
    assert!(!report.parse_failed);
    assert_eq!(report.entries.len(), 1);
    assert_eq!(report.entries[0].name, "monolog/monolog");
    assert_eq!(report.entries[0].current, "2.0.0");
    assert_eq!(report.entries[0].latest, "3.5.0");
}

#[test]
fn up_to_date_marker_filters_a_package() {
    let stdout = "{\"installed\": [{\"name\": \"monolog/monolog\", \"version\": \"3.5.0\", \"latest\": \"3.5.0\", \"latest-status\": \"up-to-date\"}]}";
    let report = get_outdated_packages(stdout);
    assert!(!report.parse_failed);
    assert!(report.entries.is_empty());
}

#[test]
fn missing_versions_filter_a_package() {
    let stdout = "{\"installed\": [{\"name\": \"monolog/monolog\", \"latest-status\": \"update-possible\"}]}";
    let report = get_outdated_packages(stdout);
    assert!(!report.parse_failed);
    assert!(report.entries.is_empty());
}

#[test]
fn report_without_installed_list_resolves_to_nothing() {
    let report = get_outdated_packages("{\"locked\": []}");
    assert!(!report.parse_failed);
    assert!(report.entries.is_empty());
}

#[test]
fn composer_empty_report_resolves_to_nothing() {
    let report = get_outdated_packages("");
    assert!(!report.parse_failed);
    assert!(report.entries.is_empty());
}

#[test]
fn composer_garbage_report_warns() {
    let report = get_outdated_packages("<html>");
    assert!(report.parse_failed);
    assert!(report.entries.is_empty());
}

#[test]
fn require_sections_rewritten() {
    let manifest = "{\"require\": {\"monolog/monolog\": \"^2.0\"}, \"require-dev\": {\"phpunit/phpunit\": \"^9.0\"}}";
    let stdout = "{\"installed\": [\
        {\"name\": \"monolog/monolog\", \"version\": \"2.0.0\", \"latest\": \"3.5.0\", \"latest-status\": \"update-possible\"},\
        {\"name\": \"phpunit/phpunit\", \"version\": \"9.0.0\", \"latest\": \"10.0.0\", \"latest-status\": \"semver-safe-update\"}]}";
    let report = get_outdated_packages(stdout);
    match update_composer(manifest, &report.entries) {
        ManifestUpdate::Updated(u) => {
            assert_eq!(u.updates, 2);
            assert!(u.new_text.contains("\"monolog/monolog\": \"^3.5.0\""));
            assert!(u.new_text.contains("\"phpunit/phpunit\": \"^10.0.0\""));
        },
        _ => panic!("expected an update"),
    }
}

#[test]
fn composer_empty_outdated_set_means_nothing_to_do() {
    let manifest = "{\"require\": {\"monolog/monolog\": \"^2.0\"}}";
    let report = get_outdated_packages("");
    assert!(matches!(
        update_composer(manifest, &report.entries),
        ManifestUpdate::NothingOutdated
    ));
}

#[test]
fn absent_sections_change_nothing() {
    let manifest = "{\"name\": \"demo/demo\"}";
    let stdout = "{\"installed\": [{\"name\": \"monolog/monolog\", \"version\": \"2.0.0\", \"latest\": \"3.5.0\", \"latest-status\": \"update-possible\"}]}";
    let report = get_outdated_packages(stdout);
    assert!(matches!(update_composer(manifest, &report.entries), ManifestUpdate::NoChanges(_)));
}

#[test]
fn composer_object_entry_rewritten_in_version_field_only() {
    let manifest = "{\"require\": {\"monolog/monolog\": {\"version\": \"2.0.0\", \"extra\": \"x\"}}}";
    let stdout = "{\"installed\": [{\"name\": \"monolog/monolog\", \"version\": \"2.0.0\", \"latest\": \"3.5.0\", \"latest-status\": \"update-possible\"}]}";
    let report = get_outdated_packages(stdout);
    match update_composer(manifest, &report.entries) {
        ManifestUpdate::Updated(u) => {
            assert!(u.new_text.contains("\"version\": \"^3.5.0\""));
            assert!(u.new_text.contains("\"extra\": \"x\""));
        },
        _ => panic!("expected an update"),
    }
}
