use dep_updater::cargo::{toml_round_trip, update_cargo};
use dep_updater::model::ManifestUpdate;
use dep_updater::reference::reference_table;

#[test]
fn outdated_bare_entry_rewritten_to_caret() {
    let manifest = "[package]\nname = \"demo\"\n\n[dependencies]\nserde = \"1.0.0\"\n";
    let table = reference_table();
    match update_cargo(manifest, &table) {
        ManifestUpdate::Updated(u) => {
            assert_eq!(u.updates, 1);
            assert!(u.unsupported.is_empty());
            assert!(u.new_text.contains("serde = \"^1.0.190\""));
            assert!(u.new_text.contains("name = \"demo\""));
        },
        _ => panic!("expected an update"),
    }
}

#[test]
fn table_entry_keeps_sibling_fields() {
    let manifest = "[dependencies.serde]\nversion = \"1.0.0\"\nfeatures = [\"derive\"]\n";
    let table = reference_table();
    match update_cargo(manifest, &table) {
        ManifestUpdate::Updated(u) => {
            assert!(u.new_text.contains("version = \"^1.0.190\""));
            assert!(u.new_text.contains("features = [\"derive\"]"));
        },
        _ => panic!("expected an update"),
    }
}

#[test]
fn inline_table_entry_is_not_resolved() {
    // An inline table is not one of the two supported declaration shapes,
    // so its version is never read and the entry is never flagged.
    let manifest = "[dependencies]\nserde = { version = \"1.0.0\" }\n";
    let table = reference_table();
    assert!(matches!(update_cargo(manifest, &table), ManifestUpdate::NothingOutdated));
}

#[test]
fn dev_dependencies_are_updated_too() {
    let manifest = "[dev-dependencies]\ntempfile = \"3.0.0\"\n";
    let table = reference_table();
    match update_cargo(manifest, &table) {
        ManifestUpdate::Updated(u) => {
            assert!(u.new_text.contains("tempfile = \"^3.8.1\""));
        },
        _ => panic!("expected an update"),
    }
}

#[test]
fn up_to_date_manifest_reports_nothing_outdated() {
    let manifest = "[dependencies]\nserde = \"1.0.190\"\n";
    let table = reference_table();
    assert!(matches!(update_cargo(manifest, &table), ManifestUpdate::NothingOutdated));
}

#[test]
fn missing_sections_report_nothing_outdated() {
    let manifest = "[package]\nname = \"demo\"\nversion = \"0.1.0\"\n";
    let table = reference_table();
    assert!(matches!(update_cargo(manifest, &table), ManifestUpdate::NothingOutdated));
}

#[test]
fn unknown_packages_are_never_flagged() {
    let manifest = "[dependencies]\nleft-pad = \"0.0.1\"\n";
    let table = reference_table();
    assert!(matches!(update_cargo(manifest, &table), ManifestUpdate::NothingOutdated));
}

#[test]
fn unsupported_shape_is_reported_not_rewritten() {
    // `serde` is outdated through the first section; in the second it
    // stands in a shape the patcher does not rewrite.
    let manifest = "[dependencies]\nserde = \"1.0.0\"\n\n[dev-dependencies]\nserde = [1]\n";
    let table = reference_table();
    match update_cargo(manifest, &table) {
        ManifestUpdate::Updated(u) => {
            assert_eq!(u.updates, 1);
            assert_eq!(u.unsupported, vec!["serde".to_string()]);
            assert!(u.new_text.contains("serde = \"^1.0.190\""));
            assert!(u.new_text.contains("serde = [1]"));
        },
        _ => panic!("expected an update"),
    }
}

#[test]
fn malformed_manifest_fails_to_parse() {
    let table = reference_table();
    assert!(matches!(update_cargo("[dependencies\nserde", &table), ManifestUpdate::ParseFailed(_)));
}

#[test]
fn second_run_changes_nothing() {
    let manifest = "[dependencies]\nserde = \"1.0.0\"\nclap = { version = \"4.0.0\" }\n";
    let table = reference_table();
    let first = match update_cargo(manifest, &table) {
        ManifestUpdate::Updated(u) => u.new_text,
        _ => panic!("expected an update"),
    };
    assert!(matches!(update_cargo(first.as_str(), &table), ManifestUpdate::NothingOutdated));
}

#[test]
fn round_trip_preserves_text() {
    let manifest = "# top comment\n[dependencies]\nserde = \"1.0.0\" # pinned\n\n[features]\nextra = []\n";
    let round = toml_round_trip(manifest).expect("manifest parses");
    assert_eq!(round, manifest);
}

#[test]
fn round_trip_rejects_invalid_text() {
    assert!(toml_round_trip("= nonsense").is_none());
}

#[test]
fn table_without_version_is_reported_not_rewritten() {
    // `serde` is outdated through the first section; in the second it is a
    // table without a usable `version` field, which is not a supported
    // shape.
    let manifest = "[dependencies]\nserde = \"1.0.0\"\n\n[dev-dependencies.serde]\nworkspace = true\n";
    let table = reference_table();
    match update_cargo(manifest, &table) {
        ManifestUpdate::Updated(u) => {
            assert_eq!(u.updates, 1);
            assert_eq!(u.unsupported, vec!["serde".to_string()]);
            assert!(u.new_text.contains("serde = \"^1.0.190\""));
            assert!(u.new_text.contains("workspace = true"));
        },
        _ => panic!("expected an update"),
    }
}
