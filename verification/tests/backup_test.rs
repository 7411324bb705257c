use dep_updater::backup::{check_backups_exist, create_backups, is_backup_file,
    revert_changes, strip_backup_name, with_backup_suffix};
use dep_updater::ecosystem::Ecosystem;

#[test]
fn backup_suffix_appended() {
    assert_eq!(with_backup_suffix("Cargo.toml"), "Cargo.toml.backup");
}

#[test]
fn manifest_and_lock_backed_up_when_lock_exists() {
    let steps = create_backups(&Ecosystem::Cargo, true);
    assert_eq!(steps.len(), 2);
    assert_eq!(steps[0].src, "Cargo.toml");
    assert_eq!(steps[0].dst, "Cargo.toml.backup");
    assert_eq!(steps[1].src, "Cargo.lock");
    assert_eq!(steps[1].dst, "Cargo.lock.backup");
}

#[test]
fn only_manifest_backed_up_without_lock() {
    let steps = create_backups(&Ecosystem::Npm, false);
    assert_eq!(steps.len(), 1);
    assert_eq!(steps[0].src, "package.json");
    assert_eq!(steps[0].dst, "package.json.backup");
}

#[test]
fn composer_files_named_correctly() {
    let steps = create_backups(&Ecosystem::Composer, true);
    assert_eq!(steps[0].src, "composer.json");
    assert_eq!(steps[1].dst, "composer.lock.backup");
}

#[test]
fn backup_names_recognized() {
    assert!(is_backup_file("Cargo.toml.backup"));
    assert!(is_backup_file(".backup"));
    assert!(!is_backup_file("Cargo.toml"));
    assert!(!is_backup_file("backup"));
    assert!(!is_backup_file(""));
}

#[test]
fn backups_detected_in_listing() {
    let names = vec!["src".to_string(), "Cargo.toml".to_string(), "Cargo.toml.backup".to_string()];
    assert!(check_backups_exist(&names));
    let clean = vec!["src".to_string(), "Cargo.toml".to_string()];
    assert!(!check_backups_exist(&clean));
    let empty: Vec<String> = Vec::new();
    assert!(!check_backups_exist(&empty));
}

#[test]
fn revert_renames_each_backup_to_its_original() {
    let names = vec![
        "Cargo.toml.backup".to_string(),
        "Cargo.toml".to_string(),
        "package-lock.json.backup".to_string(),
    ];
    let plan = revert_changes(&names);
    assert_eq!(plan.len(), 2);
    assert_eq!(plan[0].from, "Cargo.toml.backup");
    assert_eq!(plan[0].to, "Cargo.toml");
    assert_eq!(plan[1].from, "package-lock.json.backup");
    assert_eq!(plan[1].to, "package-lock.json");
}

#[test]
fn repeated_suffixes_all_stripped() {
    assert_eq!(strip_backup_name("a.backup.backup"), "a");
    assert_eq!(strip_backup_name("a.backup"), "a");
    assert_eq!(strip_backup_name("a"), "a");
}

#[test]
fn ecosystem_names_and_commands() {
    assert_eq!(Ecosystem::Cargo.manifest_file(), "Cargo.toml");
    assert_eq!(Ecosystem::Npm.lock_file(), "package-lock.json");
    assert_eq!(Ecosystem::Composer.tool(), "composer");
    assert_eq!(Ecosystem::Cargo.update_args(false), vec!["update".to_string()]);
    assert_eq!(
        Ecosystem::Composer.update_args(true),
        vec!["update".to_string(), "-v".to_string()]
    );
    assert_eq!(
        Ecosystem::Npm.update_args(true),
        vec!["update".to_string(), "--verbose".to_string()]
    );
    assert!(Ecosystem::Cargo.outdated_args().is_none());
    assert_eq!(
        Ecosystem::Npm.outdated_args().unwrap(),
        vec!["outdated".to_string(), "--json".to_string()]
    );
    assert_eq!(
        Ecosystem::Composer.outdated_args().unwrap(),
        vec!["outdated".to_string(), "-D".to_string(), "--format=json".to_string()]
    );
}
