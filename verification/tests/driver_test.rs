use dep_updater::driver::{plan_run, DirScan, RunConfig};
use dep_updater::ecosystem::Ecosystem;

fn empty_scan() -> DirScan {
    DirScan {
        has_composer_manifest: false,
        composer_available: false,
        has_npm_manifest: false,
        npm_available: false,
        has_cargo_manifest: false,
        cargo_available: false,
        has_git_dir: false,
    }
}

#[test]
fn bare_directory_plans_nothing() {
    let config = RunConfig { backup: true, verbose: false, revert: false };
    let plan = plan_run(&config, &empty_scan());
    assert!(plan.run.is_empty());
    assert!(plan.skipped.is_empty());
    assert!(!plan.packages_found);
    assert!(!plan.ensure_ignore_file);
}

#[test]
fn present_manifests_run_in_fixed_order() {
    let config = RunConfig { backup: true, verbose: false, revert: false };
    let mut scan = empty_scan();
    scan.has_composer_manifest = true;
    scan.composer_available = true;
    scan.has_npm_manifest = true;
    scan.npm_available = true;
    scan.has_cargo_manifest = true;
    scan.cargo_available = true;
    let plan = plan_run(&config, &scan);
    assert_eq!(plan.run, vec![Ecosystem::Composer, Ecosystem::Npm, Ecosystem::Cargo]);
    assert!(plan.skipped.is_empty());
    assert!(plan.packages_found);
}

#[test]
fn missing_tool_skips_its_ecosystem() {
    let config = RunConfig { backup: true, verbose: false, revert: false };
    let mut scan = empty_scan();
    scan.has_npm_manifest = true;
    scan.has_composer_manifest = true;
    scan.composer_available = true;
    let plan = plan_run(&config, &scan);
    assert_eq!(plan.run, vec![Ecosystem::Composer]);
    assert_eq!(plan.skipped, vec![Ecosystem::Npm]);
    assert!(plan.packages_found);
}

#[test]
fn ignore_file_touched_only_with_backups_and_git() {
    let mut scan = empty_scan();
    scan.has_git_dir = true;
    let with_backup = RunConfig { backup: true, verbose: false, revert: false };
    assert!(plan_run(&with_backup, &scan).ensure_ignore_file);
    let without_backup = RunConfig { backup: false, verbose: false, revert: false };
    assert!(!plan_run(&without_backup, &scan).ensure_ignore_file);
    let no_git = RunConfig { backup: true, verbose: false, revert: false };
    assert!(!plan_run(&no_git, &empty_scan()).ensure_ignore_file);
}

#[test]
fn revert_run_processes_no_ecosystem() {
    let config = RunConfig { backup: true, verbose: false, revert: true };
    let mut scan = empty_scan();
    scan.has_cargo_manifest = true;
    scan.cargo_available = true;
    scan.has_git_dir = true;
    let plan = plan_run(&config, &scan);
    assert!(plan.run.is_empty());
    assert!(plan.skipped.is_empty());
    assert!(!plan.packages_found);
    assert!(!plan.ensure_ignore_file);
}
