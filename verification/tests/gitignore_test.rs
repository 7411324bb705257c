use dep_updater::gitignore::{ensure_backups_in_gitignore, has_backup_line};

#[test]
fn pattern_added_to_empty_contents() {
    assert_eq!(ensure_backups_in_gitignore(""), "*.backup\n");
}

#[test]
fn pattern_appended_after_existing_entries() {
    assert_eq!(
        ensure_backups_in_gitignore("node_modules/\ntarget/\n"),
        "node_modules/\ntarget/\n*.backup\n"
    );
}

#[test]
fn missing_final_newline_is_supplied() {
    assert_eq!(
        ensure_backups_in_gitignore("node_modules/"),
        "node_modules/\n*.backup\n"
    );
}

#[test]
fn contents_with_pattern_unchanged() {
    let contents = "node_modules/\n*.backup\ntarget/\n";
    assert_eq!(ensure_backups_in_gitignore(contents), contents);
}

#[test]
fn updater_is_idempotent() {
    let once = ensure_backups_in_gitignore("node_modules/");
    let twice = ensure_backups_in_gitignore(once.as_str());
    assert_eq!(twice, once);
    assert_eq!(once.matches("*.backup").count(), 1);
}

#[test]
fn pattern_recognized_behind_carriage_return() {
    assert!(has_backup_line("node_modules/\r\n*.backup\r\ntarget/\r\n"));
    let contents = "*.backup\r\n";
    assert_eq!(ensure_backups_in_gitignore(contents), contents);
}

#[test]
fn similar_lines_do_not_count() {
    assert!(!has_backup_line("x*.backup\n"));
    assert!(!has_backup_line("*.backups\n"));
    assert!(has_backup_line("*.backup"));
}
