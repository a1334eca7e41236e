use yaml_backup::config::{
    backup_path, config_is_valid, config_line, resolve_backup_path, stored_backup_path,
};

#[test]
fn an_empty_answer_gives_the_default_root() {
    assert_eq!(stored_backup_path(None), None);
    assert_eq!(resolve_backup_path(""), "/tmp/yamlBackup");
}

#[test]
fn a_blank_answer_gives_the_default_root() {
    assert_eq!(resolve_backup_path("\n"), "/tmp/yamlBackup");
    assert_eq!(resolve_backup_path("  \t \r\n"), "/tmp/yamlBackup");
}

#[test]
fn an_answer_is_taken_without_the_white_space_round_it() {
    assert_eq!(resolve_backup_path("/srv/backup\n"), "/srv/backup");
    assert_eq!(resolve_backup_path("  /srv/my backup  "), "/srv/my backup");
    assert_eq!(resolve_backup_path("relative"), "relative");
}

#[test]
fn a_configuration_names_an_absolute_path() {
    assert!(config_is_valid("backupPath: /tmp/yamlBackup"));
    assert!(config_is_valid("backupPath: /a"));
    assert!(config_is_valid("backupPath: /a\nmore: lines\n"));
    assert!(config_is_valid("backupPath: / "));
    assert!(config_is_valid("backupPath: //"));
    assert!(config_is_valid("backupPath: /é"));
}

#[test]
fn a_configuration_without_such_a_path_is_not_taken() {
    assert!(!config_is_valid(""));
    assert!(!config_is_valid("backupPath: /"));
    assert!(!config_is_valid("backupPath: /\n"));
    assert!(!config_is_valid("backupPath: /\nx"));
    assert!(!config_is_valid("backupPath: tmp/yamlBackup"));
    assert!(!config_is_valid("backupPath:/tmp/yamlBackup"));
    assert!(!config_is_valid("backupPath:  /tmp/yamlBackup"));
    assert!(!config_is_valid(" backupPath: /tmp/yamlBackup"));
    assert!(!config_is_valid("\nbackupPath: /tmp/yamlBackup"));
    assert!(!config_is_valid("other: 1\nbackupPath: /tmp/yamlBackup"));
    assert!(!config_is_valid("backuppath: /tmp/yamlBackup"));
    assert!(!config_is_valid("backupPath"));
}

#[test]
fn the_root_is_what_follows_the_key_on_the_first_line() {
    assert_eq!(backup_path("backupPath: /tmp/yamlBackup"), Some("/tmp/yamlBackup".to_string()));
    assert_eq!(backup_path("backupPath: /srv/backup\n"), Some("/srv/backup".to_string()));
    assert_eq!(backup_path("backupPath: /srv/backup\r\nmore: 1\n"), Some("/srv/backup".to_string()));
    assert_eq!(backup_path("backupPath:   /srv/backup \t\nx"), Some("/srv/backup".to_string()));
    assert_eq!(backup_path("backupPath: "), Some(String::new()));
    assert_eq!(backup_path("backupPath: \n/next"), Some(String::new()));
}

#[test]
fn a_root_with_a_space_in_it_is_read_whole() {
    assert_eq!(backup_path("backupPath: /srv/my backup"), Some("/srv/my backup".to_string()));
    assert_eq!(
        backup_path("backupPath: /srv/my  own\tbackup \n"),
        Some("/srv/my  own\tbackup".to_string())
    );
    assert_eq!(
        stored_backup_path(Some("backupPath: /srv/my backup\n")),
        Some("/srv/my backup".to_string())
    );
}

#[test]
fn a_text_without_the_key_names_no_root() {
    assert_eq!(backup_path("a b c"), None);
    assert_eq!(backup_path("backupPath:"), None);
    assert_eq!(backup_path("backupPath:/srv"), None);
    assert_eq!(backup_path(" backupPath: /srv"), None);
    assert_eq!(backup_path("\nbackupPath: /srv"), None);
    assert_eq!(backup_path(""), None);
}

#[test]
fn a_root_without_white_space_is_the_second_word() {
    for data in ["backupPath: /tmp/yamlBackup", "backupPath: /a\n", "backupPath: /x/y/z\nrest here"] {
        let second = data.split_whitespace().nth(1).map(String::from);
        assert_eq!(backup_path(data), second);
    }
}

#[test]
fn the_stored_root_is_read_from_a_configuration_that_can_be_taken() {
    assert_eq!(
        stored_backup_path(Some("backupPath: /srv/backup\n")),
        Some("/srv/backup".to_string())
    );
    assert_eq!(stored_backup_path(Some("backupPath: relative")), None);
    assert_eq!(stored_backup_path(Some("")), None);
    assert_eq!(stored_backup_path(None), None);
}

#[test]
fn the_configuration_is_the_key_and_the_root() {
    assert_eq!(config_line("/tmp/yamlBackup"), "backupPath: /tmp/yamlBackup");
    assert_eq!(config_line(""), "backupPath: ");
}

#[test]
fn a_written_configuration_is_read_back() {
    for answer in [" /var/backups/yaml \n", "/srv/my backup\n", "", "  \n", "/a b/c d\r\n", "//"] {
        let root = resolve_backup_path(answer);
        let line = config_line(&root);
        assert!(config_is_valid(&line));
        assert_eq!(backup_path(&line), Some(root.clone()));
        assert_eq!(stored_backup_path(Some(&line)), Some(root));
    }
    let default = config_line(&resolve_backup_path(""));
    assert_eq!(stored_backup_path(Some(&default)), Some("/tmp/yamlBackup".to_string()));
}

#[test]
fn a_stored_root_begins_with_a_slash() {
    for data in ["backupPath: /a", "backupPath: / x", "backupPath: //\n", "backupPath: /é \nz"] {
        let root = stored_backup_path(Some(data)).unwrap();
        assert!(root.starts_with('/'));
    }
    assert_eq!(stored_backup_path(Some("backupPath: / x")), Some("/ x".to_string()));
    assert_eq!(stored_backup_path(Some("backupPath: /\tx")), Some("/\tx".to_string()));
}
