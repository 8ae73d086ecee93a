use hyprsechy::config::Config;

#[test]
fn test_filter_class() {
    let config = Config::default();
    assert!(config.should_ignore_class("Steam"));
    assert!(config.should_ignore_class("STEAM"));
    assert!(!config.should_ignore_class("Firefox"));
}

#[test]
fn default_settings() {
    let c = Config::default();
    assert_eq!(c.general.save_interval, 60);
    assert_eq!(c.general.backup_count, 5);
    assert!(c.general.auto_restore);
    assert!(!c.general.verbose_logging);
    assert!(c.uwsm.enabled);
    assert!(c.uwsm.track_systemd_units);
    assert!(!c.uwsm.preserve_unit_names);
    assert!(c.uwsm.launch_via_uwsm);
    assert!(c.walker.enabled);
    assert!(c.walker.sync_frequent_apps);
    assert_eq!(
        c.walker.desktop_entry_dirs,
        vec!["/usr/share/applications".to_string(), "~/.local/share/applications".to_string()]
    );
    assert!(c.restoration.wait_for_systemd_ready);
    assert_eq!(c.restoration.systemd_timeout_ms, 5000);
    assert!(c.restoration.prefer_desktop_entries);
    assert_eq!(
        c.filters.ignore_classes,
        vec!["steam".to_string(), "discord".to_string(), "hyprsechy".to_string()]
    );
    assert!(c.filters.ignore_workspaces.is_empty());
    assert!(c.commands.is_empty());
}

#[test]
fn config_and_session_paths() {
    assert_eq!(Config::config_path_in("/home/u/.config"), "/home/u/.config/hyprsechy/config.toml");
    assert_eq!(Config::data_dir_in("/home/u/.local/share"), "/home/u/.local/share/hyprsechy");
    let c = Config::default();
    assert_eq!(
        c.session_file_path_in("/home/u/.local/share"),
        "/home/u/.local/share/hyprsechy/session.json"
    );
    assert_eq!(c.backup_session_path_in("/d", 3), "/d/hyprsechy/session.backup.3.json");
    assert_eq!(c.backup_session_path_in("/d/", 12), "/d/hyprsechy/session.backup.12.json");
}

#[test]
fn paths_under_the_user_directories() {
    let c = Config::default();
    if let Ok(p) = Config::config_path() {
        assert!(p.ends_with("/hyprsechy/config.toml"));
    }
    if let Ok(p) = Config::data_dir() {
        assert!(p.ends_with("/hyprsechy"));
    }
    if let Ok(p) = c.session_file_path() {
        assert!(p.ends_with("/hyprsechy/session.json"));
    }
    if let Ok(p) = c.backup_session_path(2) {
        assert!(p.ends_with("/hyprsechy/session.backup.2.json"));
    }
}

#[test]
fn ignored_classes_match_regardless_of_case() {
    let mut c = Config::default();
    c.filters.ignore_classes = vec!["Discord".to_string()];
    assert!(c.should_ignore_class("discord"));
    assert!(c.should_ignore_class("DISCORD"));
    assert!(c.should_ignore_class("discordant"));
    assert!(!c.should_ignore_class("disco"));
    c.filters.ignore_classes = vec![];
    assert!(!c.should_ignore_class("steam"));
}

#[test]
fn ignored_workspaces() {
    let mut c = Config::default();
    assert!(!c.should_ignore_workspace(1));
    c.filters.ignore_workspaces = vec![3, -98];
    assert!(c.should_ignore_workspace(3));
    assert!(c.should_ignore_workspace(-98));
    assert!(!c.should_ignore_workspace(4));
}

#[test]
fn custom_commands_by_exact_class() {
    let mut c = Config::default();
    assert!(c.get_custom_command("kitty").is_none());
    c.commands = vec![
        ("kitty".to_string(), "kitty --single-instance".to_string()),
        ("firefox".to_string(), "firefox --new-window".to_string()),
    ];
    assert_eq!(c.get_custom_command("kitty").map(|s| s.as_str()), Some("kitty --single-instance"));
    assert_eq!(c.get_custom_command("firefox").map(|s| s.as_str()), Some("firefox --new-window"));
    assert!(c.get_custom_command("Kitty").is_none());
}

#[test]
fn backup_files_differ_from_each_other_and_from_the_session_file() {
    let c = Config::default();
    let session = c.session_file_path_in("/d");
    let mut seen: Vec<String> = Vec::new();
    for i in [0u32, 1, 2, 10, 11, 100, 4294967295] {
        let p = c.backup_session_path_in("/d", i);
        assert_ne!(p, session);
        assert!(!seen.contains(&p));
        seen.push(p);
    }
}

#[test]
fn custom_command_found_for_each_class() {
    let mut c = Config::default();
    c.commands = vec![
        ("kitty".to_string(), "kitty --single-instance".to_string()),
        ("firefox".to_string(), "firefox --new-window".to_string()),
    ];
    assert_eq!(c.get_custom_command("firefox").map(|s| s.as_str()), Some("firefox --new-window"));
    assert_eq!(c.get_custom_command("kitty").map(|s| s.as_str()), Some("kitty --single-instance"));
    assert_eq!(c.get_custom_command("foot"), None);
}
