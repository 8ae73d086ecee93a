use hyprsechy::config::Config;
use hyprsechy::tui::{App, EditorAction, Key};

fn values(app: &App) -> Vec<(String, String, String)> {
    let mut out = Vec::new();
    for s in &app.sections {
        for i in &s.items {
            out.push((s.name.clone(), i.key.clone(), i.value.clone()));
        }
    }
    out
}

#[test]
fn shows_the_configuration() {
    let mut config = Config::default();
    config.filters.ignore_workspaces = vec![3, -7];
    let app = App::new(config);
    let v = values(&app);
    assert_eq!(v.len(), 11);
    assert_eq!(v[0], ("General".to_string(), "auto_restore".to_string(), "true".to_string()));
    assert_eq!(v[1].2, "60");
    assert_eq!(v[2].2, "5");
    assert_eq!(v[3].2, "false");
    assert_eq!(v[4], ("UWSM".to_string(), "enabled".to_string(), "true".to_string()));
    assert_eq!(v[8], (
        "Walker".to_string(),
        "desktop_dirs".to_string(),
        "/usr/share/applications, ~/.local/share/applications".to_string()
    ));
    assert_eq!(v[9].2, "steam, discord, hyprsechy");
    assert_eq!(v[10], ("Filters".to_string(), "ignore_workspaces".to_string(), "3, -7".to_string()));
    assert_eq!(app.sections[0].items[1].description, "Interval between automatic saves (seconds)");
    assert_eq!(app.selected, Some(0));
    assert!(app.editing.is_none());
    assert!(!app.modified);
    assert!(!app.show_help);
    assert_eq!(app.status_message, "Use ↑/↓ to navigate, Enter to edit, 's' to save, 'q' to quit, '?' for help");
    assert_eq!(app.get_total_items(), 15);
}

#[test]
fn navigation_wraps_around() {
    let mut app = App::new(Config::default());
    app.previous_item();
    assert_eq!(app.selected, Some(14));
    app.next_item();
    assert_eq!(app.selected, Some(0));
    app.next_item();
    app.next_item();
    assert_eq!(app.selected, Some(2));
    app.previous_item();
    app.next_item();
    assert_eq!(app.selected, Some(2));
    app.selected = None;
    app.next_item();
    assert_eq!(app.selected, Some(1));
}

#[test]
fn rows_map_to_items() {
    let mut app = App::new(Config::default());
    assert_eq!(app.get_current_item(), None);
    app.selected = Some(1);
    assert_eq!(app.get_current_item(), Some((0, 0)));
    app.selected = Some(5);
    assert_eq!(app.get_current_item(), None);
    app.selected = Some(6);
    assert_eq!(app.get_current_item(), Some((1, 0)));
    app.selected = Some(14);
    assert_eq!(app.get_current_item(), Some((3, 1)));
    app.selected = Some(15);
    assert_eq!(app.get_current_item(), None);
    app.selected = None;
    assert_eq!(app.get_current_item(), None);
}

#[test]
fn editing_a_value() {
    let mut app = App::new(Config::default());
    app.start_editing();
    assert!(app.editing.is_none());
    app.selected = Some(2);
    app.start_editing();
    assert_eq!(app.editing.as_deref(), Some("0:1"));
    assert_eq!(app.edit_value, "60");
    assert_eq!(app.status_message, "Editing save_interval - Press Enter to save, Escape to cancel");
    assert_eq!(app.handle_key(Key::Backspace), EditorAction::Continue);
    assert_eq!(app.handle_key(Key::Backspace), EditorAction::Continue);
    assert_eq!(app.handle_key(Key::Backspace), EditorAction::Continue);
    app.handle_key(Key::Char('9'));
    app.handle_key(Key::Char('0'));
    assert_eq!(app.edit_value, "90");
    app.handle_key(Key::Enter);
    assert!(app.editing.is_none());
    assert_eq!(app.edit_value, "");
    assert_eq!(app.sections[0].items[1].value, "90");
    assert!(app.modified);
    assert_eq!(app.status_message, "Value updated. Press 's' to save to file.");
}

#[test]
fn cancelling_an_edit() {
    let mut app = App::new(Config::default());
    app.selected = Some(1);
    app.handle_key(Key::Enter);
    app.handle_key(Key::Char('x'));
    app.handle_key(Key::Esc);
    assert!(app.editing.is_none());
    assert_eq!(app.edit_value, "");
    assert_eq!(app.sections[0].items[0].value, "true");
    assert_eq!(app.status_message, "Edit cancelled");
    assert!(!app.modified);
}

#[test]
fn unchanged_edit_keeps_value() {
    let mut app = App::new(Config::default());
    app.selected = Some(11);
    app.start_editing();
    app.save_edit();
    assert_eq!(app.sections[2].items[1].value, "/usr/share/applications, ~/.local/share/applications");
    assert!(app.modified);
}

#[test]
fn editing_key_naming_no_item_changes_nothing() {
    let mut app = App::new(Config::default());
    app.editing = Some("9:0".to_string());
    app.edit_value = "x".to_string();
    app.save_edit();
    assert!(!app.modified);
    assert!(app.editing.is_none());
    app.editing = Some("a:b".to_string());
    app.save_edit();
    assert!(!app.modified);
}

#[test]
fn saving_reads_values_back() {
    let mut app = App::new(Config::default());
    app.sections[0].items[0].value = "false".to_string();
    app.sections[0].items[1].value = "not a number".to_string();
    app.sections[0].items[2].value = "9".to_string();
    app.sections[1].items[0].value = "maybe".to_string();
    app.sections[2].items[0].value = "yes".to_string();
    app.sections[2].items[1].value = " /a ,, /b ,".to_string();
    app.sections[3].items[0].value = "Steam".to_string();
    app.sections[3].items[1].value = "1, x, -2,  3 ".to_string();
    assert_eq!(app.handle_key(Key::Char('s')), EditorAction::Save);
    let c = &app.config;
    assert!(!c.general.auto_restore);
    assert_eq!(c.general.save_interval, 60);
    assert_eq!(c.general.backup_count, 9);
    assert!(c.uwsm.enabled);
    assert!(!c.walker.enabled);
    assert_eq!(c.walker.desktop_entry_dirs, vec!["/a", "/b"]);
    assert_eq!(c.filters.ignore_classes, vec!["Steam"]);
    assert_eq!(c.filters.ignore_workspaces, vec![1, -2, 3]);
    assert_eq!(c.restoration.systemd_timeout_ms, 5000);
    app.finish_save(Ok(()));
    assert_eq!(app.status_message, "Configuration saved successfully!");
    assert!(!app.modified);
    app.modified = true;
    app.finish_save(Err("disk full".to_string()));
    assert_eq!(app.status_message, "Save failed: disk full");
    assert!(app.modified);
}

#[test]
fn unedited_settings_read_back_unchanged() {
    let mut config = Config::default();
    config.general.save_interval = 12345;
    config.general.backup_count = 0;
    config.general.verbose_logging = true;
    config.uwsm.track_systemd_units = false;
    config.walker.desktop_entry_dirs = vec!["/a".to_string(), "/b c".to_string()];
    config.filters.ignore_classes = vec!["Steam".to_string()];
    config.filters.ignore_workspaces = vec![-3, 7, 0];
    let mut app = App::new(config);
    app.apply_sections();
    let c = &app.config;
    assert_eq!(c.walker.desktop_entry_dirs, vec!["/a", "/b c"]);
    assert_eq!(c.filters.ignore_classes, vec!["Steam"]);
    assert_eq!(c.filters.ignore_workspaces, vec![-3, 7, 0]);
    assert_eq!(c.general.save_interval, 12345);
    assert_eq!(c.general.backup_count, 0);
    assert!(c.general.verbose_logging);
    assert!(c.general.auto_restore);
    assert!(!c.uwsm.track_systemd_units);
    assert!(c.walker.enabled);
}

#[test]
fn keys_on_the_list_and_help() {
    let mut app = App::new(Config::default());
    assert_eq!(app.handle_key(Key::Down), EditorAction::Continue);
    assert_eq!(app.selected, Some(1));
    assert_eq!(app.handle_key(Key::Up), EditorAction::Continue);
    assert_eq!(app.selected, Some(0));
    assert_eq!(app.handle_key(Key::Char('?')), EditorAction::Continue);
    assert!(app.show_help);
    assert_eq!(app.handle_key(Key::Down), EditorAction::Continue);
    assert_eq!(app.selected, Some(0));
    assert_eq!(app.handle_key(Key::Char('q')), EditorAction::Continue);
    assert!(!app.show_help);
    assert_eq!(app.handle_key(Key::Tab), EditorAction::Continue);
    assert_eq!(app.handle_key(Key::Char('q')), EditorAction::Quit);
}

#[test]
fn list_items_with_commas_do_not_read_back_whole() {
    let mut config = Config::default();
    config.filters.ignore_classes = vec!["a,b".to_string(), " c ".to_string(), String::new()];
    let mut app = App::new(config);
    app.apply_sections();
    assert_eq!(app.config.filters.ignore_classes, vec!["a", "b", "c"]);
}

#[test]
fn editing_target_names_the_open_item() {
    let mut app = App::new(Config::default());
    assert_eq!(app.editing_target(), None);
    app.selected = Some(13);
    app.start_editing();
    assert_eq!(app.editing_target(), Some((3, 0)));
    app.editing = Some("3:7".to_string());
    assert_eq!(app.editing_target(), None);
    app.editing = Some("1:2:3".to_string());
    assert_eq!(app.editing_target(), None);
}
