use hyprsechy::config::Config;
use hyprsechy::error::HyprsechyError;
use hyprsechy::types::DesktopEntry;
use hyprsechy::walker::WalkerIntegration;

fn entry(name: &str, exec: &str, categories: &[&str], no_display: bool) -> DesktopEntry {
    DesktopEntry {
        name: name.to_string(),
        exec_cmd: exec.to_string(),
        icon: None,
        categories: categories.iter().map(|c| c.to_string()).collect(),
        no_display,
        path: format!("/usr/share/applications/{}.desktop", name.to_lowercase()),
    }
}

fn walker_with(entries: Vec<DesktopEntry>) -> WalkerIntegration {
    let mut w = WalkerIntegration::with_home(&Config::default(), Some("/home/u"));
    for e in entries {
        w.insert_entry(e);
    }
    w
}

#[test]
fn test_exec_cleaning() {
    let config = Config::default();
    let walker = WalkerIntegration::new(&config);

    let cleaned = walker.clean_exec_command("firefox %u");
    assert_eq!(cleaned, "firefox");

    let cleaned = walker.clean_exec_command("code %f %F");
    assert_eq!(cleaned, "code");
}

#[test]
fn exec_cleaning_keeps_other_arguments() {
    let w = WalkerIntegration::with_home(&Config::default(), None);
    assert_eq!(w.clean_exec_command("  gimp   --new %U  -n "), "gimp --new -n");
    assert_eq!(w.clean_exec_command("app %i %c %k"), "app");
    assert_eq!(w.clean_exec_command("%%u"), "%");
    assert_eq!(w.clean_exec_command(""), "");
}

#[test]
fn new_expands_home_in_directories() {
    let w = WalkerIntegration::with_home(&Config::default(), Some("/home/u"));
    assert!(w.is_enabled());
    assert_eq!(
        w.desktop_dirs(),
        &vec!["/usr/share/applications".to_string(), "/home/u/.local/share/applications".to_string()]
    );
    let w = WalkerIntegration::with_home(&Config::default(), None);
    assert_eq!(w.desktop_dirs()[1], "~/.local/share/applications");
}

#[test]
fn new_reads_the_home_directory() {
    let w = WalkerIntegration::new(&Config::default());
    assert!(w.is_enabled());
    assert_eq!(w.desktop_dirs().len(), 2);
    assert_eq!(w.desktop_dirs()[0], "/usr/share/applications");
    assert!(w.desktop_dirs()[1].ends_with(".local/share/applications"));
}

#[test]
fn default_is_disabled() {
    let w = WalkerIntegration::default();
    assert!(!w.is_enabled());
    assert_eq!(
        w.desktop_dirs(),
        &vec!["/usr/share/applications".to_string(), "/usr/local/share/applications".to_string()]
    );
    let s = w.get_statistics();
    assert_eq!(s.total_entries, 0);
    assert!(!s.enabled);
}

#[test]
fn entry_key_is_lowercase_program_name() {
    let w = WalkerIntegration::with_home(&Config::default(), None);
    assert_eq!(w.get_entry_key(&entry("Firefox", "/usr/bin/Firefox --new", &[], false)), "firefox");
    assert_eq!(w.get_entry_key(&entry("My App", "", &[], false)), "my app");
}

#[test]
fn find_by_class_prefers_exact_name() {
    let w = walker_with(vec![
        entry("Spotify Launcher", "spotify-launcher", &["Audio"], false),
        entry("Spotify", "spotify %U", &["Audio"], false),
    ]);
    let e = w.find_desktop_entry_by_class("spotify").unwrap();
    assert_eq!(e.name, "Spotify");
}

#[test]
fn find_by_class_falls_back_to_name_overlap_then_program() {
    let w = walker_with(vec![
        entry("Hidden", "hidden", &[], true),
        entry("Visual Studio Code", "/usr/bin/code --unity-launch", &["Development"], false),
        entry("Files", "nautilus --new-window", &["System"], false),
    ]);
    assert_eq!(w.find_desktop_entry_by_class("Code").unwrap().name, "Visual Studio Code");
    assert_eq!(w.find_desktop_entry_by_class("org.gnome.Nautilus").unwrap().name, "Files");
    assert!(w.find_desktop_entry_by_class("hidden").is_none());
    assert!(w.find_desktop_entry_by_class("kitty").is_none());
}

#[test]
fn launch_command_from_entry_fallback_or_class() {
    let w = walker_with(vec![entry("Firefox", "firefox --new-window", &[], false)]);
    assert_eq!(w.get_launch_command("firefox", None), vec!["firefox", "--new-window"]);
    assert_eq!(w.get_launch_command("Kitty", Some("kitty  -1")), vec!["kitty", "-1"]);
    assert_eq!(w.get_launch_command("Kitty", None), vec!["kitty"]);
    assert_eq!(w.suggest_command_for_class("firefox"), Some("firefox --new-window".to_string()));
    assert_eq!(w.suggest_command_for_class("kitty"), None);
}

#[test]
fn find_by_command_either_way() {
    let w = walker_with(vec![entry("Firefox", "firefox", &[], false)]);
    assert!(w.find_desktop_entry_by_command("firefox --private").is_some());
    assert!(w.find_desktop_entry_by_command("fire").is_some());
    assert!(w.find_desktop_entry_by_command("kitty").is_none());
}

#[test]
fn categories_sorted_without_duplicates() {
    let w = walker_with(vec![
        entry("Firefox", "firefox", &["Network", "WebBrowser", ""], false),
        entry("Thunderbird", "thunderbird", &["Network", "Email"], false),
        entry("Hidden", "hidden", &["Zeta"], true),
    ]);
    assert_eq!(w.get_categories(), vec!["Email", "Network", "WebBrowser", "Zeta"]);
    let names: Vec<&str> = w.filter_by_category("network").iter().map(|e| e.name.as_str()).collect();
    assert_eq!(names, vec!["Firefox", "Thunderbird"]);
    assert_eq!(w.filter_by_category("zeta").len(), 1);
    let s = w.get_statistics();
    assert_eq!(s.total_entries, 3);
    assert_eq!(s.visible_entries, 2);
    assert_eq!(s.categories, 4);
    assert!(s.enabled);
}

#[test]
fn all_and_frequent_applications_skip_hidden() {
    let w = walker_with(vec![
        entry("A", "a", &[], false),
        entry("B", "b", &[], true),
        entry("C", "c", &[], false),
    ]);
    let all: Vec<&str> = w.get_all_applications().iter().map(|e| e.name.as_str()).collect();
    assert_eq!(all, vec!["A", "C"]);
    assert_eq!(w.get_frequent_applications(1).len(), 1);
    assert_eq!(w.get_frequent_applications(10).len(), 2);
}

#[test]
fn inserting_under_the_same_key_replaces() {
    let mut w = walker_with(vec![entry("Firefox", "firefox", &[], false)]);
    w.insert_entry(entry("Firefox Nightly", "/opt/firefox", &[], false));
    assert_eq!(w.get_statistics().total_entries, 1);
    assert_eq!(w.find_desktop_entry_by_command("/opt/firefox").unwrap().name, "Firefox Nightly");
    w.clear_entries();
    assert_eq!(w.get_statistics().total_entries, 0);
}

#[test]
fn parses_desktop_file() {
    let w = WalkerIntegration::with_home(&Config::default(), None);
    let content = "[Desktop Entry]\nType=Application\nName=Firefox\nExec=firefox %u\nIcon=firefox\nCategories=Network;WebBrowser;\nNoDisplay=false\n";
    let e = w.parse_desktop_entry("/usr/share/applications/firefox.desktop", content).unwrap();
    assert_eq!(e.name, "Firefox");
    assert_eq!(e.exec_cmd, "firefox");
    assert_eq!(e.icon.as_deref(), Some("firefox"));
    assert_eq!(e.categories, vec!["Network", "WebBrowser", ""]);
    assert!(!e.no_display);
    assert_eq!(e.path, "/usr/share/applications/firefox.desktop");
}

#[test]
fn parse_without_name_or_exec() {
    let w = WalkerIntegration::with_home(&Config::default(), None);
    let e = w.parse_desktop_entry("/x/tool.desktop", "[Desktop Entry]\nNoDisplay=true\n").unwrap();
    assert_eq!(e.name, "Unknown");
    assert_eq!(e.exec_cmd, "");
    assert!(e.categories.is_empty());
    assert!(e.no_display);
}

#[test]
fn parse_refuses_path_without_app_id() {
    let w = WalkerIntegration::with_home(&Config::default(), None);
    match w.parse_desktop_entry("/", "[Desktop Entry]\nName=X\n") {
        Err(HyprsechyError::DesktopEntry(m)) => {
            assert_eq!(m, "Failed to parse desktop entry: path does not contain a valid app ID")
        }
        other => panic!("unexpected: {:?}", other),
    }
}

#[test]
fn keyless_lines_are_detected() {
    assert!(hyprsechy::walker::keyless_line_in("[Desktop Entry]\n  =x\n"));
    assert!(!hyprsechy::walker::keyless_line_in("[Desktop Entry]\nName=a=b\n# =c\n"));
}

#[test]
fn gettext_domain_is_detected() {
    assert!(hyprsechy::walker::gettext_domain_in("[Desktop Entry]\n  X-Ubuntu-Gettext-Domain=app\nName=x\n"));
    assert!(!hyprsechy::walker::gettext_domain_in("[Desktop Entry]\nX-Ubuntu-Gettext-Domain =app\n"));
    assert!(!hyprsechy::walker::gettext_domain_in("[Desktop Entry]\nName=X-Ubuntu-Gettext-Domain=app\n"));
}

#[test]
fn translated_name_is_shown() {
    let w = WalkerIntegration::with_home(&Config::default(), None);
    let content = "[Desktop Entry]\nX-Ubuntu-Gettext-Domain=files\nName=Files\nExec=nautilus %U\n";
    let e = w.parse_translated_desktop_entry("/x/files.desktop", content, Some("Dateien")).unwrap();
    assert_eq!(e.name, "Dateien");
    assert_eq!(e.exec_cmd, "nautilus");
    let e = w.parse_translated_desktop_entry("/x/files.desktop", content, None).unwrap();
    assert_eq!(e.name, "Files");
    let e = w.parse_translated_desktop_entry("/x/tool.desktop", "[Desktop Entry]\nExec=tool\n", None).unwrap();
    assert_eq!(e.name, "Unknown");
}

#[test]
fn loads_translated_desktop_file() {
    let mut w = WalkerIntegration::with_home(&Config::default(), None);
    let content = "[Desktop Entry]\nX-Ubuntu-Gettext-Domain=files\nName=Files\nExec=nautilus\n";
    assert!(w.load_translated_desktop_file("/x/files.desktop", content, Some("Dateien")));
    assert_eq!(w.find_desktop_entry_by_class("dateien").unwrap().exec_cmd, "nautilus");
}

#[test]
fn loads_only_desktop_files() {
    let mut w = WalkerIntegration::with_home(&Config::default(), None);
    let content = "[Desktop Entry]\nName=Kitty\nExec=kitty\n";
    assert!(!w.load_desktop_file("/x/kitty.txt", content));
    assert!(w.load_desktop_file("/x/kitty.desktop", content));
    assert_eq!(w.get_statistics().total_entries, 1);
    assert_eq!(w.find_desktop_entry_by_class("kitty").unwrap().exec_cmd, "kitty");
}

#[test]
fn settings_survive_every_change() {
    let mut config = Config::default();
    config.walker.enabled = true;
    let mut w = WalkerIntegration::with_home(&config, Some("/home/u"));
    let dirs = w.desktop_dirs().clone();
    w.insert_entry(entry("Kitty", "kitty", &[], false));
    assert!(w.load_desktop_file("/x/foot.desktop", "[Desktop Entry]\nName=Foot\nExec=foot\n"));
    assert!(w.load_translated_desktop_file("/x/files.desktop", "[Desktop Entry]\nX-Ubuntu-Gettext-Domain=f\nName=Files\nExec=nautilus\n", None));
    w.clear_entries();
    assert!(w.is_enabled());
    assert_eq!(w.desktop_dirs(), &dirs);
    assert!(!WalkerIntegration::default().is_enabled());
}

#[test]
fn category_filter_ignores_case() {
    let w = walker_with(vec![
        entry("Firefox", "firefox", &["Network", "WebBrowser"], false),
        entry("Files", "nautilus", &["Utility"], false),
    ]);
    let lower: Vec<String> = w.filter_by_category("network").iter().map(|e| e.name.clone()).collect();
    let upper: Vec<String> = w.filter_by_category("NETWORK").iter().map(|e| e.name.clone()).collect();
    assert_eq!(lower, vec!["Firefox".to_string()]);
    assert_eq!(lower, upper);
}
