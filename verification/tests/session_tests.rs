use hyprsechy::config::Config;
use hyprsechy::session::{RestoreLaunch, RestoreWait, SessionManager};
use hyprsechy::types::{
    DesktopEntry, HyprlandClient, HyprlandEvent, HyprlandWorkspace, ServiceStatus, SystemdServiceInfo,
    UwsmAppState, WorkspaceState,
};
use hyprsechy::uwsm::UwsmIntegration;
use hyprsechy::walker::WalkerIntegration;

fn manager_with(config: Config, uwsm: bool) -> SessionManager {
    let walker = WalkerIntegration::with_home(&config, None);
    SessionManager::new(config, UwsmIntegration::new(uwsm), walker)
}

fn manager() -> SessionManager {
    manager_with(Config::default(), true)
}

fn client(address: &str, class: &str, ws: i32, pid: u32) -> HyprlandClient {
    HyprlandClient {
        address: address.to_string(),
        class: class.to_string(),
        title: format!("{} window", class),
        workspace: HyprlandWorkspace { id: ws, name: ws.to_string(), monitor: String::new(), windows: 0 },
        at: (10, 20),
        size: (300, 200),
        monitor: 0,
        floating: false,
        fullscreen: false,
        pid,
    }
}

fn app(class: &str, ws: i32) -> UwsmAppState {
    UwsmAppState {
        class: class.to_string(),
        title: String::new(),
        desktop_entry: None,
        command: vec![class.to_lowercase()],
        workspace_id: ws,
        position: (0, 0),
        size: (0, 0),
        monitor: "0".to_string(),
        floating: false,
        fullscreen: false,
        systemd_unit: None,
        uwsm_launched: false,
        pid: None,
    }
}

#[test]
fn pid_command_keeps_plain_command_lines() {
    let m = manager();
    assert_eq!(m.clean_pid_command("/usr/bin/kitty --single-instance"), vec!["/usr/bin/kitty", "--single-instance"]);
    assert!(m.clean_pid_command("   ").is_empty());
}

#[test]
fn pid_command_reduces_complex_lines_to_program() {
    let m = manager();
    assert_eq!(m.clean_pid_command("bash -c foo | tee log"), vec!["bash"]);
    assert_eq!(m.clean_pid_command("env A=1 B=2 sudo vim"), vec!["sudo"]);
    assert_eq!(m.clean_pid_command("env A=1 sudo=x"), vec!["env"]);
}

#[test]
fn app_command_priorities() {
    let mut config = Config::default();
    config.commands = vec![("kitty".to_string(), "kitty -1".to_string())];
    let m = manager_with(config, true);
    assert_eq!(m.get_app_command("kitty", Some("ignored"), "ignored"), vec!["kitty", "-1"]);
    assert_eq!(m.get_app_command("foot", Some("/usr/bin/foot --server"), "foot"), vec!["/usr/bin/foot", "--server"]);
    assert_eq!(m.get_app_command("foot", None, "/usr/bin/foot -a x"), vec!["/usr/bin/foot", "-a", "x"]);
    assert_eq!(m.get_app_command("Spotify", None, "spotify"), vec!["spotify"]);
    assert_eq!(m.get_app_command("org.gnome.Nautilus", None, ""), vec!["nautilus"]);
    assert_eq!(m.get_app_command("Alacritty", None, ""), vec!["alacritty"]);
}

#[test]
fn app_command_from_desktop_entry() {
    let config = Config::default();
    let mut walker = WalkerIntegration::with_home(&config, None);
    walker.insert_entry(DesktopEntry {
        name: "Files".to_string(),
        exec_cmd: "nautilus --new-window".to_string(),
        icon: None,
        categories: vec![],
        no_display: false,
        path: "/usr/share/applications/org.gnome.Nautilus.desktop".to_string(),
    });
    let m = SessionManager::new(config, UwsmIntegration::new(false), walker);
    assert_eq!(m.get_app_command("org.gnome.Nautilus", None, ""), vec!["nautilus", "--new-window"]);
}

#[test]
fn collects_kept_windows_with_units() {
    let m = manager();
    let clients = vec![client("0x1", "kitty", 1, 100), client("0x2", "steam", 2, 200), client("0x3", "foot", 3, 300)];
    let service = SystemdServiceInfo {
        unit_name: "app-kitty@1.service".to_string(),
        pid: 100,
        command: "kitty".to_string(),
        status: ServiceStatus::Active,
    };
    let correlation = vec![("0x1".to_string(), service)];
    let unit_commands = vec![Some("kitty --detach".to_string()), None, None];
    let pid_commands = vec!["kitty".to_string(), "steam".to_string(), "foot -s".to_string()];
    let apps = m.collect_uwsm_apps(&clients, &correlation, &unit_commands, &pid_commands);
    assert_eq!(apps.len(), 2);
    assert_eq!(apps[0].class, "kitty");
    assert_eq!(apps[0].command, vec!["kitty", "--detach"]);
    assert_eq!(apps[0].systemd_unit.as_deref(), Some("app-kitty@1.service"));
    assert!(apps[0].uwsm_launched);
    assert_eq!(apps[0].pid, Some(100));
    assert_eq!(apps[0].monitor, "0");
    assert_eq!(apps[1].class, "foot");
    assert_eq!(apps[1].command, vec!["foot", "-s"]);
    assert_eq!(apps[1].workspace_id, 3);
    assert_eq!(apps[1].position, (10, 20));
    assert_eq!(apps[1].size, (300, 200));
    assert!(apps[1].systemd_unit.is_none());
    assert!(!apps[1].uwsm_launched);
}

#[test]
fn workspaces_gather_their_windows() {
    let m = manager();
    let workspaces = vec![
        HyprlandWorkspace { id: 1, name: "one".to_string(), monitor: "DP-1".to_string(), windows: 2 },
        HyprlandWorkspace { id: 2, name: "two".to_string(), monitor: "DP-2".to_string(), windows: 0 },
    ];
    let apps = vec![app("kitty", 1), app("foot", 3), app("firefox", 1)];
    let states = m.workspace_states(&workspaces, &apps);
    assert_eq!(states.len(), 2);
    assert_eq!(states[0].name, "one");
    assert_eq!(states[0].monitor, "DP-1");
    let classes: Vec<&str> = states[0].windows.iter().map(|w| w.class.as_str()).collect();
    assert_eq!(classes, vec!["kitty", "firefox"]);
    assert!(states[1].windows.is_empty());
}

#[test]
fn workspaces_to_restore_sorted_once_each() {
    let m = manager();
    let ws = |id: i32, n: usize| WorkspaceState {
        id,
        name: id.to_string(),
        monitor: String::new(),
        windows: (0..n).map(|_| app("kitty", id)).collect(),
    };
    let list = vec![ws(3, 1), ws(1, 2), ws(2, 0), ws(3, 1), ws(-5, 1)];
    assert_eq!(m.workspaces_to_restore(&list), vec![-5, 1, 3]);
    assert_eq!(m.workspace_command(-5), "workspace -5");
}

#[test]
fn window_plan_targets_newest_window_of_class() {
    let m = manager();
    let clients = vec![client("0xa", "kitty", 1, 50), client("0xb", "kitty", 1, 70), client("0xc", "foot", 1, 90)];
    let mut a = app("kitty", 4);
    a.floating = true;
    a.position = (5, 6);
    a.size = (640, 480);
    let plan = m.configure_restored_window(&a, &clients);
    assert_eq!(plan.move_command, "movetoworkspacesilent 4,address:0xb");
    assert_eq!(plan.fallback_commands, vec!["focuswindow address:0xb", "movetoworkspacesilent 4"]);
    assert_eq!(
        plan.adjust_commands,
        vec![
            "togglefloating address:0xb",
            "resizewindowpixel exact 640,480,address:0xb",
            "movewindowpixel exact 5,6,address:0xb"
        ]
    );
}

#[test]
fn window_plan_without_matching_window() {
    let m = manager();
    let plan = m.configure_restored_window(&app("gimp", 2), &vec![client("0xa", "kitty", 1, 50)]);
    assert_eq!(plan.move_command, "movetoworkspacesilent 2");
    assert!(plan.fallback_commands.is_empty());
    assert!(plan.adjust_commands.is_empty());
}

#[test]
fn window_plan_fullscreen_tiled() {
    let m = manager();
    let mut a = app("kitty", 1);
    a.fullscreen = true;
    a.position = (1, 0);
    a.size = (10, 10);
    let plan = m.configure_restored_window(&a, &vec![client("0xa", "kitty", 1, 50)]);
    assert_eq!(
        plan.adjust_commands,
        vec!["fullscreen address:0xa", "resizewindowpixel exact 10,10,address:0xa"]
    );
}

#[test]
fn restore_launch_and_wait() {
    let m = manager();
    let mut a = app("kitty", 1);
    a.command = vec!["kitty".to_string(), "-1".to_string()];
    match m.restore_launch(&a) {
        RestoreLaunch::Hyprctl(c) => assert_eq!(c, "kitty -1"),
        other => panic!("unexpected: {:?}", other),
    }
    a.uwsm_launched = true;
    match m.restore_launch(&a) {
        RestoreLaunch::Uwsm(args) => assert_eq!(args, vec!["app", "--", "kitty", "-1"]),
        other => panic!("unexpected: {:?}", other),
    }
    assert!(matches!(m.restore_wait(&a), RestoreWait::Sleep(1000)));
    a.systemd_unit = Some("app-kitty.service".to_string());
    match m.restore_wait(&a) {
        RestoreWait::ForUnit(u, t) => {
            assert_eq!(u, "app-kitty.service");
            assert_eq!(t, 5000);
        }
        other => panic!("unexpected: {:?}", other),
    }
    let mut config = Config::default();
    config.restoration.wait_for_systemd_ready = false;
    let m2 = manager_with(config, false);
    assert!(matches!(m2.restore_wait(&a), RestoreWait::Nothing));
    match m2.restore_launch(&a) {
        RestoreLaunch::Hyprctl(c) => assert_eq!(c, "kitty -1"),
        other => panic!("unexpected: {:?}", other),
    }
}

#[test]
fn backup_rotation_shifts_older_first() {
    let m = manager();
    assert_eq!(m.backup_rotation(), vec![(4, 5), (3, 4), (2, 3), (1, 2)]);
    let mut config = Config::default();
    config.general.backup_count = 0;
    assert!(manager_with(config, true).backup_rotation().is_empty());
}

#[test]
fn saves_after_window_and_workspace_changes() {
    let m = manager();
    assert!(m.should_save(&HyprlandEvent::WindowOpen {
        window_address: "a".to_string(),
        workspace: "1".to_string(),
        class: "k".to_string(),
        title: "t".to_string()
    }));
    assert!(m.should_save(&HyprlandEvent::WindowClose { window_address: "a".to_string() }));
    assert!(m.should_save(&HyprlandEvent::WorkspaceDestroy { workspace: "1".to_string() }));
    assert!(!m.should_save(&HyprlandEvent::WorkspaceFocus { workspace: "1".to_string() }));
    assert!(!m.should_save(&HyprlandEvent::WindowTitle { window_address: "a".to_string(), title: "x".to_string() }));
}

#[test]
fn session_info_counts() {
    let m = manager();
    let info = m.get_session_info(true, Some((1234567890, 3, 7)));
    assert!(info.has_saved_session);
    assert_eq!(info.current_session_timestamp, Some(1234567890));
    assert_eq!(info.current_workspaces, 3);
    assert_eq!(info.current_windows, 7);
    assert!(info.uwsm_available);
    assert!(info.walker_enabled);
    let none = m.get_session_info(false, None);
    assert_eq!(none.current_session_timestamp, None);
    assert_eq!(none.current_windows, 0);
}
