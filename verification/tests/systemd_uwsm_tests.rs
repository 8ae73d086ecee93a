use hyprsechy::error::HyprsechyError;
use hyprsechy::systemd::SystemdManager;
use hyprsechy::types::{HyprlandClient, HyprlandWorkspace, ServiceStatus, SystemdServiceInfo};
use hyprsechy::uwsm::{Launch, UwsmIntegration};

fn service(unit: &str, pid: u32, command: &str) -> SystemdServiceInfo {
    SystemdServiceInfo {
        unit_name: unit.to_string(),
        pid,
        command: command.to_string(),
        status: ServiceStatus::Active,
    }
}

fn client(address: &str, pid: u32) -> HyprlandClient {
    HyprlandClient {
        address: address.to_string(),
        class: "c".to_string(),
        title: String::new(),
        workspace: HyprlandWorkspace { id: 1, name: "1".to_string(), monitor: String::new(), windows: 0 },
        at: (0, 0),
        size: (0, 0),
        monitor: 0,
        floating: false,
        fullscreen: false,
        pid,
    }
}

#[test]
fn lists_graphical_session_units() {
    let m = SystemdManager::new();
    assert!(m.user_mode);
    let json = r#"[{"unit": "app-kitty@1.service"}, {"unit": "dbus.service"},
                   {"unit": "app-hyprsechy.service"}, {"load": "x"}, {"unit": "app-foot.scope"}]"#;
    assert_eq!(
        m.listed_units(json),
        vec!["app-kitty@1.service", "dbus.service", "app-hyprsechy.service", "app-foot.scope"]
    );
    assert_eq!(m.graphical_session_units(json), vec!["app-kitty@1.service", "app-foot.scope"]);
    assert!(m.listed_units("nope").is_empty());
}

#[test]
fn unit_status_words() {
    let m = SystemdManager::default();
    assert_eq!(m.parse_unit_status("active\n"), ServiceStatus::Active);
    assert_eq!(m.parse_unit_status("inactive"), ServiceStatus::Inactive);
    assert_eq!(m.parse_unit_status(" failed "), ServiceStatus::Failed);
    assert_eq!(m.parse_unit_status("activating"), ServiceStatus::Unknown);
    assert_eq!(m.readiness(Some(ServiceStatus::Active)), Some(true));
    assert_eq!(m.readiness(Some(ServiceStatus::Failed)), Some(false));
    assert_eq!(m.readiness(Some(ServiceStatus::Inactive)), None);
    assert_eq!(m.readiness(None), None);
}

#[test]
fn unit_pid_parsing() {
    let m = SystemdManager::new();
    assert_eq!(m.parse_unit_pid("a.service", "1234").unwrap(), 1234);
    match m.parse_unit_pid("a.service", "12x") {
        Err(HyprsechyError::Systemd(msg)) => assert_eq!(msg, "Invalid PID for unit a.service: 12x"),
        other => panic!("unexpected: {:?}", other),
    }
    assert!(m.parse_unit_pid("a.service", "4294967296").is_err());
}

#[test]
fn commands_of_units_and_processes() {
    let m = SystemdManager::new();
    assert_eq!(m.exec_start_command(Some("/usr/bin/kitty")), Some("/usr/bin/kitty".to_string()));
    assert_eq!(m.exec_start_command(Some("")), None);
    assert_eq!(m.exec_start_command(None), None);
    assert_eq!(m.command_from_cmdline("kitty\0--single-instance\0\0"), "kitty --single-instance");
    let s = m.assemble_service("app-x.service", Some(9), None, None).unwrap();
    assert_eq!((s.unit_name.as_str(), s.pid, s.command.as_str(), s.status), ("app-x.service", 9, "unknown", ServiceStatus::Unknown));
    assert!(m.assemble_service("app-x.service", None, Some("x"), Some(ServiceStatus::Active)).is_none());
}

#[test]
fn correlation_by_process_id() {
    let m = SystemdManager::new();
    let units = vec![service("a.service", 10, "a"), service("b.service", 20, "b"), service("c.service", 10, "c")];
    let clients = vec![client("0x1", 10), client("0x2", 30), client("0x3", 10)];
    let r = m.correlate_with_hyprland_clients(&units, &clients);
    assert_eq!(r.len(), 1);
    assert_eq!(r[0].0, "0x1");
    assert_eq!(r[0].1.unit_name, "c.service");
}

#[test]
fn launching_through_uwsm_or_directly() {
    let cmd = vec!["kitty".to_string(), "-1".to_string()];
    let on = UwsmIntegration::new(true);
    assert!(on.is_available());
    assert_eq!(on.launch_via_uwsm(&cmd).unwrap(), vec!["app", "--", "kitty", "-1"]);
    match on.launch_app(&cmd).unwrap() {
        Launch::Uwsm(args) => assert_eq!(args, vec!["app", "--", "kitty", "-1"]),
        other => panic!("unexpected: {:?}", other),
    }
    let off = UwsmIntegration::default();
    assert!(!off.is_available());
    match off.launch_via_uwsm(&cmd) {
        Err(HyprsechyError::Uwsm(m)) => assert_eq!(m, "UWSM not available"),
        other => panic!("unexpected: {:?}", other),
    }
    match off.launch_app(&cmd).unwrap() {
        Launch::Direct(p, args) => {
            assert_eq!(p, "kitty");
            assert_eq!(args, vec!["-1"]);
        }
        other => panic!("unexpected: {:?}", other),
    }
    match off.launch_direct(&vec![]) {
        Err(HyprsechyError::Uwsm(m)) => assert_eq!(m, "Empty command"),
        other => panic!("unexpected: {:?}", other),
    }
}

#[test]
fn services_become_windows() {
    let u = UwsmIntegration::new(true);
    let a = u.convert_service_to_app(&service("app-kitty.service", 77, "/usr/bin/kitty --detach"));
    assert_eq!(a.class, "kitty");
    assert_eq!(a.command, vec!["/usr/bin/kitty", "--detach"]);
    assert_eq!(a.workspace_id, 1);
    assert_eq!(a.size, (800, 600));
    assert_eq!(a.systemd_unit.as_deref(), Some("app-kitty.service"));
    assert!(a.uwsm_launched);
    assert_eq!(a.pid, Some(77));
    let b = u.convert_service_to_app(&service("x.service", 1, "   "));
    assert_eq!(b.class, "unknown");
    assert_eq!(u.discover_uwsm_apps(&vec![service("a", 1, "a"), service("b", 2, "b")]).len(), 2);
    assert!(UwsmIntegration::new(false).discover_uwsm_apps(&vec![service("a", 1, "a")]).is_empty());
    let s = u.get_uwsm_status(3, 5);
    assert_eq!((s.available, s.active_apps, s.total_units), (true, 3, 5));
    let s = UwsmIntegration::new(false).get_uwsm_status(3, 5);
    assert_eq!((s.available, s.active_apps, s.total_units), (false, 0, 0));
}
