use hyprsechy::error::HyprsechyError;
use hyprsechy::hyprland::HyprlandIpc;
use hyprsechy::types::HyprlandEvent;

fn ipc() -> HyprlandIpc {
    HyprlandIpc::from_socket_path("/tmp/hypr/abc/.socket.sock")
}

#[test]
fn event_socket_is_next_to_command_socket() {
    let i = ipc();
    assert_eq!(i.socket_path, "/tmp/hypr/abc/.socket.sock");
    assert_eq!(i.event_socket_path, "/tmp/hypr/abc/.socket2.sock");
    let j = HyprlandIpc::in_instance_dir("/run/user/1000/hypr/xyz");
    assert_eq!(j.socket_path, "/run/user/1000/hypr/xyz/.socket.sock");
    assert_eq!(j.event_socket_path, "/run/user/1000/hypr/xyz/.socket2.sock");
}

#[test]
fn socket_candidates_in_order() {
    assert_eq!(
        HyprlandIpc::socket_candidates("sig", 42, Some("/run/user/1000")),
        vec![
            "/tmp/hypr/sig/.socket.sock",
            "/run/user/42/hypr/sig/.socket.sock",
            "/run/user/1000/hypr/sig/.socket.sock"
        ]
    );
    assert_eq!(HyprlandIpc::socket_candidates("sig", 7, None).len(), 2);
}

#[test]
fn parses_open_window_with_commas_in_title() {
    match ipc().parse_event("openwindow>>55a1,2,kitty,vim a,b\n").unwrap() {
        HyprlandEvent::WindowOpen { window_address, workspace, class, title } => {
            assert_eq!(window_address, "55a1");
            assert_eq!(workspace, "2");
            assert_eq!(class, "kitty");
            assert_eq!(title, "vim a,b");
        }
        other => panic!("unexpected: {:?}", other),
    }
}

#[test]
fn parses_simple_events() {
    let i = ipc();
    assert!(matches!(i.parse_event("closewindow>>55a1").unwrap(),
        HyprlandEvent::WindowClose { window_address } if window_address == "55a1"));
    assert!(matches!(i.parse_event("movewindow>>55a1,3").unwrap(),
        HyprlandEvent::WindowMove { window_address, workspace } if window_address == "55a1" && workspace == "3"));
    assert!(matches!(i.parse_event("createworkspace>>4").unwrap(),
        HyprlandEvent::WorkspaceCreate { workspace } if workspace == "4"));
    assert!(matches!(i.parse_event("destroyworkspace>>4").unwrap(),
        HyprlandEvent::WorkspaceDestroy { workspace } if workspace == "4"));
    assert!(matches!(i.parse_event("workspace>>1").unwrap(),
        HyprlandEvent::WorkspaceFocus { workspace } if workspace == "1"));
    assert!(matches!(i.parse_event("monitoradded>>DP-1").unwrap(),
        HyprlandEvent::MonitorAdd { monitor } if monitor == "DP-1"));
    assert!(matches!(i.parse_event("monitorremoved>>DP-1").unwrap(),
        HyprlandEvent::MonitorRemove { monitor } if monitor == "DP-1"));
    assert!(matches!(i.parse_event("windowtitle>>55a1,a, b").unwrap(),
        HyprlandEvent::WindowTitle { window_address, title } if window_address == "55a1" && title == "a, b"));
}

#[test]
fn rejects_malformed_events() {
    let i = ipc();
    match i.parse_event("garbage") {
        Err(HyprsechyError::HyprlandIpc(m)) => assert_eq!(m, "Invalid event format: garbage"),
        other => panic!("unexpected: {:?}", other),
    }
    match i.parse_event("openwindow>>a,b,c") {
        Err(HyprsechyError::HyprlandIpc(m)) => assert_eq!(m, "Invalid openwindow event"),
        other => panic!("unexpected: {:?}", other),
    }
    match i.parse_event("movewindow>>a") {
        Err(HyprsechyError::HyprlandIpc(m)) => assert_eq!(m, "Invalid movewindow event"),
        other => panic!("unexpected: {:?}", other),
    }
    match i.parse_event("windowtitle>>a") {
        Err(HyprsechyError::HyprlandIpc(m)) => assert_eq!(m, "Invalid windowtitle event"),
        other => panic!("unexpected: {:?}", other),
    }
    match i.parse_event("fullscreen>>1") {
        Err(HyprsechyError::HyprlandIpc(m)) => assert_eq!(m, "Unknown event type: fullscreen"),
        other => panic!("unexpected: {:?}", other),
    }
}

#[test]
fn parses_clients() {
    let json = r#"[
        {"address": "0x1", "class": "kitty", "title": "zsh", "workspace": {"id": 2, "name": "2"},
         "at": [10, 20], "size": [800, 600], "monitor": 1, "floating": true, "fullscreen": false, "pid": 4242},
        {"class": "no-address", "at": [0, 0], "size": [1, 1]},
        {"address": "0x2", "at": [5, 6], "size": [7, 8]}
    ]"#;
    let clients = ipc().parse_clients(json).unwrap().unwrap();
    assert_eq!(clients.len(), 2);
    let c = &clients[0];
    assert_eq!(c.address, "0x1");
    assert_eq!(c.class, "kitty");
    assert_eq!(c.title, "zsh");
    assert_eq!(c.workspace.id, 2);
    assert_eq!(c.workspace.name, "2");
    assert_eq!(c.workspace.monitor, "");
    assert_eq!(c.workspace.windows, 0);
    assert_eq!(c.at, (10, 20));
    assert_eq!(c.size, (800, 600));
    assert_eq!(c.monitor, 1);
    assert!(c.floating);
    assert!(!c.fullscreen);
    assert_eq!(c.pid, 4242);
    let d = &clients[1];
    assert_eq!(d.class, "");
    assert_eq!(d.workspace.id, -1);
    assert_eq!(d.at, (5, 6));
    assert_eq!(d.pid, 0);
}

#[test]
fn short_position_array_is_reported() {
    let json = r#"[{"address": "0x1", "at": [10], "size": [1, 2]}]"#;
    assert!(ipc().parse_clients(json).unwrap().is_none());
}

#[test]
fn bad_json_is_an_error() {
    assert!(matches!(ipc().parse_clients("not json"), Err(HyprsechyError::Json(_))));
    assert!(matches!(ipc().parse_workspaces("{"), Err(HyprsechyError::Json(_))));
}

#[test]
fn parses_workspaces_and_active_workspace() {
    let json = r#"[{"id": 1, "name": "1", "monitor": "DP-1", "windows": 3}, {"name": "x"}]"#;
    let ws = ipc().parse_workspaces(json).unwrap();
    assert_eq!(ws.len(), 2);
    assert_eq!((ws[0].id, ws[0].name.as_str(), ws[0].monitor.as_str(), ws[0].windows), (1, "1", "DP-1", 3));
    assert_eq!((ws[1].id, ws[1].name.as_str(), ws[1].monitor.as_str(), ws[1].windows), (-1, "x", "", 0));
    assert_eq!(ipc().parse_active_workspace(r#"{"id": 5}"#).unwrap(), 5);
    match ipc().parse_active_workspace(r#"{"name": "5"}"#) {
        Err(HyprsechyError::HyprlandIpc(m)) => assert_eq!(m, "Failed to get active workspace ID"),
        other => panic!("unexpected: {:?}", other),
    }
}

#[test]
fn parses_monitors_apart_from_rates() {
    let json = r#"[
        {"id": 0, "name": "DP-1", "description": "Dell U2720Q", "make": "Dell", "model": "U2720Q",
         "serial": "X1", "width": 3840, "height": 2160, "refreshRate": 59.99, "x": 0, "y": 0,
         "activeWorkspace": {"id": 3, "name": "3"}, "specialWorkspace": {"id": 0, "name": ""},
         "reserved": [0, 30, 0, 0], "scale": 1.5, "transform": 1, "focused": true,
         "dpmsStatus": false, "vrr": true},
        {"specialWorkspace": {"id": null}, "reserved": [7]}
    ]"#;
    let ms = ipc().parse_monitors(json).unwrap();
    assert_eq!(ms.len(), 2);
    let m = &ms[0];
    assert_eq!((m.id, m.name.as_str(), m.make.as_str(), m.model.as_str()), (0, "DP-1", "Dell", "U2720Q"));
    assert_eq!(m.description, "Dell U2720Q");
    assert_eq!(m.serial, "X1");
    assert_eq!((m.width, m.height, m.x, m.y), (3840, 2160, 0, 0));
    assert_eq!(m.active_workspace.id, 3);
    assert_eq!(m.active_workspace.monitor, "DP-1");
    assert_eq!(m.special_workspace.as_ref().map(|w| w.id), Some(0));
    assert_eq!(m.reserved, [0, 30, 0, 0]);
    assert_eq!(m.transform, 1);
    assert!(m.focused && !m.dpms_status && m.vrr);
    let n = &ms[1];
    assert_eq!(n.id, -1);
    assert_eq!(n.name, "");
    assert!(n.special_workspace.is_none());
    assert_eq!(n.active_workspace.id, -1);
    assert_eq!(n.reserved, [7, 0, 0, 0]);
    assert!(n.dpms_status);
}
