//! The data model: windows, workspaces, services, desktop entries, Hyprland
//! events and the configuration sections.
use vstd::prelude::*;

verus! {

/// A window as it is saved and restored.
#[derive(Debug)]
pub struct UwsmAppState {
    pub class: String,
    pub title: String,
    pub desktop_entry: Option<String>,
    pub command: Vec<String>,
    pub workspace_id: i32,
    pub position: (i32, i32),
    pub size: (u32, u32),
    pub monitor: String,
    pub floating: bool,
    pub fullscreen: bool,
    pub systemd_unit: Option<String>,
    pub uwsm_launched: bool,
    pub pid: Option<u32>,
}

/// A workspace with the windows saved on it.
#[derive(Debug)]
pub struct WorkspaceState {
    pub id: i32,
    pub name: String,
    pub monitor: String,
    pub windows: Vec<UwsmAppState>,
}

/// A systemd unit that runs an application.
#[derive(Debug)]
pub struct SystemdServiceInfo {
    pub unit_name: String,
    pub pid: u32,
    pub command: String,
    pub status: ServiceStatus,
}

/// The activity state that systemd reports for a unit.
#[derive(Debug, Clone, Copy, PartialEq, Eq, Structural)]
pub enum ServiceStatus {
    Active,
    Inactive,
    Failed,
    Unknown,
}

/// An application's desktop entry.
#[derive(Debug)]
pub struct DesktopEntry {
    pub name: String,
    pub exec_cmd: String,
    pub icon: Option<String>,
    pub categories: Vec<String>,
    pub no_display: bool,
    pub path: String,
}

/// A window as Hyprland reports it.
#[derive(Debug)]
pub struct HyprlandClient {
    pub address: String,
    pub class: String,
    pub title: String,
    pub workspace: HyprlandWorkspace,
    pub at: (i32, i32),
    pub size: (u32, u32),
    pub monitor: i32,
    pub floating: bool,
    pub fullscreen: bool,
    pub pid: u32,
}

/// A workspace as Hyprland reports it.
#[derive(Debug)]
pub struct HyprlandWorkspace {
    pub id: i32,
    pub name: String,
    pub monitor: String,
    pub windows: i32,
}

/// Desktop entries, frequently used applications and custom commands,
/// each keyed by a string.
#[derive(Debug)]
pub struct WalkerIntegration {
    pub desktop_entries: Vec<(String, DesktopEntry)>,
    pub frequent_apps: Vec<String>,
    pub custom_commands: Vec<(String, String)>,
}

/// An event read from Hyprland's event socket.
#[derive(Debug)]
pub enum HyprlandEvent {
    WindowOpen { window_address: String, workspace: String, class: String, title: String },
    WindowClose { window_address: String },
    WindowMove { window_address: String, workspace: String },
    WorkspaceCreate { workspace: String },
    WorkspaceDestroy { workspace: String },
    WorkspaceFocus { workspace: String },
    MonitorAdd { monitor: String },
    MonitorRemove { monitor: String },
    WindowTitle { window_address: String, title: String },
    WindowClass { window_address: String, class: String },
}

/// A Hyprland event with its strings taken as characters.
pub enum EventView {
    WindowOpen { window_address: Seq<char>, workspace: Seq<char>, class: Seq<char>, title: Seq<char> },
    WindowClose { window_address: Seq<char> },
    WindowMove { window_address: Seq<char>, workspace: Seq<char> },
    WorkspaceCreate { workspace: Seq<char> },
    WorkspaceDestroy { workspace: Seq<char> },
    WorkspaceFocus { workspace: Seq<char> },
    MonitorAdd { monitor: Seq<char> },
    MonitorRemove { monitor: Seq<char> },
    WindowTitle { window_address: Seq<char>, title: Seq<char> },
    WindowClass { window_address: Seq<char>, class: Seq<char> },
}

impl View for HyprlandEvent {
    type V = EventView;

    open spec fn view(&self) -> EventView {
        match self {
            HyprlandEvent::WindowOpen { window_address, workspace, class, title } =>
                EventView::WindowOpen {
                window_address: window_address@,
                workspace: workspace@,
                class: class@,
                title: title@,
            },
            HyprlandEvent::WindowClose { window_address } => EventView::WindowClose {
                window_address: window_address@,
            },
            HyprlandEvent::WindowMove { window_address, workspace } => EventView::WindowMove {
                window_address: window_address@,
                workspace: workspace@,
            },
            HyprlandEvent::WorkspaceCreate { workspace } => EventView::WorkspaceCreate {
                workspace: workspace@,
            },
            HyprlandEvent::WorkspaceDestroy { workspace } => EventView::WorkspaceDestroy {
                workspace: workspace@,
            },
            HyprlandEvent::WorkspaceFocus { workspace } => EventView::WorkspaceFocus {
                workspace: workspace@,
            },
            HyprlandEvent::MonitorAdd { monitor } => EventView::MonitorAdd { monitor: monitor@ },
            HyprlandEvent::MonitorRemove { monitor } => EventView::MonitorRemove {
                monitor: monitor@,
            },
            HyprlandEvent::WindowTitle { window_address, title } => EventView::WindowTitle {
                window_address: window_address@,
                title: title@,
            },
            HyprlandEvent::WindowClass { window_address, class } => EventView::WindowClass {
                window_address: window_address@,
                class: class@,
            },
        }
    }
}

/// The settings a session runs under: each section of the configuration,
/// and the command line that restores windows of a class, for each class
/// that has one.
#[derive(Debug)]
pub struct SessionConfig {
    pub general: GeneralConfig,
    pub uwsm: UwsmConfig,
    pub walker: WalkerConfig,
    pub restoration: RestorationConfig,
    pub filters: FilterConfig,
    pub commands: Vec<(String, String)>,
}

/// How often sessions are saved, how many backups are kept, and whether a
/// saved session is offered for restoring at startup.
#[derive(Debug, Clone, Copy)]
pub struct GeneralConfig {
    pub save_interval: u64,
    pub backup_count: u32,
    pub auto_restore: bool,
    pub verbose_logging: bool,
}

/// Whether and how applications are tracked and launched through UWSM.
#[derive(Debug, Clone, Copy)]
pub struct UwsmConfig {
    pub enabled: bool,
    pub track_systemd_units: bool,
    pub preserve_unit_names: bool,
    pub launch_via_uwsm: bool,
}

/// Where desktop entries are looked for.
#[derive(Debug)]
pub struct WalkerConfig {
    pub enabled: bool,
    pub desktop_entry_dirs: Vec<String>,
    pub sync_frequent_apps: bool,
}

/// How long a restored application is waited for.
#[derive(Debug, Clone, Copy)]
pub struct RestorationConfig {
    pub wait_for_systemd_ready: bool,
    pub systemd_timeout_ms: u64,
    pub prefer_desktop_entries: bool,
}

/// Window classes and workspaces that are left out of a saved session.
#[derive(Debug)]
pub struct FilterConfig {
    pub ignore_classes: Vec<String>,
    pub ignore_workspaces: Vec<i32>,
}

} // verus!
