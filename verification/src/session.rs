//! The rules of a session: which windows are saved and with what command,
//! how windows are grouped by workspace, and what is dispatched to Hyprland
//! to bring a saved window back.
use vstd::prelude::*;
use crate::config::{
    class_is_ignored, custom_command, first_command_for, lemma_first_command_unique, Config,
};
use crate::text::{
    concat, contains, starts_with, copy_string, copy_strings, i64_to_string, join, join_strings,
    lowercase, owned, signed_decimal, split_whitespace, str_contains, str_eq, to_lowercase,
    views, words,
};
use crate::types::{
    HyprlandClient, HyprlandEvent, HyprlandWorkspace, SystemdServiceInfo, UwsmAppState,
    WorkspaceState,
};
use crate::uwsm::UwsmIntegration;
use crate::walker::{class_match, launch_words, WalkerIntegration};

verus! {

/// What a session is made with: the configuration, the UWSM integration and
/// the desktop entries.
pub struct SessionManager {
    pub config: Config,
    pub uwsm: UwsmIntegration,
    pub walker: WalkerIntegration,
}

/// `k` is the first position after the first of `parts` whose word holds
/// no `=`.
pub open spec fn first_plain_word(parts: Seq<Seq<char>>, k: int) -> bool {
    &&& 1 <= k < parts.len()
    &&& !contains(parts[k], "="@)
    &&& forall|j: int| 1 <= j < k ==> contains(#[trigger] parts[j], "="@)
}

/// The program of a command line: after a leading `env`, the first word
/// that is not an assignment; else the first word.
pub open spec fn main_executable(parts: Seq<Seq<char>>) -> Seq<char> {
    if parts[0] == "env"@ && parts.len() > 1 && exists|k: int| first_plain_word(parts, k) {
        parts[choose|k: int| first_plain_word(parts, k)]
    } else {
        parts[0]
    }
}

/// A command line read from a process, as it is restored: its words, or
/// just its program when it pipes or runs `sudo` or `tee`.
pub open spec fn cleaned_pid_command(cmd: Seq<char>) -> Seq<Seq<char>> {
    let parts = words(cmd);
    if parts.len() == 0 {
        seq![]
    } else if contains(cmd, "|"@) || contains(cmd, "sudo"@) || contains(cmd, "tee"@) {
        seq![main_executable(parts)]
    } else {
        parts
    }
}

/// The command for a few well-known classes, else the lowercase class.
pub open spec fn known_command(class: Seq<char>) -> Seq<Seq<char>> {
    if class == "Spotify"@ {
        seq!["spotify"@]
    } else if class == "org.gnome.Nautilus"@ {
        seq!["nautilus"@]
    } else if class == "chromium"@ {
        seq!["chromium"@]
    } else if class == "firefox"@ {
        seq!["firefox"@]
    } else {
        seq![lowercase(class)]
    }
}

/// The command that restores a window of `class`: its custom command; else
/// the command of its systemd unit; else its process's command line unless
/// that is empty or just the lowercase class; else its desktop entry's
/// command unless that is empty or starts with the lowercase class; else a
/// well-known command.
pub open spec fn app_command(
    config: Config,
    entries: Seq<(String, crate::types::DesktopEntry)>,
    walker_enabled: bool,
    class: Seq<char>,
    unit_command: Option<Seq<char>>,
    pid_command: Seq<char>,
) -> Seq<Seq<char>> {
    match custom_command(config.commands@, class) {
        Some(c) => words(c),
        None => match unit_command {
            Some(u) => words(u),
            None => if pid_command.len() > 0 && pid_command != lowercase(class) {
                cleaned_pid_command(pid_command)
            } else {
                let w = launch_words(entries, class);
                if walker_enabled && w.len() > 0 && w[0] != lowercase(class) {
                    w
                } else {
                    known_command(class)
                }
            },
        },
    }
}

/// An optional string taken as characters.
pub open spec fn opt_chars(o: Option<&str>) -> Option<Seq<char>> {
    match o {
        Some(s) => Some(s@),
        None => None,
    }
}

impl SessionManager {
    /// A manager over these parts.
    pub fn new(config: Config, uwsm: UwsmIntegration, walker: WalkerIntegration) -> (r: Self)
        ensures
            r.config == config,
            r.uwsm == uwsm,
            r.walker == walker,
    {
        SessionManager { config, uwsm, walker }
    }

    /// The command to restore from a command line read from a process: its
    /// words, or just its program when it pipes or runs `sudo` or `tee`.
    pub fn clean_pid_command(&self, cmd: &str) -> (r: Vec<String>)
        ensures
            views(r@) == cleaned_pid_command(cmd@),
    {
        let parts = split_whitespace(cmd);
        if parts.len() == 0 {
            return Vec::new();
        }
        let complex = str_contains(cmd, "|") || str_contains(cmd, "sudo") || str_contains(cmd, "tee");
        if !complex {
            return parts;
        }
        assert(views(parts@)[0] == parts@[0]@);
        let mut main = copy_string(&parts[0]);
        if str_eq(parts[0].as_str(), "env") && parts.len() > 1 {
            let mut k: usize = 1;
            while k < parts.len() && str_contains(parts[k].as_str(), "=")
                invariant
                    1 <= k <= parts.len(),
                    forall|j: int| 1 <= j < k ==> contains(#[trigger] views(parts@)[j], "="@),
                decreases parts.len() - k,
            {
                assert(views(parts@)[k as int] == parts@[k as int]@);
                k = k + 1;
            }
            if k < parts.len() {
                assert(views(parts@)[k as int] == parts@[k as int]@);
                assert(first_plain_word(views(parts@), k as int));
                proof {
                    let c = choose|c: int| first_plain_word(views(parts@), c);
                    if c < k {
                        assert(contains(views(parts@)[c], "="@));
                    } else if k < c {
                        assert(contains(views(parts@)[k as int], "="@));
                    }
                }
                main = copy_string(&parts[k]);
            } else {
                proof {
                    if exists|c: int| first_plain_word(views(parts@), c) {
                        let c = choose|c: int| first_plain_word(views(parts@), c);
                        assert(contains(views(parts@)[c], "="@));
                    }
                }
            }
        }
        let v = vec![main];
        assert(views(v@) =~= seq![main_executable(views(parts@))]);
        v
    }

    fn known_command(class: &str) -> (r: Vec<String>)
        ensures
            views(r@) == known_command(class@),
    {
        let c = if str_eq(class, "Spotify") {
            owned("spotify")
        } else if str_eq(class, "org.gnome.Nautilus") {
            owned("nautilus")
        } else if str_eq(class, "chromium") {
            owned("chromium")
        } else if str_eq(class, "firefox") {
            owned("firefox")
        } else {
            to_lowercase(class)
        };
        let v = vec![c];
        assert(views(v@) =~= known_command(class@));
        v
    }

    /// The command that restores a window of `class`. `unit_command` is the
    /// command read for the systemd unit the window belongs to, if it
    /// belongs to one and the command could be read; `pid_command` is the
    /// command line read from the window's process, empty when it could not
    /// be read.
    pub fn get_app_command(&self, class: &str, unit_command: Option<&str>, pid_command: &str) -> (r: Vec<String>)
        ensures
            views(r@) == app_command(
                self.config,
                self.walker.entries(),
                self.walker.spec_enabled(),
                class@,
                opt_chars(unit_command),
                pid_command@,
            ),
    {
        match self.config.get_custom_command(class) {
            Some(c) => {
                proof {
                    let i = choose|i: int| first_command_for(self.config.commands@, class@, i) && *c == self.config.commands@[i].1;
                    lemma_first_command_unique(self.config.commands@, class@, i);
                }
                return split_whitespace(c.as_str());
            },
            None => {},
        }
        match unit_command {
            Some(u) => {
                return split_whitespace(u);
            },
            None => {},
        }
        let lower_class = to_lowercase(class);
        if !pid_command.is_empty() && !str_eq(pid_command, lower_class.as_str()) {
            return self.clean_pid_command(pid_command);
        }
        if self.walker.is_enabled() {
            let w = self.walker.get_launch_command(class, None);
            if w.len() > 0 {
                assert(views(w@)[0] == w@[0]@);
                if !str_eq(w[0].as_str(), lower_class.as_str()) {
                    return w;
                }
            }
        }
        Self::known_command(class)
    }
}

/// Windows of `c` are saved: neither its class nor its workspace is
/// ignored.
pub open spec fn is_kept(config: Config, c: HyprlandClient) -> bool {
    &&& !class_is_ignored(views(config.filters.ignore_classes@), c.class@)
    &&& !config.filters.ignore_workspaces@.contains(c.workspace.id)
}

/// The positions of the saved windows among `clients`, in order.
pub open spec fn kept_positions(config: Config, clients: Seq<HyprlandClient>) -> Seq<int>
    decreases clients.len(),
{
    if clients.len() == 0 {
        seq![]
    } else if is_kept(config, clients.last()) {
        kept_positions(config, clients.drop_last()).push(clients.len() - 1)
    } else {
        kept_positions(config, clients.drop_last())
    }
}

/// Position `k` of `corr` is the first recorded for `address`.
pub open spec fn first_for_address(corr: Seq<(String, SystemdServiceInfo)>, address: Seq<char>, k: int) -> bool {
    &&& 0 <= k < corr.len()
    &&& corr[k].0@ == address
    &&& forall|j: int| 0 <= j < k ==> corr[j].0@ != address
}

/// The name of the unit recorded for the window at `address`.
pub open spec fn correlated_unit(corr: Seq<(String, SystemdServiceInfo)>, address: Seq<char>) -> Option<Seq<char>> {
    if exists|k: int| first_for_address(corr, address, k) {
        Some(corr[choose|k: int| first_for_address(corr, address, k)].1.unit_name@)
    } else {
        None
    }
}

/// The desktop entry file recorded for a saved window of `class`.
pub open spec fn desktop_entry_for(m: SessionManager, class: Seq<char>) -> Option<Seq<char>> {
    if m.walker.spec_enabled() {
        match class_match(m.walker.entries(), class) {
            Some(i) => Some(m.walker.entries()[i].1.path@),
            None => None,
        }
    } else {
        None
    }
}

/// An optional string taken as characters.
pub open spec fn opt_string(o: Option<String>) -> Option<Seq<char>> {
    match o {
        Some(s) => Some(s@),
        None => None,
    }
}

/// `app` is the saved form of the window `client`, given what was read
/// about its unit's command and its process's command line.
pub open spec fn app_from_client(
    m: SessionManager,
    app: UwsmAppState,
    client: HyprlandClient,
    corr: Seq<(String, SystemdServiceInfo)>,
    unit_command: Option<Seq<char>>,
    pid_command: Seq<char>,
) -> bool {
    let unit = correlated_unit(corr, client.address@);
    &&& app.class@ == client.class@
    &&& app.title@ == client.title@
    &&& opt_string(app.desktop_entry) == desktop_entry_for(m, client.class@)
    &&& views(app.command@) == app_command(
        m.config,
        m.walker.entries(),
        m.walker.spec_enabled(),
        client.class@,
        if unit is Some {
            unit_command
        } else {
            None
        },
        pid_command,
    )
    &&& app.workspace_id == client.workspace.id
    &&& app.position == client.at
    &&& app.size == client.size
    &&& app.monitor@ == signed_decimal(client.monitor as int)
    &&& app.floating == client.floating
    &&& app.fullscreen == client.fullscreen
    &&& opt_string(app.systemd_unit) == unit
    &&& app.uwsm_launched == unit is Some
    &&& app.pid == Some(client.pid)
}

impl SessionManager {
    fn unit_of(&self, corr: &Vec<(String, SystemdServiceInfo)>, address: &str) -> (r: Option<String>)
        ensures
            opt_string(r) == correlated_unit(corr@, address@),
    {
        let mut k: usize = 0;
        while k < corr.len()
            invariant
                k <= corr.len(),
                forall|j: int| 0 <= j < k ==> corr@[j].0@ != address@,
            decreases corr.len() - k,
        {
            if str_eq(corr[k].0.as_str(), address) {
                proof {
                    let c = choose|c: int| first_for_address(corr@, address@, c);
                    assert(first_for_address(corr@, address@, k as int));
                    if c < k {
                        assert(corr@[c].0@ == address@);
                    } else if k < c {
                        assert(corr@[k as int].0@ == address@);
                    }
                }
                return Some(copy_string(&corr[k].1.unit_name));
            }
            k = k + 1;
        }
        None
    }

    fn desktop_entry_path(&self, class: &str) -> (r: Option<String>)
        ensures
            opt_string(r) == desktop_entry_for(*self, class@),
    {
        if !self.walker.is_enabled() {
            return None;
        }
        match self.walker.find_desktop_entry_by_class(class) {
            Some(e) => Some(copy_string(&e.path)),
            None => None,
        }
    }

    /// The saved form of each window whose class and workspace are not
    /// ignored, in order. For the window at position `i`, `unit_commands[i]`
    /// is the command read for its systemd unit (if it could be read) and
    /// `pid_commands[i]` the command line read from its process (empty if it
    /// could not be read).
    pub fn collect_uwsm_apps(
        &self,
        clients: &Vec<HyprlandClient>,
        correlation: &Vec<(String, SystemdServiceInfo)>,
        unit_commands: &Vec<Option<String>>,
        pid_commands: &Vec<String>,
    ) -> (r: Vec<UwsmAppState>)
        requires
            unit_commands@.len() == clients@.len(),
            pid_commands@.len() == clients@.len(),
        ensures
            r@.len() == kept_positions(self.config, clients@).len(),
            forall|k: int|
                0 <= k < r@.len() ==> {
                    let i = #[trigger] kept_positions(self.config, clients@)[k];
                    app_from_client(
                        *self,
                        r@[k],
                        clients@[i],
                        correlation@,
                        opt_string(unit_commands@[i]),
                        pid_commands@[i]@,
                    )
                },
            forall|k: int, w: int|
                0 <= k < r@.len() && 0 <= w < self.config.filters.ignore_workspaces@.len() ==> #[trigger] r@[k].workspace_id
                    != #[trigger] self.config.filters.ignore_workspaces@[w],
            forall|k: int|
                0 <= k < r@.len() ==> !class_is_ignored(views(self.config.filters.ignore_classes@), #[trigger] r@[k].class@),
    {
        let mut out: Vec<UwsmAppState> = Vec::new();
        let mut i: usize = 0;
        while i < clients.len()
            invariant
                i <= clients.len(),
                unit_commands@.len() == clients@.len(),
                pid_commands@.len() == clients@.len(),
                out@.len() == kept_positions(self.config, clients@.take(i as int)).len(),
                forall|k: int|
                    0 <= k < kept_positions(self.config, clients@.take(i as int)).len() ==> 0
                        <= #[trigger] kept_positions(self.config, clients@.take(i as int))[k] < i,
                forall|k: int|
                    0 <= k < out@.len() ==> {
                        let j = #[trigger] kept_positions(self.config, clients@.take(i as int))[k];
                        app_from_client(
                            *self,
                            out@[k],
                            clients@[j],
                            correlation@,
                            opt_string(unit_commands@[j]),
                            pid_commands@[j]@,
                        )
                    },
                forall|k: int, w: int|
                    0 <= k < out@.len() && 0 <= w < self.config.filters.ignore_workspaces@.len() ==> #[trigger] out@[k].workspace_id
                        != #[trigger] self.config.filters.ignore_workspaces@[w],
                forall|k: int|
                    0 <= k < out@.len() ==> !class_is_ignored(views(self.config.filters.ignore_classes@), #[trigger] out@[k].class@),
            decreases clients.len() - i,
        {
            let ghost before = clients@.take(i as int);
            let ghost after = clients@.take(i + 1);
            assert(after.drop_last() =~= before);
            assert(after.last() == clients@[i as int]);
            let c = &clients[i];
            let keep = !self.config.should_ignore_class(c.class.as_str())
                && !self.config.should_ignore_workspace(c.workspace.id);
            if keep {
                let unit = self.unit_of(correlation, c.address.as_str());
                let unit_command = match &unit {
                    Some(_) => match &unit_commands[i] {
                        Some(u) => Some(u.as_str()),
                        None => None,
                    },
                    None => None,
                };
                let command = self.get_app_command(c.class.as_str(), unit_command, pid_commands[i].as_str());
                let launched = unit.is_some();
                let app = UwsmAppState {
                    class: copy_string(&c.class),
                    title: copy_string(&c.title),
                    desktop_entry: self.desktop_entry_path(c.class.as_str()),
                    command,
                    workspace_id: c.workspace.id,
                    position: c.at,
                    size: c.size,
                    monitor: i64_to_string(c.monitor as i64),
                    floating: c.floating,
                    fullscreen: c.fullscreen,
                    systemd_unit: unit,
                    uwsm_launched: launched,
                    pid: Some(c.pid),
                };
                assert(opt_chars(unit_command) == if correlated_unit(correlation@, c.address@) is Some {
                    opt_string(unit_commands@[i as int])
                } else {
                    None
                });
                let ghost prev = out@;
                let ghost ws = app.workspace_id;
                let ghost cl = app.class@;
                assert(ws == c.workspace.id && cl == c.class@);
                out.push(app);
                proof {
                    assert forall|k: int, w: int|
                        0 <= k < out@.len() && 0 <= w < self.config.filters.ignore_workspaces@.len() implies #[trigger] out@[k].workspace_id
                            != #[trigger] self.config.filters.ignore_workspaces@[w] by {
                        if k < prev.len() {
                            assert(out@[k] == prev[k]);
                        } else {
                            assert(out@[k].workspace_id == ws);
                            assert(self.config.filters.ignore_workspaces@.contains(self.config.filters.ignore_workspaces@[w]));
                        }
                    }
                    assert forall|k: int| 0 <= k < out@.len() implies !class_is_ignored(
                        views(self.config.filters.ignore_classes@),
                        #[trigger] out@[k].class@,
                    ) by {
                        if k < prev.len() {
                            assert(out@[k] == prev[k]);
                        } else {
                            assert(out@[k].class@ == cl);
                        }
                    }
                }
                assert(kept_positions(self.config, after) == kept_positions(self.config, before).push(i as int));
            } else {
                assert(kept_positions(self.config, after) == kept_positions(self.config, before));
            }
            i = i + 1;
        }
        assert(clients@.take(i as int) =~= clients@);
        out
    }
}

/// Two saved windows agree field by field.
pub open spec fn same_app(a: UwsmAppState, b: UwsmAppState) -> bool {
    &&& a.class@ == b.class@
    &&& a.title@ == b.title@
    &&& opt_string(a.desktop_entry) == opt_string(b.desktop_entry)
    &&& views(a.command@) == views(b.command@)
    &&& a.workspace_id == b.workspace_id
    &&& a.position == b.position
    &&& a.size == b.size
    &&& a.monitor@ == b.monitor@
    &&& a.floating == b.floating
    &&& a.fullscreen == b.fullscreen
    &&& opt_string(a.systemd_unit) == opt_string(b.systemd_unit)
    &&& a.uwsm_launched == b.uwsm_launched
    &&& a.pid == b.pid
}

/// The positions of the windows of `apps` on workspace `id`, in order.
pub open spec fn on_workspace(apps: Seq<UwsmAppState>, id: i32) -> Seq<int>
    decreases apps.len(),
{
    if apps.len() == 0 {
        seq![]
    } else if apps.last().workspace_id == id {
        on_workspace(apps.drop_last(), id).push(apps.len() - 1)
    } else {
        on_workspace(apps.drop_last(), id)
    }
}

/// `w` is the saved form of workspace `ws` holding the windows of `apps` on
/// it, in order.
pub open spec fn workspace_from(w: WorkspaceState, ws: HyprlandWorkspace, apps: Seq<UwsmAppState>) -> bool {
    &&& w.id == ws.id
    &&& w.name@ == ws.name@
    &&& w.monitor@ == ws.monitor@
    &&& w.windows@.len() == on_workspace(apps, ws.id).len()
    &&& forall|k: int|
        0 <= k < w.windows@.len() ==> same_app(
            #[trigger] w.windows@[k],
            apps[on_workspace(apps, ws.id)[k]],
        )
}

/// A copy of an optional string.
pub fn copy_opt(o: &Option<String>) -> (r: Option<String>)
    ensures
        opt_string(r) == opt_string(*o),
{
    match o {
        Some(s) => Some(copy_string(s)),
        None => None,
    }
}

/// A copy of a saved window.
pub fn copy_app(a: &UwsmAppState) -> (r: UwsmAppState)
    ensures
        same_app(r, *a),
{
    UwsmAppState {
        class: copy_string(&a.class),
        title: copy_string(&a.title),
        desktop_entry: copy_opt(&a.desktop_entry),
        command: copy_strings(&a.command),
        workspace_id: a.workspace_id,
        position: a.position,
        size: a.size,
        monitor: copy_string(&a.monitor),
        floating: a.floating,
        fullscreen: a.fullscreen,
        systemd_unit: copy_opt(&a.systemd_unit),
        uwsm_launched: a.uwsm_launched,
        pid: a.pid,
    }
}

/// The ids of the workspaces that hold windows, once each, ascending.
pub open spec fn ids_with_windows(ws: Seq<WorkspaceState>) -> Set<i32> {
    Set::new(|id: i32| exists|k: int| 0 <= k < ws.len() && ws[k].id == id && ws[k].windows@.len() > 0)
}

impl SessionManager {
    /// The saved form of each workspace, holding the saved windows on it.
    pub fn workspace_states(&self, workspaces: &Vec<HyprlandWorkspace>, apps: &Vec<UwsmAppState>) -> (r: Vec<WorkspaceState>)
        ensures
            r@.len() == workspaces@.len(),
            forall|k: int| 0 <= k < r@.len() ==> workspace_from(#[trigger] r@[k], workspaces@[k], apps@),
    {
        let mut out: Vec<WorkspaceState> = Vec::new();
        let mut i: usize = 0;
        while i < workspaces.len()
            invariant
                i <= workspaces.len(),
                out@.len() == i,
                forall|k: int| 0 <= k < i ==> workspace_from(#[trigger] out@[k], workspaces@[k], apps@),
            decreases workspaces.len() - i,
        {
            let ws = &workspaces[i];
            let mut windows: Vec<UwsmAppState> = Vec::new();
            let mut j: usize = 0;
            while j < apps.len()
                invariant
                    j <= apps.len(),
                    windows@.len() == on_workspace(apps@.take(j as int), ws.id).len(),
                    forall|k: int| 0 <= k < on_workspace(apps@.take(j as int), ws.id).len() ==> 0 <= #[trigger] on_workspace(apps@.take(j as int), ws.id)[k] < j,
                    forall|k: int| 0 <= k < windows@.len() ==> same_app(#[trigger] windows@[k], apps@[on_workspace(apps@.take(j as int), ws.id)[k]]),
                decreases apps.len() - j,
            {
                let ghost before = apps@.take(j as int);
                let ghost after = apps@.take(j + 1);
                assert(after.drop_last() =~= before);
                assert(after.last() == apps@[j as int]);
                if apps[j].workspace_id == ws.id {
                    windows.push(copy_app(&apps[j]));
                    assert(on_workspace(after, ws.id) == on_workspace(before, ws.id).push(j as int));
                } else {
                    assert(on_workspace(after, ws.id) == on_workspace(before, ws.id));
                }
                j = j + 1;
            }
            assert(apps@.take(j as int) =~= apps@);
            out.push(WorkspaceState {
                id: ws.id,
                name: copy_string(&ws.name),
                monitor: copy_string(&ws.monitor),
                windows,
            });
            i = i + 1;
        }
        out
    }

    /// The ids of the workspaces that hold saved windows, each once, in
    /// ascending order: the workspaces to visit so that Hyprland creates
    /// them before windows are moved there.
    #[verifier::spinoff_prover]
    pub fn workspaces_to_restore(&self, workspaces: &Vec<WorkspaceState>) -> (r: Vec<i32>)
        ensures
            forall|i: int, j: int| 0 <= i < j < r@.len() ==> r@[i] < r@[j],
            r@.to_set() == ids_with_windows(workspaces@),
    {
        let mut out: Vec<i32> = Vec::new();
        let mut i: usize = 0;
        while i < workspaces.len()
            invariant
                i <= workspaces.len(),
                forall|a: int, b: int| 0 <= a < b < out@.len() ==> out@[a] < out@[b],
                out@.to_set() == ids_with_windows(workspaces@.take(i as int)),
            decreases workspaces.len() - i,
        {
            let ghost before = out@;
            if workspaces[i].windows.len() > 0 {
                let id = workspaces[i].id;
                let mut p: usize = 0;
                while p < out.len() && out[p] < id
                    invariant
                        p <= out.len(),
                        out@ == before,
                        forall|q: int| 0 <= q < p ==> out@[q] < id,
                    decreases out.len() - p,
                {
                    p = p + 1;
                }
                if !(p < out.len() && out[p] == id) {
                    out.insert(p, id);
                    proof {
                        assert(out@ =~= before.subrange(0, p as int).push(id) + before.subrange(p as int, before.len() as int));
                        assert forall|a: int, b: int| 0 <= a < b < out@.len() implies out@[a] < out@[b] by {
                            if a < p && b < p { assert(out@[a] == before[a] && out@[b] == before[b]); }
                            else if a < p && b == p { assert(out@[a] == before[a]); }
                            else if a < p { assert(out@[a] == before[a] && out@[b] == before[b - 1]); }
                            else if a == p { assert(out@[b] == before[b - 1]); }
                            else { assert(out@[a] == before[a - 1] && out@[b] == before[b - 1]); }
                        }
                        assert forall|y: i32| out@.contains(y) <==> (before.contains(y) || y == id) by {
                            if out@.contains(y) {
                                let q = choose|q: int| 0 <= q < out@.len() && out@[q] == y;
                                if q < p { assert(before[q] == y); } else if q > p { assert(before[q - 1] == y); }
                            }
                            if before.contains(y) {
                                let q = choose|q: int| 0 <= q < before.len() && before[q] == y;
                                if q < p { assert(out@[q] == y); } else { assert(out@[q + 1] == y); }
                            }
                            if y == id { assert(out@[p as int] == y); }
                        }
                    }
                } else {
                    assert(out@[p as int] == id);
                    assert(out@ == before);
                    assert(before.contains(id));
                }
                assert(id == workspaces@[i as int].id);
                assert(forall|y: i32| out@.contains(y) <==> (before.contains(y) || y == workspaces@[i as int].id));
            } else {
                assert(forall|y: i32| out@.contains(y) <==> before.contains(y));
            }
            proof {
                let t0 = workspaces@.take(i as int);
                let t1 = workspaces@.take(i + 1);
                assert(t1.drop_last() =~= t0);
                assert(t1[i as int] == workspaces@[i as int]);
                assert forall|x: i32| out@.to_set().contains(x) <==> ids_with_windows(t1).contains(x) by {
                    assert(before.to_set().contains(x) <==> before.contains(x));
                    assert(out@.to_set().contains(x) <==> out@.contains(x));
                    if ids_with_windows(t1).contains(x) {
                        let k = choose|k: int| 0 <= k < t1.len() && t1[k].id == x && t1[k].windows@.len() > 0;
                        if k < i {
                            assert(t0[k] == t1[k]);
                            assert(ids_with_windows(t0).contains(x));
                        }
                    }
                    if ids_with_windows(t0).contains(x) {
                        let k = choose|k: int| 0 <= k < t0.len() && t0[k].id == x && t0[k].windows@.len() > 0;
                        assert(t1[k] == t0[k]);
                    }
                }
                assert(out@.to_set() =~= ids_with_windows(t1));
            }
            i = i + 1;
        }
        assert(workspaces@.take(i as int) =~= workspaces@);
        out
    }
}

/// What is dispatched to place a restored window: a move to its workspace,
/// the commands to try instead when that move fails, and the commands that
/// then set its floating, fullscreen, size and position.
#[derive(Debug)]
pub struct WindowPlan {
    pub move_command: String,
    pub fallback_commands: Vec<String>,
    pub adjust_commands: Vec<String>,
}

/// How a restored application is started: through UWSM with these
/// arguments, or by `hyprctl dispatch exec` with this command line.
#[derive(Debug)]
pub enum RestoreLaunch {
    Uwsm(Vec<String>),
    Hyprctl(String),
}

/// What is waited for after starting a restored application: its unit,
/// for at most the given milliseconds; a fixed number of milliseconds; or
/// nothing.
#[derive(Debug)]
pub enum RestoreWait {
    ForUnit(String, u64),
    Sleep(u64),
    Nothing,
}

/// Counts that describe the session manager's state.
#[derive(Debug, Clone, Copy)]
pub struct SessionInfo {
    pub has_saved_session: bool,
    pub current_session_timestamp: Option<u64>,
    pub current_workspaces: usize,
    pub current_windows: usize,
    pub uwsm_available: bool,
    pub walker_enabled: bool,
}

/// Position `i` holds the window that a restored window of `class` is taken
/// to be: among the windows of that class, one with the highest process id,
/// the last such.
pub open spec fn newest_of_class(clients: Seq<HyprlandClient>, class: Seq<char>, i: int) -> bool {
    &&& 0 <= i < clients.len()
    &&& clients[i].class@ == class
    &&& forall|j: int| 0 <= j < clients.len() && clients[j].class@ == class ==> clients[j].pid <= clients[i].pid
    &&& forall|j: int| i < j < clients.len() && clients[j].class@ == class ==> clients[j].pid < clients[i].pid
}

/// The window taken for a restored window of `class`, if there is one.
pub open spec fn target_window(clients: Seq<HyprlandClient>, class: Seq<char>) -> Option<int> {
    if exists|i: int| newest_of_class(clients, class, i) {
        Some(choose|i: int| newest_of_class(clients, class, i))
    } else {
        None
    }
}

/// `"movetoworkspacesilent WS"`.
pub open spec fn move_to(ws: i32) -> Seq<char> {
    "movetoworkspacesilent "@ + signed_decimal(ws as int)
}

/// The commands that set a placed window's state, given its address.
pub open spec fn adjustments(app: UwsmAppState, address: Seq<char>) -> Seq<Seq<char>> {
    let float_cmds = if app.floating {
        seq!["togglefloating address:"@ + address]
    } else {
        seq![]
    };
    let full_cmds = if app.fullscreen {
        seq!["fullscreen address:"@ + address]
    } else {
        seq![]
    };
    let geometry = if !(app.position.0 == 0 && app.position.1 == 0) && !(app.size.0 == 0 && app.size.1 == 0) {
        let resize = "resizewindowpixel exact "@ + signed_decimal(app.size.0 as int) + ","@
            + signed_decimal(app.size.1 as int) + ",address:"@ + address;
        if app.floating {
            seq![resize, "movewindowpixel exact "@ + signed_decimal(app.position.0 as int) + ","@
                + signed_decimal(app.position.1 as int) + ",address:"@ + address]
        } else {
            seq![resize]
        }
    } else {
        seq![]
    };
    float_cmds + full_cmds + geometry
}

/// `plan` places `app` among the current `clients`.
pub open spec fn plans_window(plan: WindowPlan, app: UwsmAppState, clients: Seq<HyprlandClient>) -> bool {
    match target_window(clients, app.class@) {
        Some(i) => {
            let a = clients[i].address@;
            &&& plan.move_command@ == move_to(app.workspace_id) + ",address:"@ + a
            &&& views(plan.fallback_commands@) == seq!["focuswindow address:"@ + a, move_to(app.workspace_id)]
            &&& views(plan.adjust_commands@) == adjustments(app, a)
        },
        None => {
            &&& plan.move_command@ == move_to(app.workspace_id)
            &&& plan.fallback_commands@.len() == 0
            &&& plan.adjust_commands@.len() == 0
        },
    }
}

/// The events after which the session is saved again.
pub open spec fn triggers_save(e: HyprlandEvent) -> bool {
    ||| e is WindowOpen
    ||| e is WindowClose
    ||| e is WindowMove
    ||| e is WorkspaceCreate
    ||| e is WorkspaceDestroy
}

fn signed_text(n: i64) -> (r: String)
    ensures
        r@ == signed_decimal(n as int),
{
    i64_to_string(n)
}

fn cat3(a: &str, b: &str, c: &str) -> (r: String)
    ensures
        r@ == a@ + b@ + c@,
{
    let x = concat(a, b);
    concat(x.as_str(), c)
}

impl SessionManager {
    fn newest_window(&self, clients: &Vec<HyprlandClient>, class: &str) -> (r: Option<usize>)
        ensures
            match r {
                Some(i) => target_window(clients@, class@) == Some(i as int),
                None => target_window(clients@, class@) is None,
            },
    {
        let mut best: Option<usize> = None;
        let mut i: usize = 0;
        while i < clients.len()
            invariant
                i <= clients.len(),
                match best {
                    Some(b) => b < i && clients@[b as int].class@ == class@
                        && (forall|j: int| 0 <= j < i && clients@[j].class@ == class@ ==> clients@[j].pid <= clients@[b as int].pid)
                        && (forall|j: int| b < j < i && clients@[j].class@ == class@ ==> clients@[j].pid < clients@[b as int].pid),
                    None => forall|j: int| 0 <= j < i ==> clients@[j].class@ != class@,
                },
            decreases clients.len() - i,
        {
            if str_eq(clients[i].class.as_str(), class) {
                match best {
                    Some(b) => {
                        if clients[i].pid >= clients[b].pid {
                            best = Some(i);
                        }
                    },
                    None => {
                        best = Some(i);
                    },
                }
            }
            i = i + 1;
        }
        match best {
            Some(b) => {
                proof {
                    assert(newest_of_class(clients@, class@, b as int));
                    let c = choose|c: int| newest_of_class(clients@, class@, c);
                    if c < b {
                        assert(clients@[b as int].pid < clients@[c].pid);
                    } else if b < c {
                        assert(clients@[c].pid < clients@[b as int].pid);
                    }
                }
                Some(b)
            },
            None => {
                proof {
                    if exists|c: int| newest_of_class(clients@, class@, c) {
                        let c = choose|c: int| newest_of_class(clients@, class@, c);
                        assert(clients@[c].class@ == class@);
                    }
                }
                None
            },
        }
    }

    /// The command that makes sure workspace `id` exists and shows it.
    pub fn workspace_command(&self, id: i32) -> (r: String)
        ensures
            r@ == "workspace "@ + signed_decimal(id as int),
    {
        let n = signed_text(id as i64);
        concat("workspace ", n.as_str())
    }

    /// What to dispatch to place the restored `app`, given the windows
    /// Hyprland now reports.
    pub fn configure_restored_window(&self, app: &UwsmAppState, clients: &Vec<HyprlandClient>) -> (r: WindowPlan)
        ensures
            plans_window(r, *app, clients@),
    {
        let ws = signed_text(app.workspace_id as i64);
        let mv = concat("movetoworkspacesilent ", ws.as_str());
        match self.newest_window(clients, app.class.as_str()) {
            None => WindowPlan {
                move_command: mv,
                fallback_commands: Vec::new(),
                adjust_commands: Vec::new(),
            },
            Some(t) => {
                let a = clients[t].address.as_str();
                let primary = cat3(mv.as_str(), ",address:", a);
                let focus = concat("focuswindow address:", a);
                let fallback = vec![focus, copy_string(&mv)];
                assert(views(fallback@) =~= seq!["focuswindow address:"@ + a@, move_to(app.workspace_id)]);
                let mut adjust: Vec<String> = Vec::new();
                let ghost a_s = a@;
                if app.floating {
                    adjust.push(concat("togglefloating address:", a));
                }
                if app.fullscreen {
                    adjust.push(concat("fullscreen address:", a));
                }
                let ghost before_geometry = views(adjust@);
                if !(app.position.0 == 0 && app.position.1 == 0) && !(app.size.0 == 0 && app.size.1 == 0) {
                    let w = signed_text(app.size.0 as i64);
                    let h = signed_text(app.size.1 as i64);
                    let p1 = cat3("resizewindowpixel exact ", w.as_str(), ",");
                    let p2 = cat3(p1.as_str(), h.as_str(), ",address:");
                    let resize = concat(p2.as_str(), a);
                    adjust.push(resize);
                    if app.floating {
                        let x = signed_text(app.position.0 as i64);
                        let y = signed_text(app.position.1 as i64);
                        let q1 = cat3("movewindowpixel exact ", x.as_str(), ",");
                        let q2 = cat3(q1.as_str(), y.as_str(), ",address:");
                        adjust.push(concat(q2.as_str(), a));
                    }
                }
                assert(views(adjust@) =~= adjustments(*app, a@));
                WindowPlan { move_command: primary, fallback_commands: fallback, adjust_commands: adjust }
            },
        }
    }

    /// How the saved `app` is started again: through UWSM when UWSM
    /// started it and is available, else by `hyprctl dispatch exec` with its
    /// command's words joined by spaces.
    pub fn restore_launch(&self, app: &UwsmAppState) -> (r: RestoreLaunch)
        ensures
            app.uwsm_launched && self.uwsm.available ==> (r matches RestoreLaunch::Uwsm(args) && views(args@) == crate::uwsm::uwsm_app_args(views(app.command@))),
            !(app.uwsm_launched && self.uwsm.available) ==> (r matches RestoreLaunch::Hyprctl(c) && c@ == join(views(app.command@), " "@)),
    {
        if app.uwsm_launched && self.uwsm.is_available() {
            match self.uwsm.launch_via_uwsm(&app.command) {
                Ok(args) => RestoreLaunch::Uwsm(args),
                Err(_) => RestoreLaunch::Uwsm(Vec::new()),
            }
        } else {
            RestoreLaunch::Hyprctl(join_strings(&app.command, " "))
        }
    }

    /// What is waited for after starting the saved `app`: its unit, when it
    /// has one and waiting for units is configured; a second when it has
    /// none.
    pub fn restore_wait(&self, app: &UwsmAppState) -> (r: RestoreWait)
        ensures
            match app.systemd_unit {
                Some(u) => if self.config.restoration.wait_for_systemd_ready {
                    r matches RestoreWait::ForUnit(n, t) && n@ == u@ && t == self.config.restoration.systemd_timeout_ms
                } else {
                    r matches RestoreWait::Nothing
                },
                None => r matches RestoreWait::Sleep(ms) && ms == 1000,
            },
    {
        match &app.systemd_unit {
            Some(u) => if self.config.restoration.wait_for_systemd_ready {
                RestoreWait::ForUnit(copy_string(u), self.config.restoration.systemd_timeout_ms)
            } else {
                RestoreWait::Nothing
            },
            None => RestoreWait::Sleep(1000),
        }
    }

    /// The renames that rotate the session backups before a new one is
    /// written as number 1: backup `i` becomes `i + 1`, from the highest
    /// kept number down.
    pub fn backup_rotation(&self) -> (r: Vec<(u32, u32)>)
        ensures
            r@.len() == if self.config.general.backup_count > 0 {
                self.config.general.backup_count - 1
            } else {
                0
            },
            forall|k: int|
                0 <= k < r@.len() ==> #[trigger] r@[k] == (
                    (self.config.general.backup_count - 1 - k) as u32,
                    (self.config.general.backup_count - k) as u32,
                ),
    {
        let n = self.config.general.backup_count;
        let mut out: Vec<(u32, u32)> = Vec::new();
        if n == 0 {
            return out;
        }
        let mut i: u32 = n - 1;
        while i >= 1
            invariant
                n == self.config.general.backup_count,
                n >= 1,
                i <= n - 1,
                out@.len() == n - 1 - i,
                forall|k: int| 0 <= k < out@.len() ==> #[trigger] out@[k] == ((n - 1 - k) as u32, (n - k) as u32),
            decreases i,
        {
            out.push((i, i + 1));
            i = i - 1;
        }
        out
    }

    /// Whether `event` changes what would be saved, so that a save follows.
    pub fn should_save(&self, event: &HyprlandEvent) -> (r: bool)
        ensures
            r == triggers_save(*event),
            r <==> (*event is WindowOpen || *event is WindowClose || *event is WindowMove
                || *event is WorkspaceCreate || *event is WorkspaceDestroy),
    {
        match event {
            HyprlandEvent::WindowOpen { .. } => true,
            HyprlandEvent::WindowClose { .. } => true,
            HyprlandEvent::WindowMove { .. } => true,
            HyprlandEvent::WorkspaceCreate { .. } => true,
            HyprlandEvent::WorkspaceDestroy { .. } => true,
            _ => false,
        }
    }

    /// The state report, given whether a saved session file exists and the
    /// timestamp, workspace count and window count of the current session.
    pub fn get_session_info(&self, has_saved_session: bool, current: Option<(u64, usize, usize)>) -> (r: SessionInfo)
        ensures
            r.has_saved_session == has_saved_session,
            r.current_session_timestamp == match current {
                Some(c) => Some(c.0),
                None => None::<u64>,
            },
            r.current_workspaces == match current {
                Some(c) => c.1,
                None => 0,
            },
            r.current_windows == match current {
                Some(c) => c.2,
                None => 0,
            },
            r.uwsm_available == self.uwsm.available,
            r.walker_enabled == self.walker.spec_enabled(),
    {
        SessionInfo {
            has_saved_session,
            current_session_timestamp: match current {
                Some(c) => Some(c.0),
                None => None,
            },
            current_workspaces: match current {
                Some(c) => c.1,
                None => 0,
            },
            current_windows: match current {
                Some(c) => c.2,
                None => 0,
            },
            uwsm_available: self.uwsm.is_available(),
            walker_enabled: self.walker.is_enabled(),
        }
    }
}

proof fn lemma_on_workspace_holds(apps: Seq<UwsmAppState>, j: int)
    requires
        0 <= j < apps.len(),
    ensures
        on_workspace(apps, apps[j].workspace_id).len() > 0,
    decreases apps.len(),
{
    if j < apps.len() - 1 {
        lemma_on_workspace_holds(apps.drop_last(), j);
    }
}

/// Every workspace that Hyprland listed at capture and that holds a saved
/// window is among the workspaces visited when the session is restored.
pub proof fn lemma_saved_workspaces_are_visited(
    ws: Seq<HyprlandWorkspace>,
    apps: Seq<UwsmAppState>,
    states: Seq<WorkspaceState>,
    visit: Seq<i32>,
    k: int,
    j: int,
)
    requires
        states.len() == ws.len(),
        forall|i: int| 0 <= i < states.len() ==> workspace_from(#[trigger] states[i], ws[i], apps),
        visit.to_set() == ids_with_windows(states),
        0 <= k < ws.len(),
        0 <= j < apps.len(),
        apps[j].workspace_id == ws[k].id,
    ensures
        visit.contains(ws[k].id),
{
    lemma_on_workspace_holds(apps, j);
    assert(workspace_from(states[k], ws[k], apps));
    assert(states[k].windows@.len() > 0);
    assert(ids_with_windows(states).contains(ws[k].id));
    assert(visit.to_set().contains(ws[k].id));
}

/// A window saved from a client is moved, when restored, to the workspace
/// that client was on: addressed to the newest window of its class when
/// there is one, else to whatever window is focused.
pub proof fn lemma_restored_to_saved_workspace(
    m: SessionManager,
    app: UwsmAppState,
    client: HyprlandClient,
    corr: Seq<(String, SystemdServiceInfo)>,
    unit_command: Option<Seq<char>>,
    pid_command: Seq<char>,
    plan: WindowPlan,
    now: Seq<HyprlandClient>,
)
    requires
        app_from_client(m, app, client, corr, unit_command, pid_command),
        plans_window(plan, app, now),
    ensures
        starts_with(plan.move_command@, move_to(client.workspace.id)),
        match target_window(now, client.class@) {
            Some(i) => now[i].class@ == client.class@ && plan.move_command@ == move_to(
                client.workspace.id,
            ) + ",address:"@ + now[i].address@,
            None => plan.move_command@ == move_to(client.workspace.id),
        },
{
    let mv = move_to(client.workspace.id);
    match target_window(now, client.class@) {
        Some(i) => {
            let c = choose|c: int| newest_of_class(now, client.class@, c);
            assert(newest_of_class(now, client.class@, c));
            assert(plan.move_command@.subrange(0, mv.len() as int) =~= mv);
        },
        None => {
            assert(plan.move_command@.subrange(0, mv.len() as int) =~= mv);
        },
    }
}


} // verus!
