//! The configuration: its defaults, where its files live, and the filters and
//! custom commands it holds.
use vstd::prelude::*;
use crate::text::{
    contains, decimal, join_path, lemma_decimal_reads_back, lowercase, owned, path_join, str_contains, to_lowercase,
    u64_to_string, concat, views,
};
use crate::error::{ErrorView, HyprsechyError, Result};
use crate::types::{FilterConfig, GeneralConfig, RestorationConfig, UwsmConfig, WalkerConfig};

verus! {

/// The whole configuration. `commands` maps a window class to the command
/// line that restores it; a configuration read from a file holds each class
/// once (`commands_distinct`).
#[derive(Debug)]
pub struct Config {
    pub general: GeneralConfig,
    pub uwsm: UwsmConfig,
    pub walker: WalkerConfig,
    pub restoration: RestorationConfig,
    pub filters: FilterConfig,
    pub commands: Vec<(String, String)>,
}

/// `class` matches an ignored class: the lowercase class contains the
/// lowercase of one of `ignored`.
pub open spec fn class_is_ignored(ignored: Seq<Seq<char>>, class: Seq<char>) -> bool {
    exists|i: int| 0 <= i < ignored.len() && contains(lowercase(class), lowercase(ignored[i]))
}

/// Position `i` holds the first command mapped from `class`.
pub open spec fn first_command_for(commands: Seq<(String, String)>, class: Seq<char>, i: int) -> bool {
    &&& 0 <= i < commands.len()
    &&& commands[i].0@ == class
    &&& forall|j: int| 0 <= j < i ==> commands[j].0@ != class
}

/// No command is mapped from `class`.
pub open spec fn no_command_for(commands: Seq<(String, String)>, class: Seq<char>) -> bool {
    forall|j: int| 0 <= j < commands.len() ==> commands[j].0@ != class
}

/// The command mapped from `class`, if any.
pub open spec fn custom_command(commands: Seq<(String, String)>, class: Seq<char>) -> Option<Seq<char>> {
    if exists|i: int| first_command_for(commands, class, i) {
        Some(commands[choose|i: int| first_command_for(commands, class, i)].1@)
    } else {
        None
    }
}

/// There is one first position.
pub proof fn lemma_first_command_unique(commands: Seq<(String, String)>, class: Seq<char>, i: int)
    requires
        first_command_for(commands, class, i),
    ensures
        custom_command(commands, class) == Some(commands[i].1@),
{
    let k = choose|k: int| first_command_for(commands, class, k);
    if k < i {
        assert(commands[k].0@ == class);
    } else if i < k {
        assert(commands[i].0@ == class);
    }
}

/// No two commands are mapped from the same class, as in a map from class
/// to command line.
pub open spec fn commands_distinct(commands: Seq<(String, String)>) -> bool {
    forall|i: int, j: int| 0 <= i < j < commands.len() ==> commands[i].0@ != commands[j].0@
}

/// Where classes are distinct, the command mapped from the class at any
/// position is the command at that position.
pub proof fn lemma_distinct_command_found(commands: Seq<(String, String)>, class: Seq<char>, i: int)
    requires
        commands_distinct(commands),
        0 <= i < commands.len(),
        commands[i].0@ == class,
    ensures
        custom_command(commands, class) == Some(commands[i].1@),
{
    assert forall|j: int| 0 <= j < i implies commands[j].0@ != class by {
        assert(commands[j].0@ != commands[i].0@);
    }
    assert(first_command_for(commands, class, i));
    lemma_first_command_unique(commands, class, i);
}

/// The directory that holds this program's configuration or data, inside
/// the user's base directory `base`.
pub open spec fn app_dir(base: Seq<char>) -> Seq<char> {
    path_join(base, "hyprsechy"@)
}

/// The file name of backup number `index`.
pub open spec fn backup_file_name(index: nat) -> Seq<char> {
    "session.backup."@ + decimal(index) + ".json"@
}

/// The session file under the local data directory `data_local_dir`.
pub open spec fn session_file(data_local_dir: Seq<char>) -> Seq<char> {
    path_join(app_dir(data_local_dir), "session.json"@)
}

/// Backup number `index` of the session under the local data directory
/// `data_local_dir`.
pub open spec fn backup_file(data_local_dir: Seq<char>, index: nat) -> Seq<char> {
    path_join(app_dir(data_local_dir), backup_file_name(index))
}

/// Joining a relative path to one base is one-to-one.
proof fn lemma_relative_join_injective(base: Seq<char>, a: Seq<char>, b: Seq<char>)
    requires
        a.len() > 0,
        b.len() > 0,
        a[0] != '/',
        b[0] != '/',
        path_join(base, a) == path_join(base, b),
    ensures
        a == b,
{
    let p = if base.len() == 0 || base.last() == '/' {
        base
    } else {
        base + seq!['/']
    };
    assert(path_join(base, a) == p + a);
    assert(path_join(base, b) == p + b);
    assert(a =~= (p + a).skip(p.len() as int));
    assert(b =~= (p + b).skip(p.len() as int));
}

/// Different backup numbers give different backup files, and no backup file
/// is the session file, whatever the local data directory.
pub proof fn lemma_backup_files_distinct(data_local_dir: Seq<char>, i: nat, j: nat)
    ensures
        i != j ==> backup_file(data_local_dir, i) != backup_file(data_local_dir, j),
        backup_file(data_local_dir, i) != session_file(data_local_dir),
{
    reveal_strlit("session.backup.");
    reveal_strlit(".json");
    reveal_strlit("session.json");
    let base = app_dir(data_local_dir);
    let ni = backup_file_name(i);
    let nj = backup_file_name(j);
    assert(ni[0] == 's');
    assert(nj[0] == 's');
    assert("session.json"@[0] == 's');
    lemma_decimal_reads_back(i);
    lemma_decimal_reads_back(j);
    if i != j && backup_file(data_local_dir, i) == backup_file(data_local_dir, j) {
        lemma_relative_join_injective(base, ni, nj);
        let di = decimal(i);
        let dj = decimal(j);
        assert(di =~= ni.subrange(15, 15 + di.len() as int));
        assert(dj =~= nj.subrange(15, 15 + dj.len() as int));
        assert(di.len() == dj.len());
        assert(di == dj);
    }
    if backup_file(data_local_dir, i) == session_file(data_local_dir) {
        lemma_relative_join_injective(base, ni, "session.json"@);
        assert(ni.len() > 12);
    }
}

impl Default for GeneralConfig {
    fn default() -> (r: Self)
        ensures
            r.save_interval == 60,
            r.backup_count == 5,
            r.auto_restore,
            !r.verbose_logging,
    {
        GeneralConfig { save_interval: 60, backup_count: 5, auto_restore: true, verbose_logging: false }
    }
}

impl Default for UwsmConfig {
    fn default() -> (r: Self)
        ensures
            r.enabled,
            r.track_systemd_units,
            !r.preserve_unit_names,
            r.launch_via_uwsm,
    {
        UwsmConfig {
            enabled: true,
            track_systemd_units: true,
            preserve_unit_names: false,
            launch_via_uwsm: true,
        }
    }
}

impl Default for WalkerConfig {
    fn default() -> (r: Self)
        ensures
            r.enabled,
            r.sync_frequent_apps,
            views(r.desktop_entry_dirs@) == seq![
                "/usr/share/applications"@,
                "~/.local/share/applications"@,
            ],
    {
        let dirs = vec![owned("/usr/share/applications"), owned("~/.local/share/applications")];
        assert(views(dirs@) =~= seq![
            "/usr/share/applications"@,
            "~/.local/share/applications"@,
        ]);
        WalkerConfig { enabled: true, desktop_entry_dirs: dirs, sync_frequent_apps: true }
    }
}

impl Default for RestorationConfig {
    fn default() -> (r: Self)
        ensures
            r.wait_for_systemd_ready,
            r.systemd_timeout_ms == 5000,
            r.prefer_desktop_entries,
    {
        RestorationConfig {
            wait_for_systemd_ready: true,
            systemd_timeout_ms: 5000,
            prefer_desktop_entries: true,
        }
    }
}

impl Default for FilterConfig {
    fn default() -> (r: Self)
        ensures
            views(r.ignore_classes@) == seq!["steam"@, "discord"@, "hyprsechy"@],
            r.ignore_workspaces@.len() == 0,
    {
        let classes = vec![owned("steam"), owned("discord"), owned("hyprsechy")];
        assert(views(classes@) =~= seq!["steam"@, "discord"@, "hyprsechy"@]);
        FilterConfig { ignore_classes: classes, ignore_workspaces: Vec::new() }
    }
}

impl Default for Config {
    fn default() -> (r: Self)
        ensures
            r.general.save_interval == 60,
            r.general.backup_count == 5,
            r.general.auto_restore,
            !r.general.verbose_logging,
            r.uwsm.enabled,
            r.uwsm.track_systemd_units,
            !r.uwsm.preserve_unit_names,
            r.uwsm.launch_via_uwsm,
            r.walker.enabled,
            r.walker.sync_frequent_apps,
            views(r.walker.desktop_entry_dirs@) == seq![
                "/usr/share/applications"@,
                "~/.local/share/applications"@,
            ],
            r.restoration.wait_for_systemd_ready,
            r.restoration.systemd_timeout_ms == 5000,
            r.restoration.prefer_desktop_entries,
            views(r.filters.ignore_classes@) == seq!["steam"@, "discord"@, "hyprsechy"@],
            r.filters.ignore_workspaces@.len() == 0,
            r.commands@.len() == 0,
            commands_distinct(r.commands@),
    {
        Config {
            general: GeneralConfig::default(),
            uwsm: UwsmConfig::default(),
            walker: WalkerConfig::default(),
            restoration: RestorationConfig::default(),
            filters: FilterConfig::default(),
            commands: Vec::new(),
        }
    }
}

/// Calls `dirs::config_dir`: the user's configuration directory, when the
/// platform and the environment name one. It depends on the environment,
/// so nothing is stated of it.
#[verifier::external_body]
fn user_config_dir() -> (r: Option<String>) {
    dirs::config_dir().map(|p| p.to_string_lossy().to_string())
}

/// Calls `dirs::data_local_dir`: the user's local data directory, when the
/// platform and the environment name one. It depends on the environment,
/// so nothing is stated of it.
#[verifier::external_body]
fn user_data_local_dir() -> (r: Option<String>) {
    dirs::data_local_dir().map(|p| p.to_string_lossy().to_string())
}

impl Config {
    /// The configuration file, inside the configuration directory
    /// `config_dir`.
    pub fn config_path_in(config_dir: &str) -> (r: String)
        ensures
            r@ == path_join(app_dir(config_dir@), "config.toml"@),
    {
        let dir = join_path(config_dir, "hyprsechy");
        join_path(dir.as_str(), "config.toml")
    }

    /// The data directory, inside the local data directory `data_local_dir`.
    pub fn data_dir_in(data_local_dir: &str) -> (r: String)
        ensures
            r@ == app_dir(data_local_dir@),
    {
        join_path(data_local_dir, "hyprsechy")
    }

    /// The file that holds the saved session, under the local data
    /// directory `data_local_dir`.
    pub fn session_file_path_in(&self, data_local_dir: &str) -> (r: String)
        ensures
            r@ == session_file(data_local_dir@),
    {
        let dir = Self::data_dir_in(data_local_dir);
        join_path(dir.as_str(), "session.json")
    }

    /// The file that holds backup number `backup_index` of the session,
    /// under the local data directory `data_local_dir`.
    pub fn backup_session_path_in(&self, data_local_dir: &str, backup_index: u32) -> (r: String)
        ensures
            r@ == backup_file(data_local_dir@, backup_index as nat),
    {
        let dir = Self::data_dir_in(data_local_dir);
        let n = u64_to_string(backup_index as u64);
        let a = concat("session.backup.", n.as_str());
        let name = concat(a.as_str(), ".json");
        join_path(dir.as_str(), name.as_str())
    }

    /// The configuration file, inside the user's configuration directory.
    pub fn config_path() -> (r: Result<String>)
        ensures
            match r {
                Ok(p) => exists|d: Seq<char>| p@ == path_join(app_dir(d), "config.toml"@),
                Err(e) => e@ == ErrorView::Config("Could not determine config directory"@),
            },
    {
        match user_config_dir() {
            Some(d) => Ok(Self::config_path_in(d.as_str())),
            None => Err(HyprsechyError::Config(owned("Could not determine config directory"))),
        }
    }

    /// The data directory, inside the user's local data directory.
    pub fn data_dir() -> (r: Result<String>)
        ensures
            match r {
                Ok(p) => exists|d: Seq<char>| p@ == app_dir(d),
                Err(e) => e@ == ErrorView::Config("Could not determine data directory"@),
            },
    {
        match user_data_local_dir() {
            Some(d) => Ok(Self::data_dir_in(d.as_str())),
            None => Err(HyprsechyError::Config(owned("Could not determine data directory"))),
        }
    }

    /// The file that holds the saved session.
    pub fn session_file_path(&self) -> (r: Result<String>)
        ensures
            match r {
                Ok(p) => exists|d: Seq<char>| p@ == session_file(d),
                Err(e) => e@ == ErrorView::Config("Could not determine data directory"@),
            },
    {
        match user_data_local_dir() {
            Some(d) => Ok(self.session_file_path_in(d.as_str())),
            None => Err(HyprsechyError::Config(owned("Could not determine data directory"))),
        }
    }

    /// The file that holds backup number `backup_index` of the session.
    pub fn backup_session_path(&self, backup_index: u32) -> (r: Result<String>)
        ensures
            match r {
                Ok(p) => exists|d: Seq<char>| p@ == backup_file(d, backup_index as nat),
                Err(e) => e@ == ErrorView::Config("Could not determine data directory"@),
            },
    {
        match user_data_local_dir() {
            Some(d) => Ok(self.backup_session_path_in(d.as_str(), backup_index)),
            None => Err(HyprsechyError::Config(owned("Could not determine data directory"))),
        }
    }

    /// Whether windows of `class` are left out of saved sessions: the class
    /// contains an ignored class, regardless of case.
    pub fn should_ignore_class(&self, class: &str) -> (r: bool)
        ensures
            r == class_is_ignored(views(self.filters.ignore_classes@), class@),
    {
        let lower_class = to_lowercase(class);
        let ignored = &self.filters.ignore_classes;
        let mut i: usize = 0;
        while i < ignored.len()
            invariant
                i <= ignored.len(),
                ignored@ == self.filters.ignore_classes@,
                lower_class@ == lowercase(class@),
                forall|j: int|
                    0 <= j < i ==> !contains(lowercase(class@), lowercase(#[trigger] ignored@[j]@)),
            decreases ignored.len() - i,
        {
            let lower_ignored = to_lowercase(ignored[i].as_str());
            if str_contains(lower_class.as_str(), lower_ignored.as_str()) {
                assert(views(ignored@)[i as int] == ignored@[i as int]@);
                assert(contains(lowercase(class@), lowercase(views(ignored@)[i as int])));
                return true;
            }
            i = i + 1;
        }
        proof {
            if class_is_ignored(views(ignored@), class@) {
                let k = choose|k: int|
                    0 <= k < views(ignored@).len() && contains(
                        lowercase(class@),
                        lowercase(views(ignored@)[k]),
                    );
                assert(views(ignored@)[k] == ignored@[k]@);
            }
        }
        false
    }

    /// Whether windows on workspace `workspace_id` are left out of saved
    /// sessions.
    pub fn should_ignore_workspace(&self, workspace_id: i32) -> (r: bool)
        ensures
            r == self.filters.ignore_workspaces@.contains(workspace_id),
    {
        let ws = &self.filters.ignore_workspaces;
        let mut i: usize = 0;
        while i < ws.len()
            invariant
                i <= ws.len(),
                ws@ == self.filters.ignore_workspaces@,
                forall|j: int| 0 <= j < i ==> ws@[j] != workspace_id,
            decreases ws.len() - i,
        {
            if ws[i] == workspace_id {
                assert(ws@[i as int] == workspace_id);
                return true;
            }
            i = i + 1;
        }
        false
    }

    /// The custom command configured for windows of `class`, if any.
    pub fn get_custom_command(&self, class: &str) -> (r: Option<&String>)
        ensures
            match r {
                Some(c) => exists|i: int|
                    #[trigger] first_command_for(self.commands@, class@, i) && *c
                        == self.commands@[i].1,
                None => no_command_for(self.commands@, class@),
            },
    {
        let cmds = &self.commands;
        let mut i: usize = 0;
        while i < cmds.len()
            invariant
                i <= cmds.len(),
                cmds@ == self.commands@,
                forall|j: int| 0 <= j < i ==> cmds@[j].0@ != class@,
            decreases cmds.len() - i,
        {
            if crate::text::str_eq(cmds[i].0.as_str(), class) {
                assert(first_command_for(self.commands@, class@, i as int));
                let c = &cmds[i].1;
                assert(*c == self.commands@[i as int].1);
                return Some(c);
            }
            i = i + 1;
        }
        None
    }
}

} // verus!
