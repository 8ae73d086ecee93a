//! What is read from systemd: unit listings, unit states and main PIDs,
//! process command lines, and which windows belong to which units.
use vstd::prelude::*;
use crate::error::{ErrorView, HyprsechyError, Result};
use crate::json::{
    as_str, get_member, json_array_document, member, parse_json_array, str_value, JsonValue,
};
use crate::text::{
    concat, contains, copy_string, join, join_strings, owned, split, split_str, starts_with,
    str_contains, str_eq, str_starts_with, trim, trim_str, u32_value, parse_u32, views,
};
use crate::types::{HyprlandClient, ServiceStatus, SystemdServiceInfo};

verus! {

/// Talks to the user's systemd instance.
#[derive(Debug, Clone, Copy)]
pub struct SystemdManager {
    pub user_mode: bool,
}

/// The names of the units listed in `vals`: the string `unit` member of each
/// object that has one, in order.
pub open spec fn listed_names(vals: Seq<JsonValue>) -> Seq<Seq<char>>
    decreases vals.len(),
{
    if vals.len() == 0 {
        seq![]
    } else {
        match str_value(member(vals.last(), "unit"@)) {
            Some(n) => listed_names(vals.drop_last()).push(n),
            None => listed_names(vals.drop_last()),
        }
    }
}

/// The unit names in a `systemctl --output=json` listing; none when it does
/// not parse as a JSON array.
pub open spec fn units_in_listing(json: Seq<char>) -> Seq<Seq<char>> {
    match json_array_document(json) {
        Ok(vals) => listed_names(vals),
        Err(_) => seq![],
    }
}

/// An application unit of the graphical session other than this program's.
pub open spec fn is_app_unit(name: Seq<char>) -> bool {
    starts_with(name, "app-"@) && !contains(name, "hyprsechy"@)
}

/// The application units among `names`, in order.
pub open spec fn app_units(names: Seq<Seq<char>>) -> Seq<Seq<char>>
    decreases names.len(),
{
    if names.len() == 0 {
        seq![]
    } else if is_app_unit(names.last()) {
        app_units(names.drop_last()).push(names.last())
    } else {
        app_units(names.drop_last())
    }
}

/// The state named by the output of `systemctl is-active`.
pub open spec fn status_named(output: Seq<char>) -> ServiceStatus {
    let t = trim(output);
    if t == "active"@ {
        ServiceStatus::Active
    } else if t == "inactive"@ {
        ServiceStatus::Inactive
    } else if t == "failed"@ {
        ServiceStatus::Failed
    } else {
        ServiceStatus::Unknown
    }
}

/// The non-empty pieces of `pieces`, in order.
pub open spec fn non_empty(pieces: Seq<Seq<char>>) -> Seq<Seq<char>>
    decreases pieces.len(),
{
    if pieces.len() == 0 {
        seq![]
    } else if pieces.last().len() > 0 {
        non_empty(pieces.drop_last()).push(pieces.last())
    } else {
        non_empty(pieces.drop_last())
    }
}

/// A process command line as read from `/proc/PID/cmdline`: the
/// NUL-separated arguments, empty ones dropped, joined with spaces.
pub open spec fn cmdline_command(cmdline: Seq<char>) -> Seq<char> {
    join(non_empty(split(cmdline, seq!['\0'])), " "@)
}

/// The first client with process id `pid`.
pub open spec fn client_with_pid(clients: Seq<HyprlandClient>, pid: u32, i: int) -> bool {
    &&& 0 <= i < clients.len()
    &&& clients[i].pid == pid
    &&& forall|j: int| 0 <= j < i ==> clients[j].pid != pid
}

/// The unit of `units` that the window with address `address` belongs to:
/// the last unit whose main process is the first client with that
/// process id, when that client has `address`.
pub open spec fn unit_for_address(
    units: Seq<SystemdServiceInfo>,
    clients: Seq<HyprlandClient>,
    address: Seq<char>,
) -> Option<int>
    decreases units.len(),
{
    if units.len() == 0 {
        None
    } else {
        let i = units.len() - 1;
        if exists|c: int| client_with_pid(clients, units[i].pid, c) && clients[c].address@ == address {
            Some(i)
        } else {
            unit_for_address(units.drop_last(), clients, address)
        }
    }
}

/// Two descriptions of a unit agree.
pub open spec fn same_service(a: SystemdServiceInfo, b: SystemdServiceInfo) -> bool {
    &&& a.unit_name@ == b.unit_name@
    &&& a.pid == b.pid
    &&& a.command@ == b.command@
    &&& a.status == b.status
}

/// A copy of `s`.
pub fn copy_service(s: &SystemdServiceInfo) -> (r: SystemdServiceInfo)
    ensures
        same_service(r, *s),
{
    SystemdServiceInfo {
        unit_name: copy_string(&s.unit_name),
        pid: s.pid,
        command: copy_string(&s.command),
        status: s.status,
    }
}

impl Default for SystemdManager {
    fn default() -> (r: Self)
        ensures
            r.user_mode,
    {
        SystemdManager::new()
    }
}

impl SystemdManager {
    /// Talks to the user instance.
    pub fn new() -> (r: Self)
        ensures
            r.user_mode,
    {
        SystemdManager { user_mode: true }
    }

    /// The unit names in the JSON printed by `systemctl --user list-units
    /// --output=json`; none when it does not parse as an array.
    pub fn listed_units(&self, json: &str) -> (r: Vec<String>)
        ensures
            views(r@) == units_in_listing(json@),
    {
        let vals = match parse_json_array(json) {
            Ok(v) => v,
            Err(_) => return Vec::new(),
        };
        let mut out: Vec<String> = Vec::new();
        let mut i: usize = 0;
        while i < vals.len()
            invariant
                i <= vals.len(),
                views(out@) == listed_names(vals@.take(i as int)),
            decreases vals.len() - i,
        {
            let ghost t = vals@.take(i + 1);
            assert(t.drop_last() =~= vals@.take(i as int));
            assert(t.last() == vals@[i as int]);
            match as_str(get_member(Some(&vals[i]), "unit")) {
                Some(n) => {
                    let ghost before = out@;
                    out.push(n);
                    assert(views(out@) =~= views(before).push(n@));
                },
                None => {},
            }
            i = i + 1;
        }
        assert(vals@.take(i as int) =~= vals@);
        out
    }

    /// The application units of the graphical session in a unit listing:
    /// names that begin with `app-` and do not mention this program.
    pub fn graphical_session_units(&self, json: &str) -> (r: Vec<String>)
        ensures
            views(r@) == app_units(units_in_listing(json@)),
    {
        let names = self.listed_units(json);
        let mut out: Vec<String> = Vec::new();
        let mut i: usize = 0;
        while i < names.len()
            invariant
                i <= names.len(),
                views(out@) == app_units(views(names@).take(i as int)),
            decreases names.len() - i,
        {
            let ghost t = views(names@).take(i + 1);
            assert(t.drop_last() =~= views(names@).take(i as int));
            assert(t.last() == names@[i as int]@);
            let n = names[i].as_str();
            if str_starts_with(n, "app-") && !str_contains(n, "hyprsechy") {
                let ghost before = out@;
                out.push(copy_string(&names[i]));
                assert(views(out@) =~= views(before).push(names@[i as int]@));
            }
            i = i + 1;
        }
        assert(views(names@).take(i as int) =~= views(names@));
        out
    }

    /// The state named by the output of `systemctl --user is-active`.
    pub fn parse_unit_status(&self, output: &str) -> (r: ServiceStatus)
        ensures
            r == status_named(output@),
    {
        let t = trim_str(output);
        if str_eq(t.as_str(), "active") {
            ServiceStatus::Active
        } else if str_eq(t.as_str(), "inactive") {
            ServiceStatus::Inactive
        } else if str_eq(t.as_str(), "failed") {
            ServiceStatus::Failed
        } else {
            ServiceStatus::Unknown
        }
    }

    /// The main PID of `unit_name` from the value of its `MainPID` property.
    pub fn parse_unit_pid(&self, unit_name: &str, pid_str: &str) -> (r: Result<u32>)
        ensures
            match u32_value(pid_str@) {
                Some(p) => r == Ok::<u32, HyprsechyError>(p),
                None => r matches Err(e) && e@ == ErrorView::Systemd(
                    "Invalid PID for unit "@ + unit_name@ + ": "@ + pid_str@,
                ),
            },
    {
        match parse_u32(pid_str) {
            Some(p) => Ok(p),
            None => {
                let a = concat("Invalid PID for unit ", unit_name);
                let b = concat(a.as_str(), ": ");
                Err(HyprsechyError::Systemd(concat(b.as_str(), pid_str)))
            },
        }
    }

    /// The command of a unit from its `ExecStart` property, when the property
    /// could be read and is not empty.
    pub fn exec_start_command(&self, exec_start: Option<&str>) -> (r: Option<String>)
        ensures
            match exec_start {
                Some(e) => if e@.len() > 0 {
                    r matches Some(c) && c@ == e@
                } else {
                    r is None
                },
                None => r is None,
            },
    {
        match exec_start {
            Some(e) => if e.is_empty() {
                None
            } else {
                Some(owned(e))
            },
            None => None,
        }
    }

    /// The command line of a process from the contents of its
    /// `/proc/PID/cmdline`.
    pub fn command_from_cmdline(&self, cmdline: &str) -> (r: String)
        ensures
            r@ == cmdline_command(cmdline@),
    {
        proof {
            reveal_strlit("\0");
        }
        assert("\0"@ =~= seq!['\0']);
        let pieces = split_str(cmdline, "\0");
        let mut kept: Vec<String> = Vec::new();
        let mut i: usize = 0;
        while i < pieces.len()
            invariant
                i <= pieces.len(),
                views(kept@) == non_empty(views(pieces@).take(i as int)),
            decreases pieces.len() - i,
        {
            let ghost t = views(pieces@).take(i + 1);
            assert(t.drop_last() =~= views(pieces@).take(i as int));
            assert(t.last() == pieces@[i as int]@);
            if !pieces[i].as_str().is_empty() {
                let ghost before = kept@;
                kept.push(copy_string(&pieces[i]));
                assert(views(kept@) =~= views(before).push(pieces@[i as int]@));
            }
            i = i + 1;
        }
        assert(views(pieces@).take(i as int) =~= views(pieces@));
        join_strings(&kept, " ")
    }

    /// What one poll while waiting for a unit decides: `Some(true)` once it
    /// is active, `Some(false)` once it has failed, `None` to poll again.
    pub fn readiness(&self, status: Option<ServiceStatus>) -> (r: Option<bool>)
        ensures
            r == match status {
                Some(ServiceStatus::Active) => Some(true),
                Some(ServiceStatus::Failed) => Some(false),
                _ => None::<bool>,
            },
    {
        match status {
            Some(ServiceStatus::Active) => Some(true),
            Some(ServiceStatus::Failed) => Some(false),
            _ => None,
        }
    }

    /// The unit description built from what was read about `unit_name`:
    /// none without a main PID; the command `unknown` and the state
    /// `Unknown` when they could not be read.
    pub fn assemble_service(
        &self,
        unit_name: &str,
        pid: Option<u32>,
        command: Option<&str>,
        status: Option<ServiceStatus>,
    ) -> (r: Option<SystemdServiceInfo>)
        ensures
            match pid {
                None => r is None,
                Some(p) => r matches Some(s) && s.unit_name@ == unit_name@ && s.pid == p
                    && s.command@ == match command {
                    Some(c) => c@,
                    None => "unknown"@,
                } && s.status == match status {
                    Some(st) => st,
                    None => ServiceStatus::Unknown,
                },
            },
    {
        match pid {
            None => None,
            Some(p) => Some(
                SystemdServiceInfo {
                    unit_name: owned(unit_name),
                    pid: p,
                    command: match command {
                        Some(c) => owned(c),
                        None => owned("unknown"),
                    },
                    status: match status {
                        Some(st) => st,
                        None => ServiceStatus::Unknown,
                    },
                },
            ),
        }
    }

    /// Which unit each window belongs to: for each unit in turn, the first
    /// window whose process is the unit's main process is recorded under its
    /// address, a later unit replacing an earlier one.
    pub fn correlate_with_hyprland_clients(
        &self,
        units: &Vec<SystemdServiceInfo>,
        clients: &Vec<HyprlandClient>,
    ) -> (r: Vec<(String, SystemdServiceInfo)>)
        ensures
            forall|i: int, j: int| 0 <= i < j < r@.len() ==> r@[i].0@ != r@[j].0@,
            forall|a: Seq<char>|
                #![trigger unit_for_address(units@, clients@, a)]
                match unit_for_address(units@, clients@, a) {
                    Some(u) => exists|k: int|
                        0 <= k < r@.len() && r@[k].0@ == a && same_service(r@[k].1, units@[u]),
                    None => forall|k: int| 0 <= k < r@.len() ==> r@[k].0@ != a,
                },
    {
        let mut out: Vec<(String, SystemdServiceInfo)> = Vec::new();
        let mut i: usize = 0;
        while i < units.len()
            invariant
                i <= units.len(),
                forall|x: int, y: int| 0 <= x < y < out@.len() ==> out@[x].0@ != out@[y].0@,
                forall|a: Seq<char>|
                    #![trigger unit_for_address(units@.take(i as int), clients@, a)]
                    match unit_for_address(units@.take(i as int), clients@, a) {
                        Some(u) => exists|k: int|
                            0 <= k < out@.len() && out@[k].0@ == a && same_service(
                                out@[k].1,
                                units@[u],
                            ),
                        None => forall|k: int| 0 <= k < out@.len() ==> out@[k].0@ != a,
                    },
            decreases units.len() - i,
        {
            let ghost before = out@;
            let ghost t = units@.take(i + 1);
            assert(t.drop_last() =~= units@.take(i as int));
            let pid = units[i].pid;
            let mut c: usize = 0;
            while c < clients.len() && clients[c].pid != pid
                invariant
                    c <= clients.len(),
                    forall|j: int| 0 <= j < c ==> clients@[j].pid != pid,
                decreases clients.len() - c,
            {
                c = c + 1;
            }
            if c < clients.len() {
                assert(client_with_pid(clients@, pid, c as int));
                let addr = clients[c].address.as_str();
                let mut k: usize = 0;
                while k < out.len() && !str_eq(out[k].0.as_str(), addr)
                    invariant
                        k <= out.len(),
                        forall|j: int| 0 <= j < k ==> out@[j].0@ != addr@,
                    decreases out.len() - k,
                {
                    k = k + 1;
                }
                let entry = (owned(addr), copy_service(&units[i]));
                if k < out.len() {
                    out.set(k, entry);
                } else {
                    out.push(entry);
                }
                proof {
                    assert forall|x: int, y: int| 0 <= x < y < out@.len() implies out@[x].0@ != out@[y].0@ by {
                        if x < before.len() && y < before.len() && x != k && y != k {
                            assert(out@[x] == before[x] && out@[y] == before[y]);
                        }
                    }
                    assert forall|a: Seq<char>|
                        #![trigger unit_for_address(t, clients@, a)]
                        match unit_for_address(t, clients@, a) {
                            Some(u) => exists|m: int|
                                0 <= m < out@.len() && out@[m].0@ == a && same_service(out@[m].1, units@[u]),
                            None => forall|m: int| 0 <= m < out@.len() ==> out@[m].0@ != a,
                        } by {
                        if a == addr@ {
                            assert(unit_for_address(t, clients@, a) == Some(i as int)) by {
                                assert(t[t.len() - 1] == units@[i as int]);
                            }
                            assert(out@[k as int].0@ == a);
                        } else {
                            assert(unit_for_address(t, clients@, a) == unit_for_address(units@.take(i as int), clients@, a)) by {
                                assert(t[t.len() - 1] == units@[i as int]);
                                if exists|cc: int| client_with_pid(clients@, units@[i as int].pid, cc) && clients@[cc].address@ == a {
                                    let cc = choose|cc: int| client_with_pid(clients@, units@[i as int].pid, cc) && clients@[cc].address@ == a;
                                    if cc < c {
                                        assert(clients@[cc].pid != pid);
                                    } else if c < cc {
                                        assert(clients@[c as int].pid == pid);
                                    }
                                }
                            }
                            match unit_for_address(units@.take(i as int), clients@, a) {
                                Some(u) => {
                                    let m = choose|m: int| 0 <= m < before.len() && before[m].0@ == a && same_service(before[m].1, units@[u]);
                                    assert(m != k);
                                    assert(out@[m] == before[m]);
                                },
                                None => {
                                    assert forall|m: int| 0 <= m < out@.len() implies out@[m].0@ != a by {
                                        if m < before.len() && m != k {
                                            assert(out@[m] == before[m]);
                                        }
                                    }
                                },
                            }
                        }
                    }
                }
            } else {
                proof {
                    assert forall|a: Seq<char>|
                        #![trigger unit_for_address(t, clients@, a)]
                        unit_for_address(t, clients@, a) == unit_for_address(units@.take(i as int), clients@, a) by {
                        assert(t[t.len() - 1] == units@[i as int]);
                        if exists|cc: int| client_with_pid(clients@, units@[i as int].pid, cc) && clients@[cc].address@ == a {
                            let cc = choose|cc: int| client_with_pid(clients@, units@[i as int].pid, cc) && clients@[cc].address@ == a;
                            assert(clients@[cc].pid != pid);
                        }
                    }
                }
            }
            i = i + 1;
        }
        assert(units@.take(i as int) =~= units@);
        out
    }
}

} // verus!
