//! Launching applications through UWSM, and the saved windows that the
//! units UWSM started stand for.
use vstd::prelude::*;
use crate::error::{ErrorView, HyprsechyError, Result};
use crate::systemd::SystemdManager;
use crate::text::{
    copy_string, copy_strings, file_name, file_name_of, owned, split_whitespace, views, words,
};
use crate::types::{SystemdServiceInfo, UwsmAppState};

verus! {

/// Whether UWSM is installed, and the systemd instance its units run in.
#[derive(Debug, Clone, Copy)]
pub struct UwsmIntegration {
    pub systemd: SystemdManager,
    pub available: bool,
}

/// Whether UWSM is available, with counts of its running applications and
/// of the units of the graphical session.
#[derive(Debug, Clone, Copy)]
pub struct UwsmStatus {
    pub available: bool,
    pub active_apps: usize,
    pub total_units: usize,
}

/// How a command is started: through `uwsm` with these arguments, or
/// directly as this program with these arguments.
#[derive(Debug)]
pub enum Launch {
    Uwsm(Vec<String>),
    Direct(String, Vec<String>),
}

/// The class a unit's command stands for: the file name of its program, or
/// `unknown`.
pub open spec fn class_of_command(command: Seq<char>) -> Seq<char> {
    let parts = words(command);
    if parts.len() == 0 {
        "unknown"@
    } else {
        match file_name(parts[0]) {
            Some(f) => f,
            None => "unknown"@,
        }
    }
}

/// `app` is the window that the unit `service` stands for: its class and
/// command come from the unit's command, it is on workspace 1 at the origin
/// with size 800x600, and it records the unit and its process.
pub open spec fn app_from_service(app: UwsmAppState, service: SystemdServiceInfo) -> bool {
    &&& app.class@ == class_of_command(service.command@)
    &&& app.title@ == Seq::<char>::empty()
    &&& app.desktop_entry is None
    &&& views(app.command@) == words(service.command@)
    &&& app.workspace_id == 1
    &&& app.position == (0i32, 0i32)
    &&& app.size == (800u32, 600u32)
    &&& app.monitor@ == Seq::<char>::empty()
    &&& !app.floating
    &&& !app.fullscreen
    &&& app.systemd_unit matches Some(u) && u@ == service.unit_name@
    &&& app.uwsm_launched
    &&& app.pid == Some(service.pid)
}

/// The arguments of `uwsm` that start `command` as an application.
pub open spec fn uwsm_app_args(command: Seq<Seq<char>>) -> Seq<Seq<char>> {
    seq!["app"@, "--"@] + command
}

impl Default for UwsmIntegration {
    fn default() -> (r: Self)
        ensures
            !r.available,
            r.systemd.user_mode,
    {
        UwsmIntegration { systemd: SystemdManager::new(), available: false }
    }
}

impl UwsmIntegration {
    /// The integration, given whether `uwsm` was found.
    pub fn new(available: bool) -> (r: Self)
        ensures
            r.available == available,
            r.systemd.user_mode,
    {
        UwsmIntegration { systemd: SystemdManager::new(), available }
    }

    /// Whether UWSM is available.
    pub fn is_available(&self) -> (r: bool)
        ensures
            r == self.available,
    {
        self.available
    }

    /// The arguments of `uwsm` that start `command`, refused when UWSM is
    /// not available.
    pub fn launch_via_uwsm(&self, command: &Vec<String>) -> (r: Result<Vec<String>>)
        ensures
            self.available ==> (r matches Ok(args) && views(args@) == uwsm_app_args(views(command@))),
            !self.available ==> (r matches Err(e) && e@ == ErrorView::Uwsm("UWSM not available"@)),
    {
        if !self.available {
            return Err(HyprsechyError::Uwsm(owned("UWSM not available")));
        }
        let mut args: Vec<String> = vec![owned("app"), owned("--")];
        let rest = copy_strings(command);
        let mut i: usize = 0;
        while i < rest.len()
            invariant
                i <= rest.len(),
                views(rest@) == views(command@),
                views(args@) == seq!["app"@, "--"@] + views(rest@).take(i as int),
            decreases rest.len() - i,
        {
            let ghost before = args@;
            args.push(copy_string(&rest[i]));
            assert(views(args@) =~= views(before).push(rest@[i as int]@));
            assert(views(rest@).take(i + 1) =~= views(rest@).take(i as int).push(rest@[i as int]@));
            i = i + 1;
        }
        assert(views(rest@).take(i as int) =~= views(rest@));
        Ok(args)
    }

    /// The program and arguments that start `command` directly; an empty
    /// command is refused.
    pub fn launch_direct(&self, command: &Vec<String>) -> (r: Result<(String, Vec<String>)>)
        ensures
            command@.len() == 0 ==> (r matches Err(e) && e@ == ErrorView::Uwsm("Empty command"@)),
            command@.len() > 0 ==> (r matches Ok((p, args)) && p@ == command@[0]@ && views(args@)
                == views(command@).skip(1)),
    {
        if command.len() == 0 {
            return Err(HyprsechyError::Uwsm(owned("Empty command")));
        }
        let program = copy_string(&command[0]);
        let mut args: Vec<String> = Vec::new();
        let mut i: usize = 1;
        while i < command.len()
            invariant
                1 <= i <= command.len(),
                views(args@) == views(command@).subrange(1, i as int),
            decreases command.len() - i,
        {
            let ghost before = args@;
            args.push(copy_string(&command[i]));
            assert(views(args@) =~= views(before).push(command@[i as int]@));
            assert(views(args@) =~= views(command@).subrange(1, i + 1));
            i = i + 1;
        }
        assert(views(command@).skip(1) =~= views(command@).subrange(1, command.len() as int));
        Ok((program, args))
    }

    /// How `command` is started: through UWSM when it is available, else
    /// directly.
    pub fn launch_app(&self, command: &Vec<String>) -> (r: Result<Launch>)
        ensures
            self.available ==> (r matches Ok(Launch::Uwsm(args)) && views(args@) == uwsm_app_args(
                views(command@),
            )),
            !self.available && command@.len() == 0 ==> (r matches Err(e) && e@ == ErrorView::Uwsm(
                "Empty command"@,
            )),
            !self.available && command@.len() > 0 ==> (r matches Ok(Launch::Direct(p, args)) && p@
                == command@[0]@ && views(args@) == views(command@).skip(1)),
    {
        if self.available {
            match self.launch_via_uwsm(command) {
                Ok(args) => Ok(Launch::Uwsm(args)),
                Err(e) => Err(e),
            }
        } else {
            match self.launch_direct(command) {
                Ok((p, args)) => Ok(Launch::Direct(p, args)),
                Err(e) => Err(e),
            }
        }
    }

    /// The window that the unit `service` stands for.
    pub fn convert_service_to_app(&self, service: &SystemdServiceInfo) -> (r: UwsmAppState)
        ensures
            app_from_service(r, *service),
    {
        let parts = split_whitespace(service.command.as_str());
        let class = if parts.len() == 0 {
            owned("unknown")
        } else {
            assert(views(parts@)[0] == parts@[0]@);
            match file_name_of(parts[0].as_str()) {
                Some(f) => f,
                None => owned("unknown"),
            }
        };
        UwsmAppState {
            class,
            title: String::new(),
            desktop_entry: None,
            command: parts,
            workspace_id: 1,
            position: (0, 0),
            size: (800, 600),
            monitor: String::new(),
            floating: false,
            fullscreen: false,
            systemd_unit: Some(copy_string(&service.unit_name)),
            uwsm_launched: true,
            pid: Some(service.pid),
        }
    }

    /// The windows that the running UWSM units stand for; none when UWSM is
    /// not available.
    pub fn discover_uwsm_apps(&self, services: &Vec<SystemdServiceInfo>) -> (r: Vec<UwsmAppState>)
        ensures
            !self.available ==> r@.len() == 0,
            self.available ==> r@.len() == services@.len() && forall|i: int|
                0 <= i < services@.len() ==> app_from_service(#[trigger] r@[i], services@[i]),
    {
        let mut out: Vec<UwsmAppState> = Vec::new();
        if !self.available {
            return out;
        }
        let mut i: usize = 0;
        while i < services.len()
            invariant
                i <= services.len(),
                out@.len() == i,
                forall|k: int| 0 <= k < i ==> app_from_service(#[trigger] out@[k], services@[k]),
            decreases services.len() - i,
        {
            let a = self.convert_service_to_app(&services[i]);
            out.push(a);
            i = i + 1;
        }
        out
    }

    /// The status report from the number of running applications and of
    /// graphical-session units.
    pub fn get_uwsm_status(&self, active_apps: usize, total_units: usize) -> (r: UwsmStatus)
        ensures
            r.available == self.available,
            r.active_apps == if self.available { active_apps } else { 0 },
            r.total_units == if self.available { total_units } else { 0 },
    {
        if !self.available {
            UwsmStatus { available: false, active_apps: 0, total_units: 0 }
        } else {
            UwsmStatus { available: true, active_apps, total_units }
        }
    }
}

} // verus!
