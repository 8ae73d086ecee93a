//! What is read from Hyprland: event lines from the event socket and the
//! JSON documents that `hyprctl` prints, and where its sockets are.
use vstd::prelude::*;
use crate::error::{ErrorView, HyprsechyError, Result};
use crate::text::{
    decimal, join_path, path_join, replace, replace_all, u64_to_string,
    concat, copy_string, join, join_from, owned, split, split_str, str_eq, trim, trim_str, views,
};
use crate::types::{EventView, HyprlandClient, HyprlandEvent, HyprlandWorkspace};
use crate::json::{
    array_len, array_length, as_bool, as_i64, as_str, bool_value, element_of, get_element,
    get_member, int_value, json_array_document, json_value_document, member, member_of,
    parse_json_array, parse_json_value, str_value, JsonValue,
};

verus! {

/// The two sockets through which Hyprland is reached: one for commands and
/// one that streams events.
pub struct HyprlandIpc {
    pub socket_path: String,
    pub event_socket_path: String,
}

/// The event that an event line announces, or the error it is refused with.
pub open spec fn event_of_line(line: Seq<char>) -> core::result::Result<EventView, ErrorView> {
    let parts = split(trim(line), ">>"@);
    if parts.len() < 2 {
        Err(ErrorView::HyprlandIpc("Invalid event format: "@ + line))
    } else {
        let kind = parts[0];
        let data = parts[1];
        let fields = split(data, ","@);
        if kind == "openwindow"@ {
            if fields.len() >= 4 {
                Ok(
                    EventView::WindowOpen {
                        window_address: fields[0],
                        workspace: fields[1],
                        class: fields[2],
                        title: join(fields.skip(3), ","@),
                    },
                )
            } else {
                Err(ErrorView::HyprlandIpc("Invalid openwindow event"@))
            }
        } else if kind == "closewindow"@ {
            Ok(EventView::WindowClose { window_address: data })
        } else if kind == "movewindow"@ {
            if fields.len() >= 2 {
                Ok(EventView::WindowMove { window_address: fields[0], workspace: fields[1] })
            } else {
                Err(ErrorView::HyprlandIpc("Invalid movewindow event"@))
            }
        } else if kind == "createworkspace"@ {
            Ok(EventView::WorkspaceCreate { workspace: data })
        } else if kind == "destroyworkspace"@ {
            Ok(EventView::WorkspaceDestroy { workspace: data })
        } else if kind == "workspace"@ {
            Ok(EventView::WorkspaceFocus { workspace: data })
        } else if kind == "monitoradded"@ {
            Ok(EventView::MonitorAdd { monitor: data })
        } else if kind == "monitorremoved"@ {
            Ok(EventView::MonitorRemove { monitor: data })
        } else if kind == "windowtitle"@ {
            if fields.len() >= 2 {
                Ok(
                    EventView::WindowTitle {
                        window_address: fields[0],
                        title: join(fields.skip(1), ","@),
                    },
                )
            } else {
                Err(ErrorView::HyprlandIpc("Invalid windowtitle event"@))
            }
        } else {
            Err(ErrorView::HyprlandIpc("Unknown event type: "@ + kind))
        }
    }
}

/// The view of a parse result.
pub open spec fn event_result_view(r: Result<HyprlandEvent>) -> core::result::Result<
    EventView,
    ErrorView,
> {
    match r {
        Ok(e) => Ok(e@),
        Err(e) => Err(e@),
    }
}

fn ipc_error(prefix: &str, detail: &str) -> (r: HyprsechyError)
    ensures
        r@ == ErrorView::HyprlandIpc(prefix@ + detail@),
{
    HyprsechyError::HyprlandIpc(concat(prefix, detail))
}

impl HyprlandIpc {
    /// Reads one line of Hyprland's event socket: `KIND>>DATA`, with the
    /// fields of DATA separated by commas.
    pub fn parse_event(&self, line: &str) -> (r: Result<HyprlandEvent>)
        ensures
            event_result_view(r) == event_of_line(line@),
    {
        proof {
            reveal_strlit(">>");
            reveal_strlit(",");
        }
        let t = trim_str(line);
        let parts = split_str(t.as_str(), ">>");
        if parts.len() < 2 {
            return Err(ipc_error("Invalid event format: ", line));
        }
        let kind = parts[0].as_str();
        let data = parts[1].as_str();
        let fields = split_str(data, ",");
        assert(views(parts@)[0] == parts@[0]@);
        assert(views(parts@)[1] == parts@[1]@);
        if str_eq(kind, "openwindow") {
            if fields.len() >= 4 {
                assert(views(fields@)[0] == fields@[0]@);
                assert(views(fields@)[1] == fields@[1]@);
                assert(views(fields@)[2] == fields@[2]@);
                Ok(
                    HyprlandEvent::WindowOpen {
                        window_address: copy_string(&fields[0]),
                        workspace: copy_string(&fields[1]),
                        class: copy_string(&fields[2]),
                        title: join_from(&fields, 3, ","),
                    },
                )
            } else {
                Err(HyprsechyError::HyprlandIpc(owned("Invalid openwindow event")))
            }
        } else if str_eq(kind, "closewindow") {
            Ok(HyprlandEvent::WindowClose { window_address: owned(data) })
        } else if str_eq(kind, "movewindow") {
            if fields.len() >= 2 {
                assert(views(fields@)[0] == fields@[0]@);
                assert(views(fields@)[1] == fields@[1]@);
                Ok(
                    HyprlandEvent::WindowMove {
                        window_address: copy_string(&fields[0]),
                        workspace: copy_string(&fields[1]),
                    },
                )
            } else {
                Err(HyprsechyError::HyprlandIpc(owned("Invalid movewindow event")))
            }
        } else if str_eq(kind, "createworkspace") {
            Ok(HyprlandEvent::WorkspaceCreate { workspace: owned(data) })
        } else if str_eq(kind, "destroyworkspace") {
            Ok(HyprlandEvent::WorkspaceDestroy { workspace: owned(data) })
        } else if str_eq(kind, "workspace") {
            Ok(HyprlandEvent::WorkspaceFocus { workspace: owned(data) })
        } else if str_eq(kind, "monitoradded") {
            Ok(HyprlandEvent::MonitorAdd { monitor: owned(data) })
        } else if str_eq(kind, "monitorremoved") {
            Ok(HyprlandEvent::MonitorRemove { monitor: owned(data) })
        } else if str_eq(kind, "windowtitle") {
            if fields.len() >= 2 {
                assert(views(fields@)[0] == fields@[0]@);
                Ok(
                    HyprlandEvent::WindowTitle {
                        window_address: copy_string(&fields[0]),
                        title: join_from(&fields, 1, ","),
                    },
                )
            } else {
                Err(HyprsechyError::HyprlandIpc(owned("Invalid windowtitle event")))
            }
        } else {
            Err(ipc_error("Unknown event type: ", kind))
        }
    }
}

/// The string of an optional value, or the empty string.
pub open spec fn str_or_empty(v: Option<JsonValue>) -> Seq<char> {
    match str_value(v) {
        Some(s) => s,
        None => seq![],
    }
}

/// The integer of an optional value, or `d`.
pub open spec fn int_or(v: Option<JsonValue>, d: i64) -> i64 {
    match int_value(v) {
        Some(n) => n,
        None => d,
    }
}

/// The boolean of an optional value, or `d`.
pub open spec fn bool_or(v: Option<JsonValue>, d: bool) -> bool {
    match bool_value(v) {
        Some(b) => b,
        None => d,
    }
}

/// A client object with an address whose position or size array has
/// fewer than two elements: reading it indexes past the array's end.
pub open spec fn client_out_of_bounds(v: JsonValue) -> bool {
    &&& str_value(member(v, "address"@)) is Some
    &&& match array_len(member(v, "at"@)) {
        Some(n) => n < 2 || match array_len(member(v, "size"@)) {
            Some(m) => m < 2,
            None => false,
        },
        None => false,
    }
}

/// A client object from which a window can be read.
pub open spec fn client_readable(v: JsonValue) -> bool {
    &&& str_value(member(v, "address"@)) is Some
    &&& array_len(member(v, "at"@)) is Some
    &&& array_len(member(v, "size"@)) is Some
}

/// The error a client object without what a window needs is refused with.
pub open spec fn client_error(v: JsonValue) -> ErrorView {
    if str_value(member(v, "address"@)) is None {
        ErrorView::HyprlandIpc("Missing address"@)
    } else if array_len(member(v, "at"@)) is None {
        ErrorView::HyprlandIpc("Missing position"@)
    } else {
        ErrorView::HyprlandIpc("Missing size"@)
    }
}

/// `c` is the window read from the client object `v`: missing strings read
/// as empty, a missing workspace id as -1, other missing numbers as 0 and
/// missing flags as false; integers are narrowed as `as` narrows them.
pub open spec fn client_from(v: JsonValue, c: HyprlandClient) -> bool {
    let ws = member(v, "workspace"@);
    &&& str_value(member(v, "address"@)) == Some(c.address@)
    &&& c.class@ == str_or_empty(member(v, "class"@))
    &&& c.title@ == str_or_empty(member(v, "title"@))
    &&& c.workspace.id == int_or(member_of(ws, "id"@), -1i64) as i32
    &&& c.workspace.name@ == str_or_empty(member_of(ws, "name"@))
    &&& c.workspace.monitor@ == Seq::<char>::empty()
    &&& c.workspace.windows == 0
    &&& c.at.0 == int_or(element_of(member(v, "at"@), 0), 0) as i32
    &&& c.at.1 == int_or(element_of(member(v, "at"@), 1), 0) as i32
    &&& c.size.0 == int_or(element_of(member(v, "size"@), 0), 0) as u32
    &&& c.size.1 == int_or(element_of(member(v, "size"@), 1), 0) as u32
    &&& c.monitor == int_or(member(v, "monitor"@), 0) as i32
    &&& c.floating == bool_or(member(v, "floating"@), false)
    &&& c.fullscreen == bool_or(member(v, "fullscreen"@), false)
    &&& c.pid == int_or(member(v, "pid"@), 0) as u32
}

/// `w` is the workspace read from the workspace object `v`.
pub open spec fn workspace_from(v: JsonValue, w: HyprlandWorkspace) -> bool {
    &&& w.id == int_or(member(v, "id"@), -1i64) as i32
    &&& w.name@ == str_or_empty(member(v, "name"@))
    &&& w.monitor@ == str_or_empty(member(v, "monitor"@))
    &&& w.windows == int_or(member(v, "windows"@), 0) as i32
}

/// The positions of `vals` that hold readable client objects, in order.
pub open spec fn readable_positions(vals: Seq<JsonValue>) -> Seq<int>
    decreases vals.len(),
{
    if vals.len() == 0 {
        seq![]
    } else if client_readable(vals.last()) {
        readable_positions(vals.drop_last()).push(vals.len() - 1)
    } else {
        readable_positions(vals.drop_last())
    }
}

fn str_member(v: Option<&JsonValue>, key: &str) -> (r: String)
    ensures
        r@ == str_or_empty(
            member_of(
                match v {
                    Some(y) => Some(*y),
                    None => None,
                },
                key@,
            ),
        ),
{
    match as_str(get_member(v, key)) {
        Some(s) => s,
        None => String::new(),
    }
}

fn int_member(v: Option<&JsonValue>, key: &str, d: i64) -> (r: i64)
    ensures
        r == int_or(
            member_of(
                match v {
                    Some(y) => Some(*y),
                    None => None,
                },
                key@,
            ),
            d,
        ),
{
    match as_i64(get_member(v, key)) {
        Some(n) => n,
        None => d,
    }
}

fn bool_member(v: Option<&JsonValue>, key: &str, d: bool) -> (r: bool)
    ensures
        r == bool_or(
            member_of(
                match v {
                    Some(y) => Some(*y),
                    None => None,
                },
                key@,
            ),
            d,
        ),
{
    match as_bool(get_member(v, key)) {
        Some(b) => b,
        None => d,
    }
}

fn int_element(v: Option<&JsonValue>, i: usize) -> (r: i64)
    ensures
        r == int_or(
            element_of(
                match v {
                    Some(y) => Some(*y),
                    None => None,
                },
                i as int,
            ),
            0,
        ),
{
    match as_i64(get_element(v, i)) {
        Some(n) => n,
        None => 0,
    }
}

/// What a monitor object of `hyprctl monitors -j` says, apart from its
/// refresh rate and scale.
#[derive(Debug)]
pub struct MonitorInfo {
    pub id: i32,
    pub name: String,
    pub description: String,
    pub make: String,
    pub model: String,
    pub serial: String,
    pub width: i32,
    pub height: i32,
    pub x: i32,
    pub y: i32,
    pub active_workspace: HyprlandWorkspace,
    pub special_workspace: Option<HyprlandWorkspace>,
    pub reserved: [i32; 4],
    pub transform: i32,
    pub focused: bool,
    pub dpms_status: bool,
    pub vrr: bool,
}

/// A value that is missing or JSON `null`.
pub open spec fn is_null(v: Option<JsonValue>) -> bool {
    v is None || v == Some(JsonValue::Null)
}

/// `w` is the workspace `v` names for the monitor `monitor`.
pub open spec fn monitor_workspace(v: Option<JsonValue>, monitor: Seq<char>, w: HyprlandWorkspace) -> bool {
    &&& w.id == int_or(member_of(v, "id"@), -1i64) as i32
    &&& w.name@ == str_or_empty(member_of(v, "name"@))
    &&& w.monitor@ == monitor
    &&& w.windows == 0
}

/// `m` is read from the monitor object `v`: missing strings read as empty,
/// missing ids as -1, other missing numbers as 0, a missing power state as
/// on and other missing flags as off; the special workspace is there when
/// its id is not null.
pub open spec fn monitor_from(v: JsonValue, m: MonitorInfo) -> bool {
    let name = str_or_empty(member(v, "name"@));
    let special = member(v, "specialWorkspace"@);
    let reserved = member(v, "reserved"@);
    &&& m.id == int_or(member(v, "id"@), -1i64) as i32
    &&& m.name@ == name
    &&& m.description@ == str_or_empty(member(v, "description"@))
    &&& m.make@ == str_or_empty(member(v, "make"@))
    &&& m.model@ == str_or_empty(member(v, "model"@))
    &&& m.serial@ == str_or_empty(member(v, "serial"@))
    &&& m.width == int_or(member(v, "width"@), 0) as i32
    &&& m.height == int_or(member(v, "height"@), 0) as i32
    &&& m.x == int_or(member(v, "x"@), 0) as i32
    &&& m.y == int_or(member(v, "y"@), 0) as i32
    &&& monitor_workspace(member(v, "activeWorkspace"@), name, m.active_workspace)
    &&& if is_null(member_of(special, "id"@)) {
        m.special_workspace is None
    } else {
        m.special_workspace matches Some(w) && monitor_workspace(special, name, w)
    }
    &&& m.reserved@ == seq![
        int_or(element_of(reserved, 0), 0) as i32,
        int_or(element_of(reserved, 1), 0) as i32,
        int_or(element_of(reserved, 2), 0) as i32,
        int_or(element_of(reserved, 3), 0) as i32,
    ]
    &&& m.transform == int_or(member(v, "transform"@), 0) as i32
    &&& m.focused == bool_or(member(v, "focused"@), false)
    &&& m.dpms_status == bool_or(member(v, "dpmsStatus"@), true)
    &&& m.vrr == bool_or(member(v, "vrr"@), false)
}

fn workspace_of_monitor(v: Option<&JsonValue>, monitor: &String) -> (r: HyprlandWorkspace)
    ensures
        monitor_workspace(
            match v {
                Some(y) => Some(*y),
                None => None,
            },
            monitor@,
            r,
        ),
{
    HyprlandWorkspace {
        id: int_member(v, "id", -1) as i32,
        name: str_member(v, "name"),
        monitor: copy_string(monitor),
        windows: 0,
    }
}

impl HyprlandIpc {
    /// The monitor described by a monitor object of `hyprctl monitors -j`,
    /// apart from its refresh rate and scale.
    pub fn parse_monitor(&self, monitor: &JsonValue) -> (r: Result<MonitorInfo>)
        ensures
            r matches Ok(m) && monitor_from(*monitor, m),
    {
        let v = Some(monitor);
        let name = str_member(v, "name");
        let active = workspace_of_monitor(get_member(v, "activeWorkspace"), &name);
        let special = get_member(v, "specialWorkspace");
        let special_id = get_member(special, "id");
        let special_null = match special_id {
            Some(JsonValue::Null) => true,
            Some(_) => false,
            None => true,
        };
        let special_workspace = if special_null {
            None
        } else {
            Some(workspace_of_monitor(special, &name))
        };
        let reserved = get_member(v, "reserved");
        let res = [
            int_element(reserved, 0) as i32,
            int_element(reserved, 1) as i32,
            int_element(reserved, 2) as i32,
            int_element(reserved, 3) as i32,
        ];
        let m = MonitorInfo {
            id: int_member(v, "id", -1) as i32,
            name,
            description: str_member(v, "description"),
            make: str_member(v, "make"),
            model: str_member(v, "model"),
            serial: str_member(v, "serial"),
            width: int_member(v, "width", 0) as i32,
            height: int_member(v, "height", 0) as i32,
            x: int_member(v, "x", 0) as i32,
            y: int_member(v, "y", 0) as i32,
            active_workspace: active,
            special_workspace,
            reserved: res,
            transform: int_member(v, "transform", 0) as i32,
            focused: bool_member(v, "focused", false),
            dpms_status: bool_member(v, "dpmsStatus", true),
            vrr: bool_member(v, "vrr", false),
        };
        assert(m.reserved@ =~= seq![res[0], res[1], res[2], res[3]]);
        Ok(m)
    }

    /// The monitors listed in the output of `hyprctl monitors -j`, apart
    /// from their refresh rates and scales.
    pub fn parse_monitors(&self, json: &str) -> (r: Result<Vec<MonitorInfo>>)
        ensures
            match json_array_document(json@) {
                Err(m) => r matches Err(e) && e@ == ErrorView::Json(m),
                Ok(vals) => r matches Ok(ms) && ms@.len() == vals.len() && forall|k: int|
                    0 <= k < vals.len() ==> monitor_from(vals[k], #[trigger] ms@[k]),
            },
    {
        let vals = match parse_json_array(json) {
            Ok(v) => v,
            Err(m) => return Err(HyprsechyError::Json(m)),
        };
        let mut out: Vec<MonitorInfo> = Vec::new();
        let mut i: usize = 0;
        while i < vals.len()
            invariant
                i <= vals.len(),
                out@.len() == i,
                forall|k: int| 0 <= k < i ==> monitor_from(vals@[k], #[trigger] out@[k]),
            decreases vals.len() - i,
        {
            match self.parse_monitor(&vals[i]) {
                Ok(m) => out.push(m),
                Err(_) => {},
            }
            i = i + 1;
        }
        Ok(out)
    }
}

impl HyprlandIpc {
    /// The window described by a client object of `hyprctl clients -j`.
    pub fn parse_client(&self, client: &JsonValue) -> (r: Result<HyprlandClient>)
        requires
            !client_out_of_bounds(*client),
        ensures
            match r {
                Ok(c) => client_readable(*client) && client_from(*client, c),
                Err(e) => !client_readable(*client) && e@ == client_error(*client),
            },
    {
        let v = Some(client);
        let address = match as_str(get_member(v, "address")) {
            Some(a) => a,
            None => return Err(HyprsechyError::HyprlandIpc(owned("Missing address"))),
        };
        let class = str_member(v, "class");
        let title = str_member(v, "title");
        let ws = get_member(v, "workspace");
        let workspace_id = int_member(ws, "id", -1) as i32;
        let workspace_name = str_member(ws, "name");
        let at = get_member(v, "at");
        if array_length(at).is_none() {
            return Err(HyprsechyError::HyprlandIpc(owned("Missing position")));
        }
        let at_pair = (int_element(at, 0) as i32, int_element(at, 1) as i32);
        let size = get_member(v, "size");
        if array_length(size).is_none() {
            return Err(HyprsechyError::HyprlandIpc(owned("Missing size")));
        }
        let size_pair = (int_element(size, 0) as u32, int_element(size, 1) as u32);
        let monitor = int_member(v, "monitor", 0) as i32;
        let floating = bool_member(v, "floating", false);
        let fullscreen = bool_member(v, "fullscreen", false);
        let pid = int_member(v, "pid", 0) as u32;
        Ok(
            HyprlandClient {
                address,
                class,
                title,
                workspace: HyprlandWorkspace {
                    id: workspace_id,
                    name: workspace_name,
                    monitor: String::new(),
                    windows: 0,
                },
                at: at_pair,
                size: size_pair,
                monitor,
                floating,
                fullscreen,
                pid,
            },
        )
    }

    /// The workspace described by a workspace object of
    /// `hyprctl workspaces -j`.
    pub fn parse_workspace(&self, workspace: &JsonValue) -> (r: Result<HyprlandWorkspace>)
        ensures
            r matches Ok(w) && workspace_from(*workspace, w),
    {
        let v = Some(workspace);
        Ok(
            HyprlandWorkspace {
                id: int_member(v, "id", -1) as i32,
                name: str_member(v, "name"),
                monitor: str_member(v, "monitor"),
                windows: int_member(v, "windows", 0) as i32,
            },
        )
    }

    /// The windows listed in the output of `hyprctl clients -j`: those whose
    /// objects are readable, in order. `Ok(None)` when some object's position
    /// or size array is too short to read.
    pub fn parse_clients(&self, json: &str) -> (r: Result<Option<Vec<HyprlandClient>>>)
        ensures
            match json_array_document(json@) {
                Err(m) => r matches Err(e) && e@ == ErrorView::Json(m),
                Ok(vals) => if exists|i: int| 0 <= i < vals.len() && client_out_of_bounds(vals[i]) {
                    r matches Ok(None)
                } else {
                    r matches Ok(Some(cs)) && cs@.len() == readable_positions(vals).len() && forall|k: int|
                        0 <= k < cs@.len() ==> client_from(
                            vals[#[trigger] readable_positions(vals)[k]],
                            cs@[k],
                        )
                },
            },
    {
        let vals = match parse_json_array(json) {
            Ok(v) => v,
            Err(m) => return Err(HyprsechyError::Json(m)),
        };
        let mut i: usize = 0;
        while i < vals.len()
            invariant
                i <= vals.len(),
                json_array_document(json@) == Ok::<Seq<JsonValue>, Seq<char>>(vals@),
                forall|j: int| 0 <= j < i ==> !client_out_of_bounds(vals@[j]),
            decreases vals.len() - i,
        {
            if self.out_of_bounds(&vals[i]) {
                let r: Result<Option<Vec<HyprlandClient>>> = Ok(None);
                assert(r matches Ok(None));
                let ghost vs = json_array_document(json@)->Ok_0;
                assert(vs == vals@);
                assert(client_out_of_bounds(vs[i as int]));
                return r;
            }
            i = i + 1;
        }
        let mut out: Vec<HyprlandClient> = Vec::new();
        let mut i: usize = 0;
        while i < vals.len()
            invariant
                i <= vals.len(),
                forall|j: int| 0 <= j < vals@.len() ==> !client_out_of_bounds(vals@[j]),
                out@.len() == readable_positions(vals@.take(i as int)).len(),
                forall|k: int|
                    0 <= k < out@.len() ==> client_from(
                        vals@[#[trigger] readable_positions(vals@.take(i as int))[k]],
                        out@[k],
                    ),
                forall|k: int|
                    0 <= k < readable_positions(vals@.take(i as int)).len() ==> 0
                        <= #[trigger] readable_positions(vals@.take(i as int))[k] < i,
            decreases vals.len() - i,
        {
            let ghost before = vals@.take(i as int);
            let ghost after = vals@.take(i + 1);
            assert(after.drop_last() =~= before);
            assert(after.last() == vals@[i as int]);
            match self.parse_client(&vals[i]) {
                Ok(c) => {
                    out.push(c);
                    assert(readable_positions(after) == readable_positions(before).push(i as int));
                },
                Err(_) => {
                    assert(readable_positions(after) == readable_positions(before));
                },
            }
            i = i + 1;
        }
        assert(vals@.take(i as int) =~= vals@);
        Ok(Some(out))
    }

    fn out_of_bounds(&self, v: &JsonValue) -> (r: bool)
        ensures
            r == client_out_of_bounds(*v),
    {
        let o = Some(v);
        if as_str(get_member(o, "address")).is_none() {
            return false;
        }
        match array_length(get_member(o, "at")) {
            Some(n) => n < 2 || match array_length(get_member(o, "size")) {
                Some(m) => m < 2,
                None => false,
            },
            None => false,
        }
    }

    /// The workspaces listed in the output of `hyprctl workspaces -j`.
    pub fn parse_workspaces(&self, json: &str) -> (r: Result<Vec<HyprlandWorkspace>>)
        ensures
            match json_array_document(json@) {
                Err(m) => r matches Err(e) && e@ == ErrorView::Json(m),
                Ok(vals) => r matches Ok(ws) && ws@.len() == vals.len() && forall|k: int|
                    0 <= k < vals.len() ==> workspace_from(vals[k], #[trigger] ws@[k]),
            },
    {
        let vals = match parse_json_array(json) {
            Ok(v) => v,
            Err(m) => return Err(HyprsechyError::Json(m)),
        };
        let mut out: Vec<HyprlandWorkspace> = Vec::new();
        let mut i: usize = 0;
        while i < vals.len()
            invariant
                i <= vals.len(),
                out@.len() == i,
                forall|k: int| 0 <= k < i ==> workspace_from(vals@[k], #[trigger] out@[k]),
            decreases vals.len() - i,
        {
            match self.parse_workspace(&vals[i]) {
                Ok(w) => out.push(w),
                Err(_) => {},
            }
            i = i + 1;
        }
        Ok(out)
    }

    /// The id of the active workspace, from the output of
    /// `hyprctl activeworkspace -j`.
    pub fn parse_active_workspace(&self, json: &str) -> (r: Result<i32>)
        ensures
            match json_value_document(json@) {
                Err(m) => r matches Err(e) && e@ == ErrorView::Json(m),
                Ok(v) => match int_value(member(v, "id"@)) {
                    Some(n) => r == Ok::<i32, HyprsechyError>(n as i32),
                    None => r matches Err(e) && e@ == ErrorView::HyprlandIpc(
                        "Failed to get active workspace ID"@,
                    ),
                },
            },
    {
        let v = match parse_json_value(json) {
            Ok(v) => v,
            Err(m) => return Err(HyprsechyError::Json(m)),
        };
        match as_i64(get_member(Some(&v), "id")) {
            Some(n) => Ok(n as i32),
            None => Err(HyprsechyError::HyprlandIpc(owned("Failed to get active workspace ID"))),
        }
    }
}

/// `/tmp/hypr/SIG/.socket.sock`, `/run/user/PID/hypr/SIG/.socket.sock` and,
/// when the runtime directory is known, `RUNTIME/hypr/SIG/.socket.sock`.
pub open spec fn socket_paths(signature: Seq<char>, pid: u32, runtime_dir: Option<Seq<char>>) -> Seq<Seq<char>> {
    let first = seq![
        "/tmp/hypr/"@ + signature + "/.socket.sock"@,
        "/run/user/"@ + decimal(pid as nat) + "/hypr/"@ + signature + "/.socket.sock"@,
    ];
    match runtime_dir {
        Some(d) => first.push(d + "/hypr/"@ + signature + "/.socket.sock"@),
        None => first,
    }
}

impl HyprlandIpc {
    /// The places where the command socket of the instance with signature
    /// `signature` may be, in the order they are tried.
    pub fn socket_candidates(signature: &str, pid: u32, runtime_dir: Option<&str>) -> (r: Vec<String>)
        ensures
            views(r@) == socket_paths(
                signature@,
                pid,
                match runtime_dir {
                    Some(d) => Some(d@),
                    None => None,
                },
            ),
    {
        let a = concat("/tmp/hypr/", signature);
        let p1 = concat(a.as_str(), "/.socket.sock");
        let n = u64_to_string(pid as u64);
        let b = concat("/run/user/", n.as_str());
        let c = concat(b.as_str(), "/hypr/");
        let d = concat(c.as_str(), signature);
        let p2 = concat(d.as_str(), "/.socket.sock");
        let mut out = vec![p1, p2];
        match runtime_dir {
            Some(rd) => {
                let e = concat(rd, "/hypr/");
                let f = concat(e.as_str(), signature);
                let p3 = concat(f.as_str(), "/.socket.sock");
                let ghost before = out@;
                out.push(p3);
                assert(views(out@) =~= views(before).push(p3@));
            },
            None => {},
        }
        proof {
            assert(views(seq![p1, p2]) =~= seq![p1@, p2@]);
        }
        out
    }

    /// The sockets of the instance whose command socket is `socket_path`:
    /// the event socket is named `.socket2.sock` in place of `.socket.sock`.
    pub fn from_socket_path(socket_path: &str) -> (r: Self)
        ensures
            r.socket_path@ == socket_path@,
            r.event_socket_path@ == replace_all(socket_path@, ".socket.sock"@, ".socket2.sock"@),
    {
        proof {
            reveal_strlit(".socket.sock");
        }
        HyprlandIpc {
            socket_path: owned(socket_path),
            event_socket_path: replace(socket_path, ".socket.sock", ".socket2.sock"),
        }
    }

    /// The sockets inside the instance directory `dir`.
    pub fn in_instance_dir(dir: &str) -> (r: Self)
        ensures
            r.socket_path@ == path_join(dir@, ".socket.sock"@),
            r.event_socket_path@ == path_join(dir@, ".socket2.sock"@),
    {
        HyprlandIpc {
            socket_path: join_path(dir, ".socket.sock"),
            event_socket_path: join_path(dir, ".socket2.sock"),
        }
    }
}

} // verus!
