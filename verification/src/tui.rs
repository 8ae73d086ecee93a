//! The configuration editor: the settings shown as a list of sections and
//! items, navigation through that list, editing of one value at a time, and
//! the reading of the edited values back into a `Config`. Drawing and the
//! terminal belong to the caller, which feeds key presses to `handle_key`.
use vstd::prelude::*;
use crate::config::Config;
use crate::types::{FilterConfig, GeneralConfig, UwsmConfig, WalkerConfig};
use crate::text::{
    bool_value, chars_of, concat, decimal, i32_value, i64_to_string, is_digit, is_ws, join,
    join_strings, lemma_bool_reads_back, lemma_decimal_reads_back, lemma_signed_decimal_reads_back,
    lemma_split_comma_list, lemma_split_pair, lemma_trim_spaced, lemma_u32_reads_back,
    lemma_u64_reads_back, lemma_usize_reads_back, owned, parse_bool, parse_i32, parse_u32,
    parse_u64, parse_usize, plain_item, signed_decimal, split, split_str, str_eq, string_of, trim,
    trim_end, trim_start, trim_str, u32_value, u64_to_string, u64_value, unsigned_value,
    usize_value, views,
};

verus! {

/// One editable setting.
pub struct ConfigItem {
    pub key: String,
    pub value: String,
    pub description: String,
    pub editable: bool,
}

/// A named group of settings.
pub struct ConfigSection {
    pub name: String,
    pub items: Vec<ConfigItem>,
}

/// A setting as text.
pub struct ItemView {
    pub key: Seq<char>,
    pub value: Seq<char>,
    pub description: Seq<char>,
    pub editable: bool,
}

/// A section as text.
pub struct SectionView {
    pub name: Seq<char>,
    pub items: Seq<ItemView>,
}

impl View for ConfigItem {
    type V = ItemView;

    open spec fn view(&self) -> ItemView {
        ItemView {
            key: self.key@,
            value: self.value@,
            description: self.description@,
            editable: self.editable,
        }
    }
}

impl View for ConfigSection {
    type V = SectionView;

    open spec fn view(&self) -> SectionView {
        SectionView { name: self.name@, items: self.items@.map_values(|i: ConfigItem| i@) }
    }
}

/// The sections, each taken by its view.
pub open spec fn sections_view(s: Seq<ConfigSection>) -> Seq<SectionView> {
    s.map_values(|x: ConfigSection| x@)
}

/// A key the editor reacts to.
#[derive(Clone, Copy, Debug, PartialEq, Eq, Structural)]
pub enum Key {
    Char(char),
    Backspace,
    Enter,
    Esc,
    Up,
    Down,
    Tab,
    Other,
}

/// What the caller does after a key press.
#[derive(Clone, Copy, Debug, PartialEq, Eq, Structural)]
pub enum EditorAction {
    /// Keep reading keys.
    Continue,
    /// Write `config` to the configuration file, then report the outcome
    /// with `finish_save`.
    Save,
    /// Leave the editor.
    Quit,
}

/// The state of the configuration editor.
pub struct App {
    pub config: Config,
    /// The selected row of the list: section headers and items, in order.
    pub selected: Option<usize>,
    /// The item being edited, as `"section:item"`.
    pub editing: Option<String>,
    pub edit_value: String,
    pub sections: Vec<ConfigSection>,
    pub show_help: bool,
    pub status_message: String,
    pub modified: bool,
}

/// `true` or `false`, as `bool::to_string` writes them.
pub open spec fn bool_text(b: bool) -> Seq<char> {
    if b {
        "true"@
    } else {
        "false"@
    }
}

/// An editable setting.
pub open spec fn setting(key: Seq<char>, value: Seq<char>, description: Seq<char>) -> ItemView {
    ItemView { key, value, description, editable: true }
}

/// The workspace ids, each in decimal.
pub open spec fn id_texts(ids: Seq<i32>) -> Seq<Seq<char>> {
    ids.map_values(|w: i32| signed_decimal(w as int))
}

/// The sections the editor shows for `c`.
pub open spec fn initial_sections(c: Config) -> Seq<SectionView> {
    seq![
        SectionView {
            name: "General"@,
            items: seq![
                setting(
                    "auto_restore"@,
                    bool_text(c.general.auto_restore),
                    "Automatically restore session on startup"@,
                ),
                setting(
                    "save_interval"@,
                    decimal(c.general.save_interval as nat),
                    "Interval between automatic saves (seconds)"@,
                ),
                setting(
                    "backup_count"@,
                    decimal(c.general.backup_count as nat),
                    "Number of session backups to keep"@,
                ),
                setting(
                    "verbose_logging"@,
                    bool_text(c.general.verbose_logging),
                    "Enable verbose logging"@,
                ),
            ],
        },
        SectionView {
            name: "UWSM"@,
            items: seq![
                setting("enabled"@, bool_text(c.uwsm.enabled), "Enable UWSM integration"@),
                setting(
                    "track_systemd_units"@,
                    bool_text(c.uwsm.track_systemd_units),
                    "Track systemd units for UWSM apps"@,
                ),
                setting(
                    "launch_via_uwsm"@,
                    bool_text(c.uwsm.launch_via_uwsm),
                    "Launch applications via UWSM when possible"@,
                ),
            ],
        },
        SectionView {
            name: "Walker"@,
            items: seq![
                setting(
                    "enabled"@,
                    bool_text(c.walker.enabled),
                    "Enable Walker desktop entry integration"@,
                ),
                setting(
                    "desktop_dirs"@,
                    join(views(c.walker.desktop_entry_dirs@), ", "@),
                    "Desktop entry directories (comma-separated)"@,
                ),
            ],
        },
        SectionView {
            name: "Filters"@,
            items: seq![
                setting(
                    "ignore_classes"@,
                    join(views(c.filters.ignore_classes@), ", "@),
                    "Window classes to ignore (comma-separated)"@,
                ),
                setting(
                    "ignore_workspaces"@,
                    join(id_texts(c.filters.ignore_workspaces@), ", "@),
                    "Workspace IDs to ignore (comma-separated)"@,
                ),
            ],
        },
    ]
}

/// The status line shown when the editor opens.
pub open spec fn welcome_text() -> Seq<char> {
    "Use ↑/↓ to navigate, Enter to edit, 's' to save, 'q' to quit, '?' for help"@
}

/// The number of rows of the list: one header per section and one row per
/// item.
pub open spec fn total_items(s: Seq<ConfigSection>) -> nat
    decreases s.len(),
{
    if s.len() == 0 {
        0
    } else {
        total_items(s.drop_last()) + s.last().items@.len() + 1
    }
}

/// The (section, item) shown on row `k`, or `None` for a section header or
/// a row past the end.
pub open spec fn locate(s: Seq<ConfigSection>, k: int) -> Option<(int, int)>
    decreases s.len(),
{
    if s.len() == 0 || k <= 0 {
        None
    } else if k - 1 < s[0].items@.len() {
        Some((0, k - 1))
    } else {
        match locate(s.drop_first(), k - 1 - s[0].items@.len()) {
            Some(p) => Some((p.0 + 1, p.1)),
            None => None,
        }
    }
}

/// The row after `cur` among `total` rows, wrapping to the first.
pub open spec fn next_index(cur: int, total: int) -> int {
    if cur >= total - 1 {
        0
    } else {
        cur + 1
    }
}

/// The row before `cur` among `total` rows, wrapping to the last.
pub open spec fn previous_index(cur: int, total: int) -> int {
    if cur == 0 {
        total - 1
    } else {
        cur - 1
    }
}

/// The row that counts as selected: the first when none is.
pub open spec fn current_row(selected: Option<usize>) -> int {
    match selected {
        Some(i) => i as int,
        None => 0,
    }
}

proof fn lemma_total_prefix(s: Seq<ConfigSection>, i: int)
    requires
        0 <= i <= s.len(),
    ensures
        total_items(s.take(i)) <= total_items(s),
    decreases s.len() - i,
{
    if i < s.len() {
        lemma_total_prefix(s, i + 1);
        assert(s.take(i + 1).drop_last() =~= s.take(i));
    } else {
        assert(s.take(i) =~= s);
    }
}

proof fn lemma_locate_bounds(s: Seq<ConfigSection>, k: int)
    ensures
        locate(s, k) matches Some(p) ==> 0 <= p.0 < s.len() && 0 <= p.1 < s[p.0].items@.len()
            && p.0 < k && p.1 < k,
    decreases s.len(),
{
    if s.len() > 0 && k > 0 && k - 1 >= s[0].items@.len() {
        lemma_locate_bounds(s.drop_first(), k - 1 - s[0].items@.len());
    }
}

fn bool_string(b: bool) -> (r: String)
    ensures
        r@ == bool_text(b),
{
    if b {
        owned("true")
    } else {
        owned("false")
    }
}

fn make_setting(key: &str, value: String, description: &str) -> (r: ConfigItem)
    ensures
        r@ == setting(key@, value@, description@),
{
    ConfigItem { key: owned(key), value, description: owned(description), editable: true }
}

fn ids_text(ids: &Vec<i32>) -> (r: String)
    ensures
        r@ == join(id_texts(ids@), ", "@),
{
    let mut parts: Vec<String> = Vec::new();
    let mut i: usize = 0;
    while i < ids.len()
        invariant
            i <= ids.len(),
            views(parts@) == id_texts(ids@.take(i as int)),
        decreases ids.len() - i,
    {
        let t = i64_to_string(ids[i] as i64);
        let ghost before = parts@;
        let ghost tv = t@;
        parts.push(t);
        assert(views(parts@) =~= views(before).push(tv));
        assert(ids@.take(i + 1) =~= ids@.take(i as int).push(ids@[i as int]));
        assert(id_texts(ids@.take(i + 1)) =~= id_texts(ids@.take(i as int)).push(
            signed_decimal(ids@[i as int] as int),
        ));
        i = i + 1;
    }
    assert(ids@.take(ids.len() as int) =~= ids@);
    join_strings(&parts, ", ")
}

impl App {
    /// The sections fit the machine: their rows can be counted in a `usize`.
    pub open spec fn fits(&self) -> bool {
        total_items(self.sections@) <= usize::MAX
    }

    /// The selection after moving down one row.
    pub open spec fn next_selection(&self) -> Option<usize> {
        let total = total_items(self.sections@);
        if total > 0 {
            Some(next_index(current_row(self.selected), total as int) as usize)
        } else {
            self.selected
        }
    }

    /// The selection after moving up one row.
    pub open spec fn previous_selection(&self) -> Option<usize> {
        let total = total_items(self.sections@);
        if total > 0 {
            Some(previous_index(current_row(self.selected), total as int) as usize)
        } else {
            self.selected
        }
    }

    /// The editor for `config`, with the first row selected.
    pub fn new(config: Config) -> (r: App)
        ensures
            sections_view(r.sections@) == initial_sections(config),
            r.config == config,
            r.selected == Some(0usize),
            r.editing.is_none(),
            r.edit_value@.len() == 0,
            !r.show_help,
            r.status_message@ == welcome_text(),
            !r.modified,
            total_items(r.sections@) == 15,
            r.fits(),
    {
        let mut general: Vec<ConfigItem> = Vec::new();
        general.push(
            make_setting(
                "auto_restore",
                bool_string(config.general.auto_restore),
                "Automatically restore session on startup",
            ),
        );
        general.push(
            make_setting(
                "save_interval",
                u64_to_string(config.general.save_interval),
                "Interval between automatic saves (seconds)",
            ),
        );
        general.push(
            make_setting(
                "backup_count",
                u64_to_string(config.general.backup_count as u64),
                "Number of session backups to keep",
            ),
        );
        general.push(
            make_setting(
                "verbose_logging",
                bool_string(config.general.verbose_logging),
                "Enable verbose logging",
            ),
        );
        let mut uwsm: Vec<ConfigItem> = Vec::new();
        uwsm.push(
            make_setting("enabled", bool_string(config.uwsm.enabled), "Enable UWSM integration"),
        );
        uwsm.push(
            make_setting(
                "track_systemd_units",
                bool_string(config.uwsm.track_systemd_units),
                "Track systemd units for UWSM apps",
            ),
        );
        uwsm.push(
            make_setting(
                "launch_via_uwsm",
                bool_string(config.uwsm.launch_via_uwsm),
                "Launch applications via UWSM when possible",
            ),
        );
        let mut walker: Vec<ConfigItem> = Vec::new();
        walker.push(
            make_setting(
                "enabled",
                bool_string(config.walker.enabled),
                "Enable Walker desktop entry integration",
            ),
        );
        walker.push(
            make_setting(
                "desktop_dirs",
                join_strings(&config.walker.desktop_entry_dirs, ", "),
                "Desktop entry directories (comma-separated)",
            ),
        );
        let mut filters: Vec<ConfigItem> = Vec::new();
        filters.push(
            make_setting(
                "ignore_classes",
                join_strings(&config.filters.ignore_classes, ", "),
                "Window classes to ignore (comma-separated)",
            ),
        );
        filters.push(
            make_setting(
                "ignore_workspaces",
                ids_text(&config.filters.ignore_workspaces),
                "Workspace IDs to ignore (comma-separated)",
            ),
        );
        let ghost init = initial_sections(config);
        let s0 = ConfigSection { name: owned("General"), items: general };
        let s1 = ConfigSection { name: owned("UWSM"), items: uwsm };
        let s2 = ConfigSection { name: owned("Walker"), items: walker };
        let s3 = ConfigSection { name: owned("Filters"), items: filters };
        assert(s0@.items =~= init[0].items);
        assert(s1@.items =~= init[1].items);
        assert(s2@.items =~= init[2].items);
        assert(s3@.items =~= init[3].items);
        let mut sections: Vec<ConfigSection> = Vec::new();
        sections.push(s0);
        sections.push(s1);
        sections.push(s2);
        sections.push(s3);
        assert(sections_view(sections@) =~= init);
        proof {
            let s = sections@;
            assert(s[0].items@.len() == 4);
            assert(s[1].items@.len() == 3);
            assert(s[2].items@.len() == 2);
            assert(s[3].items@.len() == 2);
            let s1 = s.drop_last();
            let s2 = s1.drop_last();
            let s3 = s2.drop_last();
            assert(s3.drop_last().len() == 0);
            assert(total_items(s3.drop_last()) == 0);
            assert(s3.last() == s[0]);
            assert(s2.last() == s[1]);
            assert(s1.last() == s[2]);
            assert(s.last() == s[3]);
            assert(total_items(s3) == 5);
            assert(total_items(s2) == 9);
            assert(total_items(s1) == 12);
        }
        App {
            config,
            selected: Some(0),
            editing: None,
            edit_value: String::new(),
            sections,
            show_help: false,
            status_message: owned(
                "Use ↑/↓ to navigate, Enter to edit, 's' to save, 'q' to quit, '?' for help",
            ),
            modified: false,
        }
    }

    /// The number of rows: a header per section and a row per item.
    pub fn get_total_items(&self) -> (r: usize)
        requires
            self.fits(),
        ensures
            r == total_items(self.sections@),
    {
        let mut total: usize = 0;
        let mut i: usize = 0;
        while i < self.sections.len()
            invariant
                i <= self.sections.len(),
                total == total_items(self.sections@.take(i as int)),
                total_items(self.sections@) <= usize::MAX,
            decreases self.sections.len() - i,
        {
            proof {
                assert(self.sections@.take(i + 1).drop_last() =~= self.sections@.take(i as int));
                lemma_total_prefix(self.sections@, i + 1);
            }
            total = total + self.sections[i].items.len() + 1;
            i = i + 1;
        }
        assert(self.sections@.take(i as int) =~= self.sections@);
        total
    }

    /// Selects the next row, wrapping from the last to the first.
    pub fn next_item(&mut self)
        requires
            old(self).fits(),
        ensures
            moved_to(*old(self), *final(self), old(self).next_selection()),
    {
        let total = self.get_total_items();
        if total > 0 {
            let current = match self.selected {
                Some(i) => i,
                None => 0,
            };
            let next = if current >= total - 1 {
                0
            } else {
                current + 1
            };
            self.selected = Some(next);
        }
    }

    /// Selects the previous row, wrapping from the first to the last.
    pub fn previous_item(&mut self)
        requires
            old(self).fits(),
        ensures
            moved_to(*old(self), *final(self), old(self).previous_selection()),
    {
        let total = self.get_total_items();
        if total > 0 {
            let current = match self.selected {
                Some(i) => i,
                None => 0,
            };
            let previous = if current == 0 {
                total - 1
            } else {
                current - 1
            };
            self.selected = Some(previous);
        }
    }

    /// The (section, item) on the selected row; `None` on a section header
    /// or when nothing is selected.
    pub fn get_current_item(&self) -> (r: Option<(usize, usize)>)
        requires
            self.fits(),
        ensures
            r == (match self.current_item() {
                Some(p) => Some((p.0 as usize, p.1 as usize)),
                None => None,
            }),
            self.current_item() matches Some(p) ==> 0 <= p.0 < self.sections@.len() && 0 <= p.1
                < self.sections@[p.0].items@.len() && p.0 < usize::MAX && p.1 < usize::MAX,
    {
        let selected = match self.selected {
            Some(k) => k,
            None => {
                return None;
            },
        };
        let ghost s = self.sections@;
        proof {
            lemma_locate_bounds(s, selected as int);
        }
        let mut current: usize = 0;
        let mut si: usize = 0;
        assert(s.skip(0) =~= s);
        while si < self.sections.len()
            invariant
                s == self.sections@,
                self.selected == Some(selected),
                si <= s.len(),
                current <= selected,
                current == total_items(s.take(si as int)),
                total_items(s) <= usize::MAX,
                locate(s, selected as int) == match locate(s.skip(si as int), selected - current) {
                    Some(p) => Some((p.0 + si, p.1)),
                    None => None,
                },
            decreases s.len() - si,
        {
            let ghost rest = s.skip(si as int);
            proof {
                assert(rest[0] == s[si as int]);
                assert(rest.drop_first() =~= s.skip(si + 1));
                assert(s.take(si + 1).drop_last() =~= s.take(si as int));
                lemma_total_prefix(s, si + 1);
            }
            if current == selected {
                return None;
            }
            let len = self.sections[si].items.len();
            if selected - current - 1 < len {
                let item = selected - current - 1;
                return Some((si, item));
            }
            current = current + len + 1;
            si = si + 1;
        }
        None
    }

    /// The (section, item) on the selected row, if it is an item.
    pub open spec fn current_item(&self) -> Option<(int, int)> {
        match self.selected {
            Some(k) => locate(self.sections@, k as int),
            None => None,
        }
    }

    /// Opens the selected item for editing, if it is an editable item.
    pub fn start_editing(&mut self)
        requires
            old(self).fits(),
        ensures
            editing_started(*old(self), *final(self)),
    {
        match self.get_current_item() {
            Some((si, ii)) => {
                assert(self.current_item() == Some((si as int, ii as int)));
                let item = &self.sections[si].items[ii];
                if item.editable {
                    let a = u64_to_string(si as u64);
                    let b = u64_to_string(ii as u64);
                    let tail = concat(":", b.as_str());
                    let key = concat(a.as_str(), tail.as_str());
                    assert(key@ =~= edit_key(si as int, ii as int));
                    self.editing = Some(key);
                    self.edit_value = item.value.clone();
                    let m = concat("Editing ", item.key.as_str());
                    self.status_message = concat(
                        m.as_str(),
                        " - Press Enter to save, Escape to cancel",
                    );
                }
            },
            None => {},
        }
    }

    /// Writes the edited text into the item being edited, if the editing
    /// key names an item, and closes the editor field.
    pub fn save_edit(&mut self)
        requires
            old(self).fits(),
        ensures
            saved_edit(*old(self), *final(self)),
            final(self).fits(),
    {
        let ghost pre = *self;
        let target = match &self.editing {
            Some(key) => edit_target_of(key.as_str()),
            None => None,
        };
        match target {
            Some((si, ii)) => {
                if si < self.sections.len() && ii < self.sections[si].items.len() {
                    let v = self.edit_value.clone();
                    self.sections[si].items[ii].value = v;
                    self.modified = true;
                    self.status_message = owned("Value updated. Press 's' to save to file.");
                    proof {
                        lemma_same_shape_total(pre.sections@, self.sections@);
                        assert(sections_view(self.sections@) =~= with_value(
                            sections_view(pre.sections@),
                            si as int,
                            ii as int,
                            pre.edit_value@,
                        )) by {
                            let a = sections_view(self.sections@);
                            let b = with_value(
                                sections_view(pre.sections@),
                                si as int,
                                ii as int,
                                pre.edit_value@,
                            );
                            assert forall|j: int| 0 <= j < a.len() implies a[j] == b[j] by {
                                if j == si {
                                    assert(a[j].items =~= b[j].items);
                                }
                            }
                        }
                    }
                }
            },
            None => {},
        }
        self.editing = None;
        self.edit_value = String::new();
    }

    /// The (section, item) being edited, when the editing key names one.
    pub fn editing_target(&self) -> (r: Option<(usize, usize)>)
        ensures
            match edited_item(self.sections@, self.editing) {
                Some(t) => r == Some((t.0 as usize, t.1 as usize)),
                None => r is None,
            },
    {
        let target = match &self.editing {
            Some(key) => edit_target_of(key.as_str()),
            None => None,
        };
        match target {
            Some((si, ii)) => if si < self.sections.len() && ii < self.sections[si].items.len() {
                Some((si, ii))
            } else {
                None
            },
            None => None,
        }
    }

    /// Closes the editor field without changing any item.
    pub fn cancel_edit(&mut self)
        ensures
            cancelled_edit(*old(self), *final(self)),
    {
        self.editing = None;
        self.edit_value = String::new();
        self.status_message = owned("Edit cancelled");
    }

    /// Shows or hides the help page.
    pub fn toggle_help(&mut self)
        ensures
            toggled_help(*old(self), *final(self)),
    {
        self.show_help = !self.show_help;
    }
}

/// `post` is `pre` with the selection `sel`.
pub open spec fn moved_to(pre: App, post: App, sel: Option<usize>) -> bool {
    &&& post.selected == sel
    &&& post.config == pre.config
    &&& post.editing == pre.editing
    &&& post.edit_value == pre.edit_value
    &&& post.sections == pre.sections
    &&& post.show_help == pre.show_help
    &&& post.status_message == pre.status_message
    &&& post.modified == pre.modified
}

/// `post` is `pre` with the help page shown if it was hidden, and hidden if
/// it was shown.
pub open spec fn toggled_help(pre: App, post: App) -> bool {
    &&& post.show_help == !pre.show_help
    &&& post.config == pre.config
    &&& post.selected == pre.selected
    &&& post.editing == pre.editing
    &&& post.edit_value == pre.edit_value
    &&& post.sections == pre.sections
    &&& post.status_message == pre.status_message
    &&& post.modified == pre.modified
}

/// `post` is `pre` after asking to edit the selected row: the item opened
/// when the row is an editable item, nothing changed otherwise.
pub open spec fn editing_started(pre: App, post: App) -> bool {
    match pre.current_item() {
        Some(p) => if pre.sections@[p.0].items@[p.1].editable {
            started_editing(pre, post, p.0, p.1)
        } else {
            post == pre
        },
        None => post == pre,
    }
}

/// The text that names item `i` of section `s` while it is edited.
pub open spec fn edit_key(s: int, i: int) -> Seq<char> {
    decimal(s as nat) + ":"@ + decimal(i as nat)
}

/// The (section, item) an editing key names: two numbers separated by
/// `:`.
pub open spec fn edit_target(key: Seq<char>) -> Option<(usize, usize)> {
    let parts = split(key, ":"@);
    if parts.len() == 2 {
        match (usize_value(parts[0]), usize_value(parts[1])) {
            (Some(a), Some(b)) => Some((a, b)),
            _ => None,
        }
    } else {
        None
    }
}

/// `post` is `pre` with item `i` of section `s` opened for editing.
pub open spec fn started_editing(pre: App, post: App, s: int, i: int) -> bool {
    let item = pre.sections@[s].items@[i];
    &&& post.editing matches Some(e) && e@ == edit_key(s, i)
    &&& post.edit_value@ == item.value@
    &&& post.status_message@ == "Editing "@ + item.key@
        + " - Press Enter to save, Escape to cancel"@
    &&& post.config == pre.config
    &&& post.selected == pre.selected
    &&& post.sections == pre.sections
    &&& post.show_help == pre.show_help
    &&& post.modified == pre.modified
}

/// The sections `s` with the value of item `i` of section `a` replaced by
/// `v`.
pub open spec fn with_value(s: Seq<SectionView>, a: int, i: int, v: Seq<char>) -> Seq<SectionView> {
    s.update(
        a,
        SectionView {
            name: s[a].name,
            items: s[a].items.update(
                i,
                ItemView {
                    key: s[a].items[i].key,
                    value: v,
                    description: s[a].items[i].description,
                    editable: s[a].items[i].editable,
                },
            ),
        },
    )
}

/// The item an editing key names, when it names one of `s`.
pub open spec fn edited_item(s: Seq<ConfigSection>, editing: Option<String>) -> Option<(int, int)> {
    match editing {
        Some(e) => match edit_target(e@) {
            Some(t) => if t.0 < s.len() && t.1 < s[t.0 as int].items@.len() {
                Some((t.0 as int, t.1 as int))
            } else {
                None
            },
            None => None,
        },
        None => None,
    }
}

/// `post` is `pre` after the edited text was written back: into the item
/// the editing key names, if it names one, and the editor field closed.
pub open spec fn saved_edit(pre: App, post: App) -> bool {
    &&& match edited_item(pre.sections@, pre.editing) {
        Some(t) => {
            &&& sections_view(post.sections@) == with_value(
                sections_view(pre.sections@),
                t.0,
                t.1,
                pre.edit_value@,
            )
            &&& post.modified
            &&& post.status_message@ == "Value updated. Press 's' to save to file."@
        },
        None => {
            &&& post.sections == pre.sections
            &&& post.modified == pre.modified
            &&& post.status_message == pre.status_message
        },
    }
    &&& post.editing.is_none()
    &&& post.edit_value@.len() == 0
    &&& post.config == pre.config
    &&& post.selected == pre.selected
    &&& post.show_help == pre.show_help
}

/// `post` is `pre` with the editor field closed and nothing written.
pub open spec fn cancelled_edit(pre: App, post: App) -> bool {
    &&& post.editing.is_none()
    &&& post.edit_value@.len() == 0
    &&& post.status_message@ == "Edit cancelled"@
    &&& post.config == pre.config
    &&& post.selected == pre.selected
    &&& post.sections == pre.sections
    &&& post.show_help == pre.show_help
    &&& post.modified == pre.modified
}

proof fn lemma_same_shape_total(a: Seq<ConfigSection>, b: Seq<ConfigSection>)
    requires
        a.len() == b.len(),
        forall|i: int| 0 <= i < a.len() ==> #[trigger] a[i].items@.len() == b[i].items@.len(),
    ensures
        total_items(a) == total_items(b),
    decreases a.len(),
{
    if a.len() > 0 {
        lemma_same_shape_total(a.drop_last(), b.drop_last());
    }
}

fn edit_target_of(key: &str) -> (r: Option<(usize, usize)>)
    ensures
        r == edit_target(key@),
{
    proof {
        reveal_strlit(":");
    }
    let parts = split_str(key, ":");
    if parts.len() == 2 {
        let a = parse_usize(parts[0].as_str());
        let b = parse_usize(parts[1].as_str());
        match (a, b) {
            (Some(x), Some(y)) => Some((x, y)),
            _ => None,
        }
    } else {
        None
    }
}


/// A setting as read back: (section name, key, value).
pub open spec fn section_entries(s: ConfigSection) -> Seq<(Seq<char>, Seq<char>, Seq<char>)> {
    s.items@.map_values(|i: ConfigItem| (s.name@, i.key@, i.value@))
}

/// All settings of the sections, in order.
pub open spec fn entries(s: Seq<ConfigSection>) -> Seq<(Seq<char>, Seq<char>, Seq<char>)>
    decreases s.len(),
{
    if s.len() == 0 {
        seq![]
    } else {
        entries(s.drop_last()) + section_entries(s.last())
    }
}

/// The value of the last setting `key` of a section named `name`.
pub open spec fn last_value(
    e: Seq<(Seq<char>, Seq<char>, Seq<char>)>,
    name: Seq<char>,
    key: Seq<char>,
) -> Option<Seq<char>>
    decreases e.len(),
{
    if e.len() == 0 {
        None
    } else if e.last().0 == name && e.last().1 == key {
        Some(e.last().2)
    } else {
        last_value(e.drop_last(), name, key)
    }
}

/// The non-empty trimmed pieces, in order.
pub open spec fn listed(pieces: Seq<Seq<char>>) -> Seq<Seq<char>>
    decreases pieces.len(),
{
    if pieces.len() == 0 {
        seq![]
    } else {
        let prev = listed(pieces.drop_last());
        let t = trim(pieces.last());
        if t.len() > 0 {
            prev.push(t)
        } else {
            prev
        }
    }
}

/// The trimmed pieces that are `i32` numbers, as numbers, in order.
pub open spec fn listed_ids(pieces: Seq<Seq<char>>) -> Seq<i32>
    decreases pieces.len(),
{
    if pieces.len() == 0 {
        seq![]
    } else {
        let prev = listed_ids(pieces.drop_last());
        match i32_value(trim(pieces.last())) {
            Some(n) => prev.push(n),
            None => prev,
        }
    }
}

/// The boolean `v` names, or `d`.
pub open spec fn bool_or(v: Seq<char>, d: bool) -> bool {
    match bool_value(v) {
        Some(b) => b,
        None => d,
    }
}

/// The `u64` `v` denotes, or `d`.
pub open spec fn u64_or(v: Seq<char>, d: u64) -> u64 {
    match u64_value(v) {
        Some(n) => n,
        None => d,
    }
}

/// The `u32` `v` denotes, or `d`.
pub open spec fn u32_or(v: Seq<char>, d: u32) -> u32 {
    match u32_value(v) {
        Some(n) => n,
        None => d,
    }
}

/// A boolean setting after the entries `e`: read from the last entry for
/// it (or `d` when that does not read as a boolean), else `old`.
pub open spec fn bool_setting(
    e: Seq<(Seq<char>, Seq<char>, Seq<char>)>,
    name: Seq<char>,
    key: Seq<char>,
    old: bool,
    d: bool,
) -> bool {
    match last_value(e, name, key) {
        Some(v) => bool_or(v, d),
        None => old,
    }
}

/// `post` is `pre` with the settings of the entries `e` read into it.
pub open spec fn applied(pre: Config, post: Config, e: Seq<(Seq<char>, Seq<char>, Seq<char>)>) -> bool {
    &&& post.general.auto_restore == bool_setting(
        e,
        "General"@,
        "auto_restore"@,
        pre.general.auto_restore,
        false,
    )
    &&& post.general.save_interval == match last_value(e, "General"@, "save_interval"@) {
        Some(v) => u64_or(v, 60),
        None => pre.general.save_interval,
    }
    &&& post.general.backup_count == match last_value(e, "General"@, "backup_count"@) {
        Some(v) => u32_or(v, 5),
        None => pre.general.backup_count,
    }
    &&& post.general.verbose_logging == bool_setting(
        e,
        "General"@,
        "verbose_logging"@,
        pre.general.verbose_logging,
        false,
    )
    &&& post.uwsm.enabled == bool_setting(e, "UWSM"@, "enabled"@, pre.uwsm.enabled, true)
    &&& post.uwsm.track_systemd_units == bool_setting(
        e,
        "UWSM"@,
        "track_systemd_units"@,
        pre.uwsm.track_systemd_units,
        true,
    )
    &&& post.uwsm.launch_via_uwsm == bool_setting(
        e,
        "UWSM"@,
        "launch_via_uwsm"@,
        pre.uwsm.launch_via_uwsm,
        true,
    )
    &&& post.uwsm.preserve_unit_names == pre.uwsm.preserve_unit_names
    &&& post.walker.enabled == bool_setting(e, "Walker"@, "enabled"@, pre.walker.enabled, false)
    &&& views(post.walker.desktop_entry_dirs@) == match last_value(e, "Walker"@, "desktop_dirs"@) {
        Some(v) => listed(split(v, ","@)),
        None => views(pre.walker.desktop_entry_dirs@),
    }
    &&& post.walker.sync_frequent_apps == pre.walker.sync_frequent_apps
    &&& views(post.filters.ignore_classes@) == match last_value(
        e,
        "Filters"@,
        "ignore_classes"@,
    ) {
        Some(v) => listed(split(v, ","@)),
        None => views(pre.filters.ignore_classes@),
    }
    &&& post.filters.ignore_workspaces@ == match last_value(e, "Filters"@, "ignore_workspaces"@) {
        Some(v) => listed_ids(split(v, ","@)),
        None => pre.filters.ignore_workspaces@,
    }
    &&& post.restoration == pre.restoration
    &&& post.commands == pre.commands
}

/// `post` is `pre` with the single setting (`name`, `key`, `value`) read
/// into it.
pub open spec fn entry_applied(pre: Config, post: Config, name: Seq<char>, key: Seq<char>, value: Seq<char>) -> bool {
    let is = |n: Seq<char>, k: Seq<char>| name == n && key == k;
    &&& post.general.auto_restore == if is("General"@, "auto_restore"@) {
        bool_or(value, false)
    } else {
        pre.general.auto_restore
    }
    &&& post.general.save_interval == if is("General"@, "save_interval"@) {
        u64_or(value, 60)
    } else {
        pre.general.save_interval
    }
    &&& post.general.backup_count == if is("General"@, "backup_count"@) {
        u32_or(value, 5)
    } else {
        pre.general.backup_count
    }
    &&& post.general.verbose_logging == if is("General"@, "verbose_logging"@) {
        bool_or(value, false)
    } else {
        pre.general.verbose_logging
    }
    &&& post.uwsm.enabled == if is("UWSM"@, "enabled"@) {
        bool_or(value, true)
    } else {
        pre.uwsm.enabled
    }
    &&& post.uwsm.track_systemd_units == if is("UWSM"@, "track_systemd_units"@) {
        bool_or(value, true)
    } else {
        pre.uwsm.track_systemd_units
    }
    &&& post.uwsm.launch_via_uwsm == if is("UWSM"@, "launch_via_uwsm"@) {
        bool_or(value, true)
    } else {
        pre.uwsm.launch_via_uwsm
    }
    &&& post.uwsm.preserve_unit_names == pre.uwsm.preserve_unit_names
    &&& post.walker.enabled == if is("Walker"@, "enabled"@) {
        bool_or(value, false)
    } else {
        pre.walker.enabled
    }
    &&& views(post.walker.desktop_entry_dirs@) == if is("Walker"@, "desktop_dirs"@) {
        listed(split(value, ","@))
    } else {
        views(pre.walker.desktop_entry_dirs@)
    }
    &&& post.walker.sync_frequent_apps == pre.walker.sync_frequent_apps
    &&& views(post.filters.ignore_classes@) == if is("Filters"@, "ignore_classes"@) {
        listed(split(value, ","@))
    } else {
        views(pre.filters.ignore_classes@)
    }
    &&& post.filters.ignore_workspaces@ == if is("Filters"@, "ignore_workspaces"@) {
        listed_ids(split(value, ","@))
    } else {
        pre.filters.ignore_workspaces@
    }
    &&& post.restoration == pre.restoration
    &&& post.commands == pre.commands
}

proof fn lemma_applied_step(
    orig: Config,
    c1: Config,
    c2: Config,
    p: Seq<(Seq<char>, Seq<char>, Seq<char>)>,
    x: (Seq<char>, Seq<char>, Seq<char>),
)
    requires
        applied(orig, c1, p),
        entry_applied(c1, c2, x.0, x.1, x.2),
    ensures
        applied(orig, c2, p.push(x)),
{
    assert(p.push(x).drop_last() =~= p);
    assert forall|n: Seq<char>, k: Seq<char>|
        #[trigger] last_value(p.push(x), n, k) == (if x.0 == n && x.1 == k {
            Some(x.2)
        } else {
            last_value(p, n, k)
        }) by {}
}

/// The non-empty trimmed pieces of `s` between commas.
fn comma_list(s: &str) -> (r: Vec<String>)
    ensures
        views(r@) == listed(split(s@, ","@)),
{
    proof {
        reveal_strlit(",");
    }
    let parts = split_str(s, ",");
    let ghost ps = views(parts@);
    let mut out: Vec<String> = Vec::new();
    let mut i: usize = 0;
    while i < parts.len()
        invariant
            ps == views(parts@),
            i <= parts.len(),
            views(out@) == listed(ps.take(i as int)),
        decreases parts.len() - i,
    {
        let t = trim_str(parts[i].as_str());
        assert(ps.take(i + 1).drop_last() =~= ps.take(i as int));
        if chars_of(t.as_str()).len() > 0 {
            let ghost before = out@;
            let ghost tv = t@;
            out.push(t);
            assert(views(out@) =~= views(before).push(tv));
        }
        i = i + 1;
    }
    assert(ps.take(parts.len() as int) =~= ps);
    out
}

/// The trimmed pieces of `s` between commas that are `i32` numbers.
fn comma_ids(s: &str) -> (r: Vec<i32>)
    ensures
        r@ == listed_ids(split(s@, ","@)),
{
    proof {
        reveal_strlit(",");
    }
    let parts = split_str(s, ",");
    let ghost ps = views(parts@);
    let mut out: Vec<i32> = Vec::new();
    let mut i: usize = 0;
    while i < parts.len()
        invariant
            ps == views(parts@),
            i <= parts.len(),
            out@ == listed_ids(ps.take(i as int)),
        decreases parts.len() - i,
    {
        let t = trim_str(parts[i].as_str());
        assert(ps.take(i + 1).drop_last() =~= ps.take(i as int));
        match parse_i32(t.as_str()) {
            Some(n) => {
                out.push(n);
            },
            None => {},
        }
        i = i + 1;
    }
    assert(ps.take(parts.len() as int) =~= ps);
    out
}

fn bool_or_exec(v: &str, d: bool) -> (r: bool)
    ensures
        r == bool_or(v@, d),
{
    match parse_bool(v) {
        Some(b) => b,
        None => d,
    }
}

fn apply_general(g: &mut GeneralConfig, name: &str, key: &str, value: &str)
    ensures
        final(g).auto_restore == if name@ == "General"@ && key@ == "auto_restore"@ {
            bool_or(value@, false)
        } else {
            old(g).auto_restore
        },
        final(g).save_interval == if name@ == "General"@ && key@ == "save_interval"@ {
            u64_or(value@, 60)
        } else {
            old(g).save_interval
        },
        final(g).backup_count == if name@ == "General"@ && key@ == "backup_count"@ {
            u32_or(value@, 5)
        } else {
            old(g).backup_count
        },
        final(g).verbose_logging == if name@ == "General"@ && key@ == "verbose_logging"@ {
            bool_or(value@, false)
        } else {
            old(g).verbose_logging
        },
{
    if str_eq(name, "General") {
        if str_eq(key, "auto_restore") {
            g.auto_restore = bool_or_exec(value, false);
        }
        if str_eq(key, "save_interval") {
            g.save_interval = match parse_u64(value) {
                Some(n) => n,
                None => 60,
            };
        }
        if str_eq(key, "backup_count") {
            g.backup_count = match parse_u32(value) {
                Some(n) => n,
                None => 5,
            };
        }
        if str_eq(key, "verbose_logging") {
            g.verbose_logging = bool_or_exec(value, false);
        }
    }
}

fn apply_uwsm(u: &mut UwsmConfig, name: &str, key: &str, value: &str)
    ensures
        final(u).enabled == if name@ == "UWSM"@ && key@ == "enabled"@ {
            bool_or(value@, true)
        } else {
            old(u).enabled
        },
        final(u).track_systemd_units == if name@ == "UWSM"@ && key@ == "track_systemd_units"@ {
            bool_or(value@, true)
        } else {
            old(u).track_systemd_units
        },
        final(u).launch_via_uwsm == if name@ == "UWSM"@ && key@ == "launch_via_uwsm"@ {
            bool_or(value@, true)
        } else {
            old(u).launch_via_uwsm
        },
        final(u).preserve_unit_names == old(u).preserve_unit_names,
{
    if str_eq(name, "UWSM") {
        if str_eq(key, "enabled") {
            u.enabled = bool_or_exec(value, true);
        }
        if str_eq(key, "track_systemd_units") {
            u.track_systemd_units = bool_or_exec(value, true);
        }
        if str_eq(key, "launch_via_uwsm") {
            u.launch_via_uwsm = bool_or_exec(value, true);
        }
    }
}

fn apply_walker(w: &mut WalkerConfig, name: &str, key: &str, value: &str)
    ensures
        final(w).enabled == if name@ == "Walker"@ && key@ == "enabled"@ {
            bool_or(value@, false)
        } else {
            old(w).enabled
        },
        views(final(w).desktop_entry_dirs@) == if name@ == "Walker"@ && key@ == "desktop_dirs"@ {
            listed(split(value@, ","@))
        } else {
            views(old(w).desktop_entry_dirs@)
        },
        final(w).sync_frequent_apps == old(w).sync_frequent_apps,
{
    if str_eq(name, "Walker") {
        if str_eq(key, "enabled") {
            w.enabled = bool_or_exec(value, false);
        }
        if str_eq(key, "desktop_dirs") {
            w.desktop_entry_dirs = comma_list(value);
        }
    }
}

fn apply_filters(f: &mut FilterConfig, name: &str, key: &str, value: &str)
    ensures
        views(final(f).ignore_classes@) == if name@ == "Filters"@ && key@ == "ignore_classes"@ {
            listed(split(value@, ","@))
        } else {
            views(old(f).ignore_classes@)
        },
        final(f).ignore_workspaces@ == if name@ == "Filters"@ && key@ == "ignore_workspaces"@ {
            listed_ids(split(value@, ","@))
        } else {
            old(f).ignore_workspaces@
        },
{
    if str_eq(name, "Filters") {
        if str_eq(key, "ignore_classes") {
            f.ignore_classes = comma_list(value);
        }
        if str_eq(key, "ignore_workspaces") {
            f.ignore_workspaces = comma_ids(value);
        }
    }
}

/// Reads one setting into `config`.
fn apply_entry(config: &mut Config, name: &str, key: &str, value: &str)
    ensures
        entry_applied(*old(config), *final(config), name@, key@, value@),
{
    apply_general(&mut config.general, name, key, value);
    apply_uwsm(&mut config.uwsm, name, key, value);
    apply_walker(&mut config.walker, name, key, value);
    apply_filters(&mut config.filters, name, key, value);
}

impl App {
    /// Reads the values of all items back into `config`: each known setting
    /// from its item (a value that does not read as the setting's type
    /// gives the setting's fallback; lists are split at commas, trimmed and
    /// kept when non-empty, workspace ids kept when they are numbers).
    pub fn apply_sections(&mut self)
        ensures
            applied(old(self).config, final(self).config, entries(old(self).sections@)),
            final(self).selected == old(self).selected,
            final(self).editing == old(self).editing,
            final(self).edit_value == old(self).edit_value,
            final(self).sections == old(self).sections,
            final(self).show_help == old(self).show_help,
            final(self).status_message == old(self).status_message,
            final(self).modified == old(self).modified,
    {
        let ghost orig = self.config;
        let ghost secs = self.sections@;
        let mut si: usize = 0;
        assert(secs.take(0) =~= Seq::<ConfigSection>::empty());
        while si < self.sections.len()
            invariant
                secs == self.sections@,
                si <= secs.len(),
                applied(orig, self.config, entries(secs.take(si as int))),
                self.selected == old(self).selected,
                self.editing == old(self).editing,
                self.edit_value == old(self).edit_value,
                self.sections == old(self).sections,
                self.show_help == old(self).show_help,
                self.status_message == old(self).status_message,
                self.modified == old(self).modified,
                orig == old(self).config,
            decreases secs.len() - si,
        {
            let ghost sec = secs[si as int];
            let ghost done = entries(secs.take(si as int));
            assert(secs.take(si + 1).drop_last() =~= secs.take(si as int));
            assert(section_entries(sec).take(0) =~= Seq::<(Seq<char>, Seq<char>, Seq<char>)>::empty());
            assert(done + section_entries(sec).take(0) =~= done);
            let mut ii: usize = 0;
            while ii < self.sections[si].items.len()
                invariant
                    secs == self.sections@,
                    si < secs.len(),
                    sec == secs[si as int],
                    done == entries(secs.take(si as int)),
                    ii <= sec.items@.len(),
                    applied(orig, self.config, done + section_entries(sec).take(ii as int)),
                    self.selected == old(self).selected,
                    self.editing == old(self).editing,
                    self.edit_value == old(self).edit_value,
                    self.sections == old(self).sections,
                    self.show_help == old(self).show_help,
                    self.status_message == old(self).status_message,
                    self.modified == old(self).modified,
                    orig == old(self).config,
                decreases sec.items@.len() - ii,
            {
                let ghost c1 = self.config;
                let ghost x = section_entries(sec)[ii as int];
                apply_entry(
                    &mut self.config,
                    self.sections[si].name.as_str(),
                    self.sections[si].items[ii].key.as_str(),
                    self.sections[si].items[ii].value.as_str(),
                );
                proof {
                    lemma_applied_step(
                        orig,
                        c1,
                        self.config,
                        done + section_entries(sec).take(ii as int),
                        x,
                    );
                    assert((done + section_entries(sec).take(ii as int)).push(x) =~= done
                        + section_entries(sec).take(ii + 1));
                }
                ii = ii + 1;
            }
            assert(section_entries(sec).take(sec.items@.len() as int) =~= section_entries(sec));
            si = si + 1;
        }
        assert(secs.take(secs.len() as int) =~= secs);
    }

    /// Records how writing the configuration file went: `Ok` clears the
    /// modified mark, an error is reported in the status line.
    pub fn finish_save(&mut self, outcome: Result<(), String>)
        ensures
            match outcome {
                Ok(()) => {
                    &&& !final(self).modified
                    &&& final(self).status_message@ == "Configuration saved successfully!"@
                },
                Err(e) => {
                    &&& final(self).modified == old(self).modified
                    &&& final(self).status_message@ == "Save failed: "@ + e@
                },
            },
            final(self).config == old(self).config,
            final(self).selected == old(self).selected,
            final(self).editing == old(self).editing,
            final(self).edit_value == old(self).edit_value,
            final(self).sections == old(self).sections,
            final(self).show_help == old(self).show_help,
    {
        match outcome {
            Ok(()) => {
                self.modified = false;
                self.status_message = owned("Configuration saved successfully!");
            },
            Err(e) => {
                self.status_message = concat("Save failed: ", e.as_str());
            },
        }
    }
}

/// `post` is `pre` with the edited text `t`.
pub open spec fn typed(pre: App, post: App, t: Seq<char>) -> bool {
    &&& post.edit_value@ == t
    &&& post.config == pre.config
    &&& post.selected == pre.selected
    &&& post.editing == pre.editing
    &&& post.sections == pre.sections
    &&& post.show_help == pre.show_help
    &&& post.status_message == pre.status_message
    &&& post.modified == pre.modified
}

/// `post` is `pre` with the items read back into its configuration.
pub open spec fn sections_applied(pre: App, post: App) -> bool {
    &&& applied(pre.config, post.config, entries(pre.sections@))
    &&& post.selected == pre.selected
    &&& post.editing == pre.editing
    &&& post.edit_value == pre.edit_value
    &&& post.sections == pre.sections
    &&& post.show_help == pre.show_help
    &&& post.status_message == pre.status_message
    &&& post.modified == pre.modified
}

/// `t` without its last character, if it has one.
pub open spec fn erased(t: Seq<char>) -> Seq<char> {
    if t.len() > 0 {
        t.drop_last()
    } else {
        t
    }
}

/// What a key does while an item is being edited.
pub open spec fn edit_key_effect(pre: App, post: App, key: Key) -> bool {
    match key {
        Key::Char(c) => typed(pre, post, pre.edit_value@.push(c)),
        Key::Backspace => typed(pre, post, erased(pre.edit_value@)),
        Key::Enter => saved_edit(pre, post),
        Key::Esc => cancelled_edit(pre, post),
        _ => post == pre,
    }
}

/// What a key does while the help page is shown.
pub open spec fn help_key_effect(pre: App, post: App, key: Key) -> bool {
    if key == Key::Char('?') || key == Key::Esc || key == Key::Char('q') {
        toggled_help(pre, post)
    } else {
        post == pre
    }
}

/// What a key does on the list, and what the caller is asked to do next.
pub open spec fn list_key_effect(pre: App, post: App, key: Key, r: EditorAction) -> bool {
    match key {
        Key::Char('q') => r == EditorAction::Quit && post == pre,
        Key::Char('?') => r == EditorAction::Continue && toggled_help(pre, post),
        Key::Char('s') => r == EditorAction::Save && sections_applied(pre, post),
        Key::Down => r == EditorAction::Continue && moved_to(pre, post, pre.next_selection()),
        Key::Up => r == EditorAction::Continue && moved_to(pre, post, pre.previous_selection()),
        Key::Enter => r == EditorAction::Continue && editing_started(pre, post),
        _ => r == EditorAction::Continue && post == pre,
    }
}

fn pushed(s: &String, c: char) -> (r: String)
    ensures
        r@ == s@.push(c),
{
    let mut v = chars_of(s.as_str());
    v.push(c);
    string_of(&v)
}

fn popped(s: &String) -> (r: String)
    ensures
        r@ == erased(s@),
{
    let mut v = chars_of(s.as_str());
    if v.len() > 0 {
        v.pop();
    }
    assert(v@ =~= erased(s@));
    string_of(&v)
}

impl App {
    /// Reacts to a key press: while an item is edited the key edits it; on
    /// the help page it may close the page; on the list it moves, opens an
    /// item, shows the help, reads the items back into `config` and asks
    /// for it to be written (`s`), or asks to quit (`q`).
    pub fn handle_key(&mut self, key: Key) -> (r: EditorAction)
        requires
            old(self).fits(),
        ensures
            final(self).fits(),
            old(self).editing.is_some() ==> r == EditorAction::Continue && edit_key_effect(
                *old(self),
                *final(self),
                key,
            ),
            old(self).editing.is_none() && old(self).show_help ==> r == EditorAction::Continue
                && help_key_effect(*old(self), *final(self), key),
            old(self).editing.is_none() && !old(self).show_help ==> list_key_effect(
                *old(self),
                *final(self),
                key,
                r,
            ),
    {
        if self.editing.is_some() {
            match key {
                Key::Char(c) => {
                    self.edit_value = pushed(&self.edit_value, c);
                },
                Key::Backspace => {
                    self.edit_value = popped(&self.edit_value);
                },
                Key::Enter => {
                    self.save_edit();
                },
                Key::Esc => {
                    self.cancel_edit();
                },
                _ => {},
            }
            EditorAction::Continue
        } else if self.show_help {
            match key {
                Key::Char('?') | Key::Esc | Key::Char('q') => {
                    self.toggle_help();
                },
                _ => {},
            }
            EditorAction::Continue
        } else {
            match key {
                Key::Char('q') => EditorAction::Quit,
                Key::Char('?') => {
                    self.toggle_help();
                    EditorAction::Continue
                },
                Key::Char('s') => {
                    self.apply_sections();
                    EditorAction::Save
                },
                Key::Down => {
                    self.next_item();
                    EditorAction::Continue
                },
                Key::Up => {
                    self.previous_item();
                    EditorAction::Continue
                },
                Key::Enter => {
                    self.start_editing();
                    EditorAction::Continue
                },
                _ => EditorAction::Continue,
            }
        }
    }
}

/// Moving down one row and then up one row comes back to the row one
/// started from, and so does moving up and then down.
pub proof fn lemma_up_undoes_down(a: App, b: App, c: App)
    requires
        a.fits(),
        a.selected matches Some(k) && k < total_items(a.sections@),
        moved_to(a, b, a.next_selection()),
        moved_to(b, c, b.previous_selection()),
    ensures
        c == a,
{
}

/// Moving up one row and then down one row comes back to the row one
/// started from.
pub proof fn lemma_down_undoes_up(a: App, b: App, c: App)
    requires
        a.fits(),
        a.selected matches Some(k) && k < total_items(a.sections@),
        moved_to(a, b, a.previous_selection()),
        moved_to(b, c, b.next_selection()),
    ensures
        c == a,
{
}

/// Opening an item for editing and saving it without typing leaves every
/// item as it was (and marks the settings as modified).
pub proof fn lemma_unchanged_edit_keeps_items(a: App, b: App, c: App)
    requires
        a.editing.is_none(),
        editing_started(a, b),
        b.editing.is_some(),
        saved_edit(b, c),
    ensures
        sections_view(c.sections@) == sections_view(a.sections@),
        c.modified,
{
    let p = a.current_item()->0;
    let k = a.selected->0;
    lemma_locate_bounds(a.sections@, k as int);
    assert(started_editing(a, b, p.0, p.1));
    let ds = decimal(p.0 as nat);
    let di = decimal(p.1 as nat);
    lemma_decimal_reads_back(p.0 as nat);
    lemma_decimal_reads_back(p.1 as nat);
    lemma_usize_reads_back(p.0 as usize);
    lemma_usize_reads_back(p.1 as usize);
    reveal_strlit(":");
    assert(":"@ =~= seq![':']);
    lemma_split_pair(ds, di, ':');
    assert(edit_key(p.0, p.1) =~= ds + seq![':'] + di);
    assert(edit_target(b.editing->0@) == Some((p.0 as usize, p.1 as usize)));
    assert(edited_item(b.sections@, b.editing) == Some(p));
    let v = sections_view(a.sections@);
    let w = with_value(v, p.0, p.1, b.edit_value@);
    assert(v[p.0].items[p.1] == a.sections@[p.0].items@[p.1]@);
    assert(w[p.0].items =~= v[p.0].items);
    assert(w =~= v);
}

/// The settings of a section view as (name, key, value).
pub open spec fn view_section_entries(s: SectionView) -> Seq<(Seq<char>, Seq<char>, Seq<char>)> {
    s.items.map_values(|i: ItemView| (s.name, i.key, i.value))
}

/// All settings of the section views, in order.
pub open spec fn view_entries(v: Seq<SectionView>) -> Seq<(Seq<char>, Seq<char>, Seq<char>)>
    decreases v.len(),
{
    if v.len() == 0 {
        seq![]
    } else {
        view_entries(v.drop_last()) + view_section_entries(v.last())
    }
}

proof fn lemma_entries_view(s: Seq<ConfigSection>)
    ensures
        entries(s) == view_entries(sections_view(s)),
    decreases s.len(),
{
    if s.len() > 0 {
        lemma_entries_view(s.drop_last());
        assert(sections_view(s).drop_last() =~= sections_view(s.drop_last()));
        assert(section_entries(s.last()) =~= view_section_entries(sections_view(s).last()));
    }
}

proof fn lemma_last_value_concat(
    p: Seq<(Seq<char>, Seq<char>, Seq<char>)>,
    q: Seq<(Seq<char>, Seq<char>, Seq<char>)>,
    n: Seq<char>,
    k: Seq<char>,
)
    requires
        forall|i: int| 0 <= i < q.len() ==> (#[trigger] q[i]).0 != n,
    ensures
        last_value(p + q, n, k) == last_value(p, n, k),
    decreases q.len(),
{
    if q.len() == 0 {
        assert(p + q =~= p);
    } else {
        assert((p + q).drop_last() =~= p + q.drop_last());
        assert((p + q).last() == q.last());
        lemma_last_value_concat(p, q.drop_last(), n, k);
    }
}

proof fn lemma_names_differ()
    ensures
        "General"@ != "UWSM"@,
        "General"@ != "Walker"@,
        "General"@ != "Filters"@,
        "UWSM"@ != "Walker"@,
        "UWSM"@ != "Filters"@,
        "Walker"@ != "Filters"@,
        "auto_restore"@ != "save_interval"@,
        "auto_restore"@ != "backup_count"@,
        "auto_restore"@ != "verbose_logging"@,
        "save_interval"@ != "backup_count"@,
        "save_interval"@ != "verbose_logging"@,
        "backup_count"@ != "verbose_logging"@,
        "enabled"@ != "track_systemd_units"@,
        "enabled"@ != "launch_via_uwsm"@,
        "track_systemd_units"@ != "launch_via_uwsm"@,
        "enabled"@ != "desktop_dirs"@,
        "ignore_classes"@ != "ignore_workspaces"@,
{
    reveal_strlit("General");
    reveal_strlit("UWSM");
    reveal_strlit("Walker");
    reveal_strlit("Filters");
    reveal_strlit("auto_restore");
    reveal_strlit("save_interval");
    reveal_strlit("backup_count");
    reveal_strlit("verbose_logging");
    reveal_strlit("enabled");
    reveal_strlit("track_systemd_units");
    reveal_strlit("launch_via_uwsm");
    reveal_strlit("desktop_dirs");
    reveal_strlit("ignore_classes");
    reveal_strlit("ignore_workspaces");
    assert("ignore_classes"@.len() != "ignore_workspaces"@.len());
    assert("General"@[0] != "Filters"@[0]);
    assert("UWSM"@[0] != "Walker"@[0]);
    assert("auto_restore"@[0] != "backup_count"@[0]);
    assert("save_interval"@[0] != "verbose_logging"@[0]);
    assert("enabled"@[0] != "track_systemd_units"@[0]);
    assert("enabled"@[0] != "launch_via_uwsm"@[0]);
    assert("track_systemd_units"@[0] != "launch_via_uwsm"@[0]);
    assert("enabled"@[0] != "desktop_dirs"@[0]);
    assert("General"@.len() != "UWSM"@.len());
    assert("General"@.len() != "Walker"@.len());
    assert("UWSM"@.len() != "Filters"@.len());
    assert("Walker"@.len() != "Filters"@.len());
    assert("auto_restore"@.len() != "save_interval"@.len());
    assert("auto_restore"@.len() != "verbose_logging"@.len());
    assert("save_interval"@.len() != "backup_count"@.len());
    assert("backup_count"@.len() != "verbose_logging"@.len());
}

/// The settings of the first section the editor shows for `c`.
pub open spec fn general_entries(c: Config) -> Seq<(Seq<char>, Seq<char>, Seq<char>)> {
    seq![
        ("General"@, "auto_restore"@, bool_text(c.general.auto_restore)),
        ("General"@, "save_interval"@, decimal(c.general.save_interval as nat)),
        ("General"@, "backup_count"@, decimal(c.general.backup_count as nat)),
        ("General"@, "verbose_logging"@, bool_text(c.general.verbose_logging)),
    ]
}

/// The settings of the second section the editor shows for `c`.
pub open spec fn uwsm_entries(c: Config) -> Seq<(Seq<char>, Seq<char>, Seq<char>)> {
    seq![
        ("UWSM"@, "enabled"@, bool_text(c.uwsm.enabled)),
        ("UWSM"@, "track_systemd_units"@, bool_text(c.uwsm.track_systemd_units)),
        ("UWSM"@, "launch_via_uwsm"@, bool_text(c.uwsm.launch_via_uwsm)),
    ]
}

/// The settings of the third section the editor shows for `c`.
pub open spec fn walker_entries(c: Config) -> Seq<(Seq<char>, Seq<char>, Seq<char>)> {
    seq![
        ("Walker"@, "enabled"@, bool_text(c.walker.enabled)),
        ("Walker"@, "desktop_dirs"@, join(views(c.walker.desktop_entry_dirs@), ", "@)),
    ]
}

/// The settings of the fourth section the editor shows for `c`.
pub open spec fn filter_entries(c: Config) -> Seq<(Seq<char>, Seq<char>, Seq<char>)> {
    seq![
        ("Filters"@, "ignore_classes"@, join(views(c.filters.ignore_classes@), ", "@)),
        ("Filters"@, "ignore_workspaces"@, join(id_texts(c.filters.ignore_workspaces@), ", "@)),
    ]
}

proof fn lemma_initial_entries(a: App)
    requires
        sections_view(a.sections@) == initial_sections(a.config),
    ensures
        entries(a.sections@) == general_entries(a.config) + uwsm_entries(a.config) + walker_entries(
            a.config,
        ) + filter_entries(a.config),
{
    let c = a.config;
    let init = initial_sections(c);
    lemma_entries_view(a.sections@);
    let i1 = init.drop_last();
    let i2 = i1.drop_last();
    let i3 = i2.drop_last();
    assert(i3.drop_last().len() == 0);
    assert(view_entries(i3.drop_last()) == Seq::<(Seq<char>, Seq<char>, Seq<char>)>::empty());
    assert(i3.last() == init[0]);
    assert(i2.last() == init[1]);
    assert(i1.last() == init[2]);
    assert(view_section_entries(init[0]) =~= general_entries(c));
    assert(view_section_entries(init[1]) =~= uwsm_entries(c));
    assert(view_section_entries(init[2]) =~= walker_entries(c));
    assert(view_section_entries(init[3]) =~= filter_entries(c));
    assert(view_entries(i3) =~= general_entries(c));
    assert(view_entries(i2) =~= general_entries(c) + uwsm_entries(c));
    assert(view_entries(i1) =~= general_entries(c) + uwsm_entries(c) + walker_entries(c));
}

/// Saving the settings exactly as the editor first shows them writes back
/// the same ignored workspaces.
pub proof fn lemma_unedited_workspaces_read_back(a: App, b: App)
    requires
        sections_view(a.sections@) == initial_sections(a.config),
        sections_applied(a, b),
    ensures
        b.config.filters.ignore_workspaces@ == a.config.filters.ignore_workspaces@,
{
    let c = a.config;
    lemma_initial_entries(a);
    let e = general_entries(c) + uwsm_entries(c) + walker_entries(c) + filter_entries(c);
    assert(e.last() == filter_entries(c)[1]);
    assert(last_value(e, "Filters"@, "ignore_workspaces"@) == Some(
        join(id_texts(c.filters.ignore_workspaces@), ", "@),
    ));
    lemma_ids_round_trip(c.filters.ignore_workspaces@);
}

/// Saving the settings exactly as the editor first shows them writes back
/// the same general and UWSM settings and the same Walker switch: every
/// shown value reads back as the value it shows.
#[verifier::spinoff_prover]
#[verifier::rlimit(40)]
pub proof fn lemma_unedited_settings_read_back(a: App, b: App)
    requires
        sections_view(a.sections@) == initial_sections(a.config),
        sections_applied(a, b),
    ensures
        b.config.general == a.config.general,
        b.config.uwsm == a.config.uwsm,
        b.config.walker.enabled == a.config.walker.enabled,
{
    let c = a.config;
    lemma_initial_entries(a);
    lemma_names_differ();
    let g = general_entries(c);
    let u = uwsm_entries(c);
    let w = walker_entries(c);
    let f = filter_entries(c);
    let e = g + u + w + f;
    assert forall|i: int| 0 <= i < f.len() implies (#[trigger] f[i]).0 != "General"@ && f[i].0
        != "UWSM"@ && f[i].0 != "Walker"@ by {}
    assert forall|i: int| 0 <= i < w.len() implies (#[trigger] w[i]).0 != "General"@ && w[i].0
        != "UWSM"@ by {}
    assert forall|i: int| 0 <= i < u.len() implies (#[trigger] u[i]).0 != "General"@ by {}
    lemma_u64_reads_back(c.general.save_interval);
    lemma_u32_reads_back(c.general.backup_count);
    lemma_bool_reads_back(c.general.auto_restore);
    lemma_bool_reads_back(c.general.verbose_logging);
    lemma_bool_reads_back(c.uwsm.enabled);
    lemma_bool_reads_back(c.uwsm.track_systemd_units);
    lemma_bool_reads_back(c.uwsm.launch_via_uwsm);
    lemma_bool_reads_back(c.walker.enabled);
    assert forall|k: Seq<char>|
        #![trigger last_value(e, "General"@, k)]
        last_value(e, "General"@, k) == last_value(g, "General"@, k) by {
        lemma_last_value_concat(g + u + w, f, "General"@, k);
        lemma_last_value_concat(g + u, w, "General"@, k);
        lemma_last_value_concat(g, u, "General"@, k);
    }
    assert forall|k: Seq<char>|
        #![trigger last_value(e, "UWSM"@, k)]
        last_value(e, "UWSM"@, k) == last_value(g + u, "UWSM"@, k) by {
        lemma_last_value_concat(g + u + w, f, "UWSM"@, k);
        lemma_last_value_concat(g + u, w, "UWSM"@, k);
    }
    assert forall|k: Seq<char>|
        #![trigger last_value(e, "Walker"@, k)]
        last_value(e, "Walker"@, k) == last_value(g + u + w, "Walker"@, k) by {
        lemma_last_value_concat(g + u + w, f, "Walker"@, k);
    }
    reveal_with_fuel(last_value, 10);
    assert(last_value(g, "General"@, "auto_restore"@) == Some(bool_text(c.general.auto_restore)));
    assert(last_value(g, "General"@, "save_interval"@) == Some(
        decimal(c.general.save_interval as nat),
    ));
    assert(last_value(g, "General"@, "backup_count"@) == Some(
        decimal(c.general.backup_count as nat),
    ));
    assert(last_value(g, "General"@, "verbose_logging"@) == Some(
        bool_text(c.general.verbose_logging),
    ));
    assert(last_value(g + u, "UWSM"@, "enabled"@) == Some(bool_text(c.uwsm.enabled)));
    assert(last_value(g + u, "UWSM"@, "track_systemd_units"@) == Some(
        bool_text(c.uwsm.track_systemd_units),
    ));
    assert(last_value(g + u, "UWSM"@, "launch_via_uwsm"@) == Some(
        bool_text(c.uwsm.launch_via_uwsm),
    ));
    assert(last_value(g + u + w, "Walker"@, "enabled"@) == Some(bool_text(c.walker.enabled)));
}

/// Saving the settings exactly as the editor first shows them writes back
/// the same desktop entry directories and ignored classes, when each of
/// them is a plain item: not empty, without commas and without surrounding
/// whitespace (others are split, trimmed or dropped on the way back).
pub proof fn lemma_unedited_lists_read_back(a: App, b: App)
    requires
        sections_view(a.sections@) == initial_sections(a.config),
        sections_applied(a, b),
        forall|i: int| 0 <= i < a.config.walker.desktop_entry_dirs@.len() ==> plain_item(
            #[trigger] a.config.walker.desktop_entry_dirs@[i]@,
        ),
        forall|i: int| 0 <= i < a.config.filters.ignore_classes@.len() ==> plain_item(
            #[trigger] a.config.filters.ignore_classes@[i]@,
        ),
    ensures
        views(b.config.walker.desktop_entry_dirs@) == views(a.config.walker.desktop_entry_dirs@),
        views(b.config.filters.ignore_classes@) == views(a.config.filters.ignore_classes@),
{
    let c = a.config;
    lemma_initial_entries(a);
    lemma_names_differ();
    let g = general_entries(c);
    let u = uwsm_entries(c);
    let w = walker_entries(c);
    let f = filter_entries(c);
    let e = g + u + w + f;
    assert forall|i: int| 0 <= i < f.len() implies (#[trigger] f[i]).0 != "Walker"@ by {}
    lemma_last_value_concat(g + u + w, f, "Walker"@, "desktop_dirs"@);
    reveal_with_fuel(last_value, 3);
    assert((g + u + w).last() == w[1]);
    assert(last_value(e, "Walker"@, "desktop_dirs"@) == Some(
        join(views(c.walker.desktop_entry_dirs@), ", "@),
    ));
    assert(e.last() == f[1]);
    assert(e.drop_last().last() == f[0]);
    assert(last_value(e, "Filters"@, "ignore_classes"@) == Some(
        join(views(c.filters.ignore_classes@), ", "@),
    ));
    lemma_list_round_trip(views(c.walker.desktop_entry_dirs@));
    lemma_list_round_trip(views(c.filters.ignore_classes@));
}

proof fn lemma_listed_pieces(parts: Seq<Seq<char>>)
    requires
        parts.len() > 0,
        forall|i: int| 0 <= i < parts.len() ==> plain_item(#[trigger] parts[i]),
    ensures
        listed(seq![parts[0]] + parts.skip(1).map_values(|p: Seq<char>| seq![' '] + p)) == parts,
    decreases parts.len(),
{
    let pieces = seq![parts[0]] + parts.skip(1).map_values(|p: Seq<char>| seq![' '] + p);
    if parts.len() == 1 {
        assert(pieces =~= seq![parts[0]]);
        assert(pieces.drop_last().len() == 0);
        assert(listed(pieces.drop_last()) == Seq::<Seq<char>>::empty());
        assert(plain_item(parts[0]));
        assert(pieces.last() == parts[0]);
        assert(trim(parts[0]) == parts[0]);
        assert(listed(pieces) == Seq::<Seq<char>>::empty().push(parts[0]));
        assert(parts =~= Seq::<Seq<char>>::empty().push(parts[0]));
    } else {
        let init = parts.drop_last();
        assert forall|i: int| 0 <= i < init.len() implies plain_item(#[trigger] init[i]) by {
            assert(init[i] == parts[i]);
        }
        lemma_listed_pieces(init);
        let last = parts.last();
        assert(plain_item(parts[parts.len() - 1]));
        lemma_trim_spaced(last);
        assert(init[0] == parts[0]);
        assert(pieces.drop_last() =~= seq![init[0]] + init.skip(1).map_values(
            |p: Seq<char>| seq![' '] + p,
        ));
        assert(pieces.last() == seq![' '] + last);
        assert(listed(pieces.drop_last()) == init);
        assert(trim(pieces.last()) == last);
        assert(listed(pieces) == init.push(last));
        assert(init.push(last) =~= parts);
    }
}

proof fn lemma_list_round_trip(parts: Seq<Seq<char>>)
    requires
        forall|i: int| 0 <= i < parts.len() ==> plain_item(#[trigger] parts[i]),
    ensures
        listed(split(join(parts, ", "@), ","@)) == parts,
{
    reveal_strlit(",");
    assert(","@ =~= seq![',']);
    if parts.len() == 0 {
        assert(join(parts, ", "@) == Seq::<char>::empty());
        let s = split(join(parts, ", "@), ","@);
        assert(s == seq![Seq::<char>::empty() + Seq::<char>::empty()]);
        assert(s.drop_last().len() == 0);
        assert(listed(s.drop_last()) == Seq::<Seq<char>>::empty());
        assert(s.last() =~= Seq::<char>::empty());
        assert(trim_start(s.last()) =~= Seq::<char>::empty());
        assert(trim(s.last()) =~= Seq::<char>::empty());
        assert(listed(s) =~= parts);
    } else {
        assert forall|i: int, k: int|
            0 <= i < parts.len() && 0 <= k < parts[i].len() implies #[trigger] parts[i][k]
            != ',' by {
            assert(plain_item(parts[i]));
        }
        lemma_split_comma_list(parts);
        lemma_listed_pieces(parts);
        assert(split(join(parts, ", "@), ","@) == seq![parts[0]] + parts.skip(1).map_values(
            |p: Seq<char>| seq![' '] + p,
        ));
    }
}

proof fn lemma_signed_decimal_plain(n: int)
    ensures
        plain_item(signed_decimal(n)),
        i32_value(signed_decimal(n)) == (if i32::MIN <= n <= i32::MAX {
            Some(n as i32)
        } else {
            None
        }),
{
    lemma_signed_decimal_reads_back(n);
    let m = if n < 0 { -n } else { n };
    lemma_decimal_reads_back(m as nat);
    let d = decimal(m as nat);
    let s = signed_decimal(n);
    assert forall|k: int| 0 <= k < s.len() implies s[k] != ',' && (k > 0 || n >= 0 ==> is_digit(
        s[k],
    )) by {
        if n < 0 {
            if k > 0 {
                assert(s[k] == d[k - 1]);
            }
        }
    }
    assert(!is_ws(s[0]));
    assert(!is_ws(s.last())) by {
        assert(s.last() == d.last());
    }
    assert(trim_start(s) == s);
    assert(trim_end(s) == s);
}

proof fn lemma_ids_round_trip(ids: Seq<i32>)
    ensures
        listed_ids(split(join(id_texts(ids), ", "@), ","@)) == ids,
    decreases ids.len(),
{
    reveal_strlit(",");
    assert(","@ =~= seq![',']);
    let t = id_texts(ids);
    if ids.len() == 0 {
        assert(t.len() == 0);
        assert(join(t, ", "@) == Seq::<char>::empty());
        let s = split(join(t, ", "@), ","@);
        assert(s == seq![Seq::<char>::empty() + Seq::<char>::empty()]);
        assert(s.drop_last().len() == 0);
        assert(listed_ids(s.drop_last()) == Seq::<i32>::empty());
        assert(s.last() =~= Seq::<char>::empty());
        assert(trim_start(s.last()) =~= Seq::<char>::empty());
        assert(trim(s.last()) =~= Seq::<char>::empty());
        assert(unsigned_value(Seq::<char>::empty()) is None);
        assert(i32_value(Seq::<char>::empty()) is None);
        assert(listed_ids(s) =~= ids);
    } else {
        assert forall|i: int| 0 <= i < t.len() implies plain_item(#[trigger] t[i]) by {
            lemma_signed_decimal_plain(ids[i] as int);
        }
        assert forall|i: int, k: int|
            0 <= i < t.len() && 0 <= k < t[i].len() implies #[trigger] t[i][k] != ',' by {
            assert(plain_item(t[i]));
        }
        lemma_split_comma_list(t);
        lemma_ids_pieces(ids);
        assert(split(join(t, ", "@), ","@) == seq![t[0]] + t.skip(1).map_values(
            |p: Seq<char>| seq![' '] + p,
        ));
    }
}

proof fn lemma_ids_pieces(ids: Seq<i32>)
    requires
        ids.len() > 0,
    ensures
        listed_ids(
            seq![id_texts(ids)[0]] + id_texts(ids).skip(1).map_values(|p: Seq<char>| seq![' '] + p),
        ) == ids,
    decreases ids.len(),
{
    let t = id_texts(ids);
    let pieces = seq![t[0]] + t.skip(1).map_values(|p: Seq<char>| seq![' '] + p);
    lemma_signed_decimal_plain(ids.last() as int);
    if ids.len() == 1 {
        assert(pieces =~= seq![t[0]]);
        assert(pieces.drop_last().len() == 0);
        assert(listed_ids(pieces.drop_last()) == Seq::<i32>::empty());
        assert(pieces.last() == signed_decimal(ids[0] as int));
        assert(trim(pieces.last()) == pieces.last());
        assert(listed_ids(pieces) == Seq::<i32>::empty().push(ids[0]));
        assert(ids =~= Seq::<i32>::empty().push(ids[0]));
    } else {
        let init = ids.drop_last();
        lemma_ids_pieces(init);
        let ti = id_texts(init);
        assert(ti[0] == t[0]);
        assert(pieces.drop_last() =~= seq![ti[0]] + ti.skip(1).map_values(
            |p: Seq<char>| seq![' '] + p,
        ));
        assert(pieces.last() == seq![' '] + signed_decimal(ids.last() as int));
        lemma_trim_spaced(signed_decimal(ids.last() as int));
        assert(listed_ids(pieces.drop_last()) == init);
        assert(trim(pieces.last()) == signed_decimal(ids.last() as int));
        assert(listed_ids(pieces) == init.push(ids.last()));
        assert(init.push(ids.last()) =~= ids);
    }
}

} // verus!
