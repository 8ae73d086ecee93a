//! Desktop entries: reading them from `.desktop` files, keeping them by the
//! name of the executable they launch, and matching them to window classes.
use vstd::prelude::*;
use crate::config::Config;
use crate::error::{ErrorView, HyprsechyError, Result};
use crate::text::{
    chars_lt, chars_of, concat, contains, copy_string, extension, extension_of, file_name,
    file_name_of, join, join_path, join_strings, lemma_lex_total, lemma_lex_transitive, lex_lt,
    lowercase, owned, path_join, replace, replace_all, split, split_str, split_whitespace,
    starts_with, str_contains, str_eq, str_starts_with, string_of, to_lowercase, trim, trim_str,
    views, words,
};
use crate::types::DesktopEntry;

verus! {

/// Desktop entries keyed by the lowercase name of the program they run, the
/// directories they are read from, and whether matching is enabled.
pub struct WalkerIntegration {
    desktop_entries: Vec<(String, DesktopEntry)>,
    desktop_dirs: Vec<String>,
    enabled: bool,
}

/// Counts over the desktop entries.
#[derive(Debug, Clone, Copy)]
pub struct WalkerStats {
    pub total_entries: usize,
    pub visible_entries: usize,
    pub categories: usize,
    pub enabled: bool,
}

/// The fields of a decoded desktop file that an entry is built from.
pub struct DesktopFieldsView {
    pub name: Option<Seq<char>>,
    pub exec_line: Option<Seq<char>>,
    pub icon: Option<Seq<char>>,
    pub categories: Option<Seq<char>>,
    pub no_display: bool,
}

/// The fields read from a desktop file.
pub struct DesktopFields {
    pub name: Option<String>,
    pub exec_line: Option<String>,
    pub icon: Option<String>,
    pub categories: Option<String>,
    pub no_display: bool,
}

/// An optional string taken as characters.
pub open spec fn opt_view(o: Option<String>) -> Option<Seq<char>> {
    match o {
        Some(s) => Some(s@),
        None => None,
    }
}

impl DesktopFields {
    /// The fields as characters.
    pub open spec fn fields_view(&self) -> DesktopFieldsView {
        DesktopFieldsView {
            name: opt_view(self.name),
            exec_line: opt_view(self.exec_line),
            icon: opt_view(self.icon),
            categories: opt_view(self.categories),
            no_display: self.no_display,
        }
    }
}

/// What `freedesktop_desktop_entry::DesktopEntry::decode` makes of the
/// desktop file at `path` with contents `content`: `None` when it refuses
/// the file, else the values of the `Name`, `Exec`, `Icon` and `Categories`
/// keys of its `[Desktop Entry]` group as written in the file, and whether
/// its `NoDisplay` key is `true`.
pub uninterp spec fn decoded_desktop_file(path: Seq<char>, content: Seq<char>) -> Option<
    DesktopFieldsView,
>;

/// The contents hold a line that, once trimmed, starts with `=`: a
/// key-value line with an empty key.
pub open spec fn has_keyless_line(content: Seq<char>) -> bool {
    exists|i: int|
        0 <= i < split(content, seq!['\n']).len() && #[trigger] trim(split(content, seq!['\n'])[i]).len()
            > 0 && trim(split(content, seq!['\n'])[i])[0] == '='
}

/// Whether the contents of a desktop file hold a line that starts with
/// `=` once trimmed.
pub fn keyless_line_in(content: &str) -> (r: bool)
    ensures
        r == has_keyless_line(content@),
{
    let nl = string_of(&vec!['\n']);
    assert(nl@ =~= seq!['\n']);
    let lines = split_str(content, nl.as_str());
    let ghost ls = views(lines@);
    let mut i: usize = 0;
    while i < lines.len()
        invariant
            ls == views(lines@),
            ls == split(content@, seq!['\n']),
            i <= lines.len(),
            forall|j: int| 0 <= j < i ==> !(#[trigger] trim(ls[j]).len() > 0 && trim(ls[j])[0] == '='),
        decreases lines.len() - i,
    {
        let t = chars_of(trim_str(lines[i].as_str()).as_str());
        assert(ls[i as int] == lines@[i as int]@);
        if t.len() > 0 && t[0] == '=' {
            return true;
        }
        i = i + 1;
    }
    false
}

/// The contents name a gettext domain: a line that, once trimmed, starts
/// with `X-Ubuntu-Gettext-Domain=`. The name of such a file is shown as
/// gettext translates it, not as it is written.
pub open spec fn names_gettext_domain(content: Seq<char>) -> bool {
    exists|i: int|
        0 <= i < split(content, seq!['\n']).len() && #[trigger] starts_with(
            trim(split(content, seq!['\n'])[i]),
            "X-Ubuntu-Gettext-Domain="@,
        )
}

/// Whether the contents of a desktop file name a gettext domain.
pub fn gettext_domain_in(content: &str) -> (r: bool)
    ensures
        r == names_gettext_domain(content@),
{
    let nl = string_of(&vec!['\n']);
    assert(nl@ =~= seq!['\n']);
    let lines = split_str(content, nl.as_str());
    let ghost ls = views(lines@);
    let mut i: usize = 0;
    while i < lines.len()
        invariant
            ls == views(lines@),
            ls == split(content@, seq!['\n']),
            i <= lines.len(),
            forall|j: int|
                0 <= j < i ==> !#[trigger] starts_with(trim(ls[j]), "X-Ubuntu-Gettext-Domain="@),
        decreases lines.len() - i,
    {
        let t = trim_str(lines[i].as_str());
        assert(ls[i as int] == lines@[i as int]@);
        if str_starts_with(t.as_str(), "X-Ubuntu-Gettext-Domain=") {
            return true;
        }
        i = i + 1;
    }
    false
}

/// Calls `freedesktop_desktop_entry::DesktopEntry::decode` and reads the
/// decoded entry's `Name`, `Exec`, `Icon`, `Categories` and `NoDisplay`
/// keys with `desktop_entry`, which gives each value as the file writes it
/// (the name is not translated). The contract ties the fields to the path
/// and the contents through `decoded_desktop_file`, and states the crate's
/// one refusal message. `decode` panics on a line with an empty key, so
/// such contents are left out.
#[verifier::external_body]
fn decode_desktop_file(path: &str, content: &str) -> (r: core::result::Result<
    DesktopFields,
    String,
>)
    requires
        !has_keyless_line(content@),
    ensures
        match r {
            Ok(f) => decoded_desktop_file(path@, content@) == Some(f.fields_view()),
            Err(m) => decoded_desktop_file(path@, content@) is None && m@
                == "path does not contain a valid app ID"@,
        },
{
    match freedesktop_desktop_entry::DesktopEntry::decode(std::path::Path::new(path), content) {
        Ok(e) => Ok(DesktopFields {
            name: e.desktop_entry("Name").map(String::from),
            exec_line: e.exec().map(String::from),
            icon: e.icon().map(String::from),
            categories: e.categories().map(String::from),
            no_display: e.no_display(),
        }),
        Err(e) => Err(e.to_string()),
    }
}

/// The field codes that are removed from an `Exec` line.
pub open spec fn without_field_codes(exec: Seq<char>) -> Seq<char> {
    let e1 = replace_all(exec, "%f"@, seq![]);
    let e2 = replace_all(e1, "%F"@, seq![]);
    let e3 = replace_all(e2, "%u"@, seq![]);
    let e4 = replace_all(e3, "%U"@, seq![]);
    let e5 = replace_all(e4, "%i"@, seq![]);
    let e6 = replace_all(e5, "%c"@, seq![]);
    replace_all(e6, "%k"@, seq![])
}

/// An `Exec` line without field codes, its words separated by single spaces.
pub open spec fn cleaned_exec(exec: Seq<char>) -> Seq<char> {
    join(words(without_field_codes(exec)), " "@)
}

/// The file name of the first word of an `Exec` line, if it has one.
pub open spec fn exec_program(exec: Seq<char>) -> Option<Seq<char>> {
    let ws = words(exec);
    if ws.len() == 0 {
        None
    } else {
        file_name(ws[0])
    }
}

/// The key an entry is kept under: the lowercase program name of its `Exec`
/// line, or of its name when that line names no program.
pub open spec fn entry_key(e: DesktopEntry) -> Seq<char> {
    match exec_program(e.exec_cmd@) {
        Some(p) => lowercase(p),
        None => lowercase(e.name@),
    }
}

/// An entry that is shown and runs something.
pub open spec fn is_visible(e: DesktopEntry) -> bool {
    !e.no_display && e.exec_cmd@.len() > 0
}

/// Either string contains the other.
pub open spec fn overlaps(a: Seq<char>, b: Seq<char>) -> bool {
    contains(a, b) || contains(b, a)
}

/// An entry that satisfies `p` makes the first such entry exist, at or
/// before it.
pub proof fn lemma_first_exists(s: Seq<(String, DesktopEntry)>, p: spec_fn((String, DesktopEntry)) -> bool, i: int)
    requires
        0 <= i < s.len(),
        p(s[i]),
    ensures
        first_index(s, p) matches Some(m) && 0 <= m <= i && p(s[m]),
    decreases i,
{
    if exists|j: int| 0 <= j < i && p(s[j]) {
        let j = choose|j: int| 0 <= j < i && p(s[j]);
        lemma_first_exists(s, p, j);
    } else {
        assert(first_at(s, p, i));
        lemma_first_unique(s, p, i);
    }
}

/// A window class finds an entry whenever some shown entry that runs
/// something has a name that, in lowercase, contains the lowercase class or
/// is contained in it. When no such entry's name equals the class
/// regardless of case, the entry found is the first whose name overlaps
/// the class in either direction.
pub proof fn lemma_name_overlap_finds_entry(s: Seq<(String, DesktopEntry)>, class: Seq<char>, i: int)
    requires
        0 <= i < s.len(),
        !s[i].1.no_display,
        s[i].1.exec_cmd@.len() > 0,
        contains(lowercase(s[i].1.name@), lowercase(class)) || contains(
            lowercase(class),
            lowercase(s[i].1.name@),
        ),
    ensures
        class_match(s, class) is Some,
        (forall|j: int|
            0 <= j < s.len() && !s[j].1.no_display && s[j].1.exec_cmd@.len() > 0 ==> lowercase(
                #[trigger] s[j].1.name@,
            ) != lowercase(class)) ==> (class_match(s, class) matches Some(m) && 0 <= m <= i && (
        contains(lowercase(s[m].1.name@), lowercase(class)) || contains(
            lowercase(class),
            lowercase(s[m].1.name@),
        )) && forall|j: int|
            0 <= j < m && !s[j].1.no_display && s[j].1.exec_cmd@.len() > 0 ==> !contains(
                lowercase(#[trigger] s[j].1.name@),
                lowercase(class),
            ) && !contains(lowercase(class), lowercase(s[j].1.name@))),
{
    let p = by_name_overlap(class);
    assert(p(s[i]));
    lemma_first_exists(s, p, i);
    if forall|j: int|
        0 <= j < s.len() && !s[j].1.no_display && s[j].1.exec_cmd@.len() > 0 ==> lowercase(
            #[trigger] s[j].1.name@,
        ) != lowercase(class) {
        assert(nowhere(s, by_name(class))) by {
            assert forall|j: int| 0 <= j < s.len() implies !by_name(class)(#[trigger] s[j]) by {
                if !s[j].1.no_display && s[j].1.exec_cmd@.len() > 0 {
                    assert(lowercase(s[j].1.name@) != lowercase(class));
                }
            }
        }
        lemma_first_none(s, by_name(class));
        let m = first_index(s, p)->0;
        assert(first_at(s, p, m));
        assert forall|j: int|
            0 <= j < m && !s[j].1.no_display && s[j].1.exec_cmd@.len() > 0 implies !contains(
                lowercase(#[trigger] s[j].1.name@),
                lowercase(class),
            ) && !contains(lowercase(class), lowercase(s[j].1.name@)) by {
            assert(!p(s[j]));
        }
    }
}

/// Matching by name, regardless of case.
pub open spec fn name_equals(e: DesktopEntry, class: Seq<char>) -> bool {
    is_visible(e) && lowercase(e.name@) == lowercase(class)
}

/// Matching by the name containing the class or the class the name,
/// regardless of case.
pub open spec fn name_overlaps(e: DesktopEntry, class: Seq<char>) -> bool {
    is_visible(e) && overlaps(lowercase(e.name@), lowercase(class))
}

/// The program name of an `Exec` line, or nothing.
pub open spec fn program_or_empty(exec: Seq<char>) -> Seq<char> {
    match exec_program(exec) {
        Some(p) => p,
        None => seq![],
    }
}

/// Matching by the program containing the class or the class the program,
/// regardless of case.
pub open spec fn program_overlaps(e: DesktopEntry, class: Seq<char>) -> bool {
    let p = program_or_empty(e.exec_cmd@);
    is_visible(e) && p.len() > 0 && overlaps(lowercase(class), lowercase(p))
}

/// Matching by the key.
pub open spec fn key_equals(key: Seq<char>, e: DesktopEntry, class: Seq<char>) -> bool {
    is_visible(e) && key == lowercase(class)
}

/// Position `i` is the first of `s` at which `p` holds.
pub open spec fn first_at(s: Seq<(String, DesktopEntry)>, p: spec_fn((String, DesktopEntry)) -> bool, i: int) -> bool {
    &&& 0 <= i < s.len()
    &&& p(s[i])
    &&& forall|j: int| 0 <= j < i ==> !p(#[trigger] s[j])
}

/// `p` holds nowhere in `s`.
pub open spec fn nowhere(s: Seq<(String, DesktopEntry)>, p: spec_fn((String, DesktopEntry)) -> bool) -> bool {
    forall|j: int| 0 <= j < s.len() ==> !p(#[trigger] s[j])
}

/// The first position of `s` at which `p` holds.
pub open spec fn first_index(s: Seq<(String, DesktopEntry)>, p: spec_fn((String, DesktopEntry)) -> bool) -> Option<int> {
    if exists|i: int| first_at(s, p, i) {
        Some(choose|i: int| first_at(s, p, i))
    } else {
        None
    }
}

/// There is at most one first position.
pub proof fn lemma_first_unique(s: Seq<(String, DesktopEntry)>, p: spec_fn((String, DesktopEntry)) -> bool, i: int)
    requires
        first_at(s, p, i),
    ensures
        first_index(s, p) == Some(i),
{
    let k = choose|k: int| first_at(s, p, k);
    if k < i {
        assert(!p(s[k]));
    }
    if i < k {
        assert(!p(s[i]));
    }
}

/// No first position when `p` holds nowhere.
pub proof fn lemma_first_none(s: Seq<(String, DesktopEntry)>, p: spec_fn((String, DesktopEntry)) -> bool)
    requires
        nowhere(s, p),
    ensures
        first_index(s, p) is None,
{
    if exists|i: int| first_at(s, p, i) {
        let k = choose|k: int| first_at(s, p, k);
        assert(p(s[k]));
    }
}

/// Entries matching `class` by name.
pub open spec fn by_name(class: Seq<char>) -> spec_fn((String, DesktopEntry)) -> bool {
    |p: (String, DesktopEntry)| name_equals(p.1, class)
}

/// Entries matching `class` by overlapping name.
pub open spec fn by_name_overlap(class: Seq<char>) -> spec_fn((String, DesktopEntry)) -> bool {
    |p: (String, DesktopEntry)| name_overlaps(p.1, class)
}

/// Entries matching `class` by overlapping program.
pub open spec fn by_program(class: Seq<char>) -> spec_fn((String, DesktopEntry)) -> bool {
    |p: (String, DesktopEntry)| program_overlaps(p.1, class)
}

/// Entries kept under the lowercase `class`.
pub open spec fn by_key(class: Seq<char>) -> spec_fn((String, DesktopEntry)) -> bool {
    |p: (String, DesktopEntry)| key_equals(p.0@, p.1, class)
}

/// Entries whose `Exec` line overlaps `command`.
pub open spec fn by_command(command: Seq<char>) -> spec_fn((String, DesktopEntry)) -> bool {
    |p: (String, DesktopEntry)| overlaps(p.1.exec_cmd@, command)
}

/// The entry chosen for a window class: the first matching by name, else by
/// overlapping name, else by overlapping program, else the one kept under
/// the lowercase class; visible entries only.
pub open spec fn class_match(s: Seq<(String, DesktopEntry)>, class: Seq<char>) -> Option<int> {
    match first_index(s, by_name(class)) {
        Some(i) => Some(i),
        None => match first_index(s, by_name_overlap(class)) {
            Some(i) => Some(i),
            None => match first_index(s, by_program(class)) {
                Some(i) => Some(i),
                None => first_index(s, by_key(class)),
            },
        },
    }
}

/// The entry whose `Exec` line contains `command` or is contained in it.
pub open spec fn command_match(s: Seq<(String, DesktopEntry)>, command: Seq<char>) -> Option<int> {
    first_index(s, by_command(command))
}

/// The words of the command that launches a window of `class` when no
/// fallback is given.
pub open spec fn launch_words(s: Seq<(String, DesktopEntry)>, class: Seq<char>) -> Seq<Seq<char>> {
    match class_match(s, class) {
        Some(i) => words(s[i].1.exec_cmd@),
        None => seq![lowercase(class)],
    }
}

/// The entries of `s` for which `p` holds, in order.
pub open spec fn select(s: Seq<(String, DesktopEntry)>, p: spec_fn(DesktopEntry) -> bool) -> Seq<DesktopEntry>
    decreases s.len(),
{
    if s.len() == 0 {
        seq![]
    } else if p(s.last().1) {
        select(s.drop_last(), p).push(s.last().1)
    } else {
        select(s.drop_last(), p)
    }
}

/// Shown entries.
pub open spec fn is_shown(e: DesktopEntry) -> bool {
    !e.no_display
}

/// The shown entries, as a predicate.
pub open spec fn shown() -> spec_fn(DesktopEntry) -> bool {
    |e: DesktopEntry| is_shown(e)
}

/// The entries of a category, as a predicate.
pub open spec fn of_category(category: Seq<char>) -> spec_fn(DesktopEntry) -> bool {
    |e: DesktopEntry| in_category(e, category)
}

/// The entry lists `category` among its categories, regardless of case.
pub open spec fn in_category(e: DesktopEntry, category: Seq<char>) -> bool {
    exists|k: int|
        0 <= k < e.categories@.len() && lowercase(#[trigger] e.categories@[k]@) == lowercase(
            category,
        )
}

/// Filtering by category depends only on the lowercase of the category:
/// two categories with the same lowercase select the same entries.
pub proof fn lemma_category_filter_by_lowercase(
    s: Seq<(String, DesktopEntry)>,
    a: Seq<char>,
    b: Seq<char>,
)
    requires
        lowercase(a) == lowercase(b),
    ensures
        select(s, of_category(a)) == select(s, of_category(b)),
{
    assert(of_category(a) =~= of_category(b));
}

/// `c` is a non-empty category of some entry of `s`.
pub open spec fn is_category_of(s: Seq<(String, DesktopEntry)>, c: Seq<char>) -> bool {
    c.len() > 0 && exists|i: int, k: int|
        0 <= i < s.len() && 0 <= k < s[i].1.categories@.len() && #[trigger] s[i].1.categories@[k]@
            == c
}

/// `v` is strictly ascending.
pub open spec fn strictly_sorted(v: Seq<Seq<char>>) -> bool {
    forall|i: int, j: int| 0 <= i < j < v.len() ==> lex_lt(v[i], v[j])
}

/// A directory from the configuration, with a leading `~/` taken relative
/// to the home directory when it is known.
pub open spec fn expand_home(dir: Seq<char>, home: Option<Seq<char>>) -> Seq<char> {
    if starts_with(dir, "~/"@) {
        match home {
            Some(h) => path_join(h, dir.skip(2)),
            None => dir,
        }
    } else {
        dir
    }
}

/// `dirs` are the configured directories `conf`, each with a leading `~/`
/// taken relative to `home`.
pub open spec fn expanded_dirs(dirs: Seq<Seq<char>>, conf: Seq<String>, home: Option<Seq<char>>) -> bool {
    &&& dirs.len() == conf.len()
    &&& forall|i: int| 0 <= i < dirs.len() ==> #[trigger] dirs[i] == expand_home(conf[i]@, home)
}

/// The references of `r`, dereferenced.
pub open spec fn derefs(r: Seq<&DesktopEntry>) -> Seq<DesktopEntry> {
    r.map_values(|e: &DesktopEntry| *e)
}

/// An entry list as a map from key to entry.
pub open spec fn keyed(s: Seq<(String, DesktopEntry)>) -> Map<Seq<char>, DesktopEntry> {
    Map::new(
        |k: Seq<char>| exists|i: int| 0 <= i < s.len() && s[i].0@ == k,
        |k: Seq<char>| s[choose|i: int| 0 <= i < s.len() && s[i].0@ == k].1,
    )
}

impl WalkerIntegration {
    /// The entries with their keys, in the order they were added.
    pub closed spec fn entries(&self) -> Seq<(String, DesktopEntry)> {
        self.desktop_entries@
    }

    /// The directories desktop files are read from.
    pub closed spec fn dirs(&self) -> Seq<Seq<char>> {
        views(self.desktop_dirs@)
    }

    /// Whether matching is enabled.
    pub closed spec fn spec_enabled(&self) -> bool {
        self.enabled
    }

    /// Keys are distinct, and each entry is kept under its own key.
    #[verifier::type_invariant]
    closed spec fn keys_consistent(&self) -> bool {
        &&& forall|i: int, j: int|
            0 <= i < j < self.desktop_entries@.len() ==> self.desktop_entries@[i].0@
                != self.desktop_entries@[j].0@
        &&& forall|i: int|
            0 <= i < self.desktop_entries@.len() ==> self.desktop_entries@[i].0@ == entry_key(
                self.desktop_entries@[i].1,
            )
    }
}

/// `post` has the directories and the enabled flag of `pre`.
pub open spec fn keeps_settings(pre: WalkerIntegration, post: WalkerIntegration) -> bool {
    post.dirs() == pre.dirs() && post.spec_enabled() == pre.spec_enabled()
}

/// The step from position `k` of `states` to the next keeps the settings.
pub open spec fn step_keeps_settings(states: Seq<WalkerIntegration>, k: int) -> bool {
    keeps_settings(states[k], states[k + 1])
}

/// The settings are fixed when the integration is made: along any sequence
/// of states in which each step keeps them (as `insert_entry`,
/// `clear_entries`, `load_desktop_file` and `load_translated_desktop_file`
/// each do), every state has the directories and the enabled flag of the
/// first.
pub proof fn lemma_settings_fixed(states: Seq<WalkerIntegration>)
    requires
        forall|k: int| 0 <= k < states.len() - 1 ==> #[trigger] step_keeps_settings(states, k),
    ensures
        forall|k: int|
            0 <= k < states.len() ==> #[trigger] keeps_settings(states[0], states[k]),
    decreases states.len(),
{
    if states.len() > 1 {
        let init = states.drop_last();
        assert forall|k: int| 0 <= k < init.len() - 1 implies #[trigger] step_keeps_settings(init, k) by {
            assert(step_keeps_settings(states, k));
        }
        lemma_settings_fixed(init);
        assert forall|k: int| 0 <= k < states.len() implies #[trigger] keeps_settings(states[0], states[k]) by {
            if k < states.len() - 1 {
                assert(keeps_settings(init[0], init[k]));
            } else {
                assert(step_keeps_settings(states, k - 1));
                assert(keeps_settings(init[0], init[k - 1]));
            }
        }
    }
}

/// Calls `dirs::home_dir`: the user's home directory, when the environment
/// names one. It depends on the environment, so nothing is stated of it.
#[verifier::external_body]
fn user_home_dir() -> (r: Option<String>) {
    dirs::home_dir().map(|p| p.to_string_lossy().to_string())
}

impl WalkerIntegration {
    /// Desktop entries are read from the configured directories, a leading
    /// `~/` taken relative to the user's home directory; none are held yet.
    pub fn new(config: &Config) -> (r: Self)
        ensures
            r.entries().len() == 0,
            r.spec_enabled() == config.walker.enabled,
            r.dirs().len() == config.walker.desktop_entry_dirs@.len(),
            exists|home: Option<Seq<char>>| #[trigger] expanded_dirs(r.dirs(), config.walker.desktop_entry_dirs@, home),
    {
        let home = user_home_dir();
        let r = Self::with_home(
            config,
            match &home {
                Some(h) => Some(h.as_str()),
                None => None,
            },
        );
        let ghost h = match home {
            Some(x) => Some(x@),
            None => None,
        };
        assert(expanded_dirs(r.dirs(), config.walker.desktop_entry_dirs@, h));
        r
    }

    /// Desktop entries are read from the configured directories, a leading
    /// `~/` taken relative to `home`; none are held yet.
    pub fn with_home(config: &Config, home: Option<&str>) -> (r: Self)
        ensures
            r.entries().len() == 0,
            r.spec_enabled() == config.walker.enabled,
            r.dirs().len() == config.walker.desktop_entry_dirs@.len(),
            forall|i: int|
                0 <= i < r.dirs().len() ==> #[trigger] r.dirs()[i] == expand_home(
                    config.walker.desktop_entry_dirs@[i]@,
                    match home {
                        Some(h) => Some(h@),
                        None => None,
                    },
                ),
    {
        let src = &config.walker.desktop_entry_dirs;
        let mut dirs: Vec<String> = Vec::new();
        let mut i: usize = 0;
        while i < src.len()
            invariant
                i <= src.len(),
                src@ == config.walker.desktop_entry_dirs@,
                dirs@.len() == i,
                forall|k: int|
                    0 <= k < i ==> #[trigger] dirs@[k]@ == expand_home(
                        src@[k]@,
                        match home {
                            Some(h) => Some(h@),
                            None => None,
                        },
                    ),
            decreases src.len() - i,
        {
            let d = src[i].as_str();
            let e = if str_starts_with(d, "~/") {
                match home {
                    Some(h) => {
                        let cs = chars_of(d);
                        proof {
                            reveal_strlit("~/");
                        }
                        let rest = crate::text::substring(&cs, 2, cs.len());
                        assert(rest@ == d@.skip(2));
                        join_path(h, rest.as_str())
                    },
                    None => owned(d),
                }
            } else {
                owned(d)
            };
            dirs.push(e);
            i = i + 1;
        }
        WalkerIntegration { desktop_entries: Vec::new(), desktop_dirs: dirs, enabled: config.walker.enabled }
    }

    /// Whether matching is enabled.
    pub fn is_enabled(&self) -> (r: bool)
        ensures
            r == self.spec_enabled(),
    {
        self.enabled
    }

    /// The directories desktop files are read from.
    pub fn desktop_dirs(&self) -> (r: &Vec<String>)
        ensures
            views(r@) == self.dirs(),
    {
        &self.desktop_dirs
    }

    /// `exec` without the field codes `%f %F %u %U %i %c %k`, its words
    /// separated by single spaces.
    pub fn clean_exec_command(&self, exec: &str) -> (r: String)
        ensures
            r@ == cleaned_exec(exec@),
    {
        proof {
            reveal_strlit("");
            reveal_strlit("%f");
            reveal_strlit("%F");
            reveal_strlit("%u");
            reveal_strlit("%U");
            reveal_strlit("%i");
            reveal_strlit("%c");
            reveal_strlit("%k");
        }
        assert(""@ =~= seq![]);
        let e1 = replace(exec, "%f", "");
        let e2 = replace(e1.as_str(), "%F", "");
        let e3 = replace(e2.as_str(), "%u", "");
        let e4 = replace(e3.as_str(), "%U", "");
        let e5 = replace(e4.as_str(), "%i", "");
        let e6 = replace(e5.as_str(), "%c", "");
        let e7 = replace(e6.as_str(), "%k", "");
        let ws = split_whitespace(e7.as_str());
        join_strings(&ws, " ")
    }

    /// The file name of the first word of `exec`, if it has one.
    pub fn exec_program(exec: &str) -> (r: Option<String>)
        ensures
            opt_view(r) == exec_program(exec@),
    {
        let ws = split_whitespace(exec);
        if ws.len() == 0 {
            None
        } else {
            assert(views(ws@)[0] == ws@[0]@);
            file_name_of(ws[0].as_str())
        }
    }

    /// The key `entry` is kept under.
    pub fn get_entry_key(&self, entry: &DesktopEntry) -> (r: String)
        ensures
            r@ == entry_key(*entry),
    {
        match Self::exec_program(entry.exec_cmd.as_str()) {
            Some(p) => to_lowercase(p.as_str()),
            None => to_lowercase(entry.name.as_str()),
        }
    }

    /// Keeps `entry` under its key, in place of an entry already kept under
    /// that key.
    pub fn insert_entry(&mut self, entry: DesktopEntry)
        ensures
            keyed(final(self).entries()) == keyed(old(self).entries()).insert(entry_key(entry), entry),
            keeps_settings(*old(self), *final(self)),
    {
        proof {
            use_type_invariant(&*self);
        }
        let key = self.get_entry_key(&entry);
        let mut entries: Vec<(String, DesktopEntry)> = Vec::new();
        std::mem::swap(&mut entries, &mut self.desktop_entries);
        let mut i: usize = 0;
        while i < entries.len() && !str_eq(
            entries[i].0.as_str(),
            key.as_str(),
        )
            invariant
                i <= entries.len(),
                forall|j: int| 0 <= j < i ==> entries@[j].0@ != key@,
            decreases entries.len() - i,
        {
            i = i + 1;
        }
        let ghost old_entries = entries@;
        if i < entries.len() {
            entries.set(i, (key, entry));
            proof {
                let s = entries@;
                assert forall|k: Seq<char>| #[trigger] keyed(s).dom().contains(k) == keyed(old_entries).insert(entry_key(entry), entry).dom().contains(k) by {
                    if k != entry_key(entry) {
                        if exists|j: int| 0 <= j < s.len() && s[j].0@ == k {
                            let j = choose|j: int| 0 <= j < s.len() && s[j].0@ == k;
                            assert(old_entries[j].0@ == k);
                        }
                        if exists|j: int| 0 <= j < old_entries.len() && old_entries[j].0@ == k {
                            let j = choose|j: int| 0 <= j < old_entries.len() && old_entries[j].0@ == k;
                            assert(s[j].0@ == k);
                        }
                    } else {
                        assert(s[i as int].0@ == k);
                    }
                }
                assert forall|k: Seq<char>| keyed(s).dom().contains(k) implies #[trigger] keyed(s)[k] == keyed(old_entries).insert(entry_key(entry), entry)[k] by {
                    let j = choose|j: int| 0 <= j < s.len() && s[j].0@ == k;
                    assert(old_entries[i as int].0@ == key@);
                    assert(old(self).entries() == old_entries);
                    if j != i {
                        assert(s[j] == old_entries[j]);
                        if j < i {
                            assert(old(self).entries()[j].0@ != old(self).entries()[i as int].0@);
                        } else {
                            assert(old(self).entries()[i as int].0@ != old(self).entries()[j].0@);
                        }
                    }
                    if k == entry_key(entry) {
                        assert(j == i);
                    } else {
                        assert(j != i);
                        let j2 = choose|j2: int| 0 <= j2 < old_entries.len() && old_entries[j2].0@ == k;
                        if j2 < j {
                            assert(old(self).entries()[j2].0@ != old(self).entries()[j].0@);
                        } else if j < j2 {
                            assert(old(self).entries()[j].0@ != old(self).entries()[j2].0@);
                        }
                    }
                }
                assert(keyed(s) =~= keyed(old_entries).insert(entry_key(entry), entry));
            }
        } else {
            entries.push((key, entry));
            proof {
                let s = entries@;
                let n = old_entries.len() as int;
                assert forall|k: Seq<char>| #[trigger] keyed(s).dom().contains(k) == keyed(old_entries).insert(entry_key(entry), entry).dom().contains(k) by {
                    if exists|j: int| 0 <= j < s.len() && s[j].0@ == k {
                        let j = choose|j: int| 0 <= j < s.len() && s[j].0@ == k;
                        if j < n {
                            assert(old_entries[j].0@ == k);
                        }
                    }
                    if exists|j: int| 0 <= j < old_entries.len() && old_entries[j].0@ == k {
                        let j = choose|j: int| 0 <= j < old_entries.len() && old_entries[j].0@ == k;
                        assert(s[j].0@ == k);
                    }
                    if k == entry_key(entry) {
                        assert(s[n].0@ == k);
                    }
                }
                assert forall|k: Seq<char>| keyed(s).dom().contains(k) implies #[trigger] keyed(s)[k] == keyed(old_entries).insert(entry_key(entry), entry)[k] by {
                    let j = choose|j: int| 0 <= j < s.len() && s[j].0@ == k;
                    if k == entry_key(entry) {
                        assert(j == n);
                    } else {
                        let j2 = choose|j2: int| 0 <= j2 < old_entries.len() && old_entries[j2].0@ == k;
                        assert(j2 == j);
                    }
                }
                assert(keyed(s) =~= keyed(old_entries).insert(entry_key(entry), entry));
            }
        }
        self.desktop_entries = entries;
    }

    /// Forgets every entry.
    pub fn clear_entries(&mut self)
        ensures
            final(self).entries().len() == 0,
            keeps_settings(*old(self), *final(self)),
    {
        self.desktop_entries = Vec::new();
    }

    /// Whether the file at `path` is a desktop file: its extension is
    /// `desktop`.
    pub fn is_desktop_file(path: &str) -> (r: bool)
        ensures
            r == (extension(path@) == Some("desktop"@)),
    {
        match extension_of(path) {
            Some(e) => str_eq(e.as_str(), "desktop"),
            None => false,
        }
    }
}

/// The predicate a search with `tier` applies: 1 by name, 2 by overlapping
/// name, 3 by overlapping program, 4 by key, 5 by overlapping command.
pub open spec fn tier_pred(tier: u8, text: Seq<char>) -> spec_fn((String, DesktopEntry)) -> bool {
    if tier == 1 {
        by_name(text)
    } else if tier == 2 {
        by_name_overlap(text)
    } else if tier == 3 {
        by_program(text)
    } else if tier == 4 {
        by_key(text)
    } else {
        by_command(text)
    }
}

fn is_visible_entry(e: &DesktopEntry) -> (r: bool)
    ensures
        r == is_visible(*e),
{
    !e.no_display && !e.exec_cmd.as_str().is_empty()
}

fn overlaps_exec(a: &str, b: &str) -> (r: bool)
    ensures
        r == overlaps(a@, b@),
{
    str_contains(a, b) || str_contains(b, a)
}

fn matches_tier(tier: u8, pair: &(String, DesktopEntry), text: &str, lower_text: &str) -> (r: bool)
    requires
        1 <= tier <= 5,
        lower_text@ == lowercase(text@),
    ensures
        r == tier_pred(tier, text@)(*pair),
{
    let e = &pair.1;
    if tier == 5 {
        return overlaps_exec(e.exec_cmd.as_str(), text);
    }
    if !is_visible_entry(e) {
        return false;
    }
    if tier == 1 {
        let n = to_lowercase(e.name.as_str());
        str_eq(n.as_str(), lower_text)
    } else if tier == 2 {
        let n = to_lowercase(e.name.as_str());
        overlaps_exec(n.as_str(), lower_text)
    } else if tier == 3 {
        match WalkerIntegration::exec_program(e.exec_cmd.as_str()) {
            Some(p) => {
                if p.as_str().is_empty() {
                    false
                } else {
                    let lp = to_lowercase(p.as_str());
                    overlaps_exec(lower_text, lp.as_str())
                }
            },
            None => false,
        }
    } else {
        str_eq(pair.0.as_str(), lower_text)
    }
}

impl WalkerIntegration {
    fn search(&self, tier: u8, text: &str, lower_text: &str) -> (r: Option<usize>)
        requires
            1 <= tier <= 5,
            lower_text@ == lowercase(text@),
        ensures
            match r {
                Some(i) => first_index(self.entries(), tier_pred(tier, text@)) == Some(i as int)
                    && i < self.entries().len(),
                None => first_index(self.entries(), tier_pred(tier, text@)) is None,
            },
    {
        let ghost p = tier_pred(tier, text@);
        let mut i: usize = 0;
        while i < self.desktop_entries.len()
            invariant
                1 <= tier <= 5,
                lower_text@ == lowercase(text@),
                p == tier_pred(tier, text@),
                i <= self.desktop_entries.len(),
                forall|j: int| 0 <= j < i ==> !p(#[trigger] self.desktop_entries@[j]),
            decreases self.desktop_entries.len() - i,
        {
            if matches_tier(tier, &self.desktop_entries[i], text, lower_text) {
                proof {
                    lemma_first_unique(self.entries(), p, i as int);
                }
                return Some(i);
            }
            i = i + 1;
        }
        proof {
            lemma_first_none(self.entries(), p);
        }
        None
    }

    fn class_index(&self, class: &str) -> (r: Option<usize>)
        ensures
            match r {
                Some(i) => class_match(self.entries(), class@) == Some(i as int) && i
                    < self.entries().len(),
                None => class_match(self.entries(), class@) is None,
            },
    {
        let lc = to_lowercase(class);
        match self.search(1, class, lc.as_str()) {
            Some(i) => Some(i),
            None => match self.search(2, class, lc.as_str()) {
                Some(i) => Some(i),
                None => match self.search(3, class, lc.as_str()) {
                    Some(i) => Some(i),
                    None => self.search(4, class, lc.as_str()),
                },
            },
        }
    }

    /// The entry for a window of `class`: the first shown entry whose name
    /// equals the class, else whose name contains it or is contained in it,
    /// else whose program contains it or is contained in it, else the one
    /// kept under the lowercase class; all regardless of case.
    pub fn find_desktop_entry_by_class(&self, class: &str) -> (r: Option<&DesktopEntry>)
        ensures
            match r {
                Some(e) => class_match(self.entries(), class@) matches Some(i) && *e
                    == self.entries()[i].1,
                None => class_match(self.entries(), class@) is None,
            },
    {
        match self.class_index(class) {
            Some(i) => Some(&self.desktop_entries[i].1),
            None => None,
        }
    }

    /// The first entry whose `Exec` line contains `command` or is contained
    /// in it.
    pub fn find_desktop_entry_by_command(&self, command: &str) -> (r: Option<&DesktopEntry>)
        ensures
            match r {
                Some(e) => command_match(self.entries(), command@) matches Some(i) && *e
                    == self.entries()[i].1,
                None => command_match(self.entries(), command@) is None,
            },
    {
        let lc = to_lowercase(command);
        match self.search(5, command, lc.as_str()) {
            Some(i) => Some(&self.desktop_entries[i].1),
            None => None,
        }
    }

    /// The command that launches a window of `class`: the words of its
    /// entry's `Exec` line, else of `fallback_command`, else the lowercase
    /// class alone.
    pub fn get_launch_command(&self, class: &str, fallback_command: Option<&str>) -> (r: Vec<String>)
        ensures
            views(r@) == match class_match(self.entries(), class@) {
                Some(i) => words(self.entries()[i].1.exec_cmd@),
                None => match fallback_command {
                    Some(f) => words(f@),
                    None => seq![lowercase(class@)],
                },
            },
    {
        match self.class_index(class) {
            Some(i) => split_whitespace(self.desktop_entries[i].1.exec_cmd.as_str()),
            None => match fallback_command {
                Some(f) => split_whitespace(f),
                None => {
                    let l = to_lowercase(class);
                    let v = vec![l];
                    assert(views(v@) =~= seq![lowercase(class@)]);
                    v
                },
            },
        }
    }

    /// The `Exec` line of the entry for a window of `class`.
    pub fn suggest_command_for_class(&self, class: &str) -> (r: Option<String>)
        ensures
            opt_view(r) == match class_match(self.entries(), class@) {
                Some(i) => Some(self.entries()[i].1.exec_cmd@),
                None => None,
            },
    {
        match self.class_index(class) {
            Some(i) => Some(copy_string(&self.desktop_entries[i].1.exec_cmd)),
            None => None,
        }
    }
}

proof fn lemma_select_step(s: Seq<(String, DesktopEntry)>, p: spec_fn(DesktopEntry) -> bool, i: int)
    requires
        0 <= i < s.len(),
    ensures
        select(s.take(i + 1), p) == if p(s[i].1) {
            select(s.take(i), p).push(s[i].1)
        } else {
            select(s.take(i), p)
        },
{
    assert(s.take(i + 1).drop_last() =~= s.take(i));
    assert(s.take(i + 1).last() == s[i]);
}

fn in_category_exec(e: &DesktopEntry, lower_category: &str, category: &str) -> (r: bool)
    requires
        lower_category@ == lowercase(category@),
    ensures
        r == in_category(*e, category@),
{
    let mut k: usize = 0;
    while k < e.categories.len()
        invariant
            k <= e.categories.len(),
            lower_category@ == lowercase(category@),
            forall|j: int|
                0 <= j < k ==> lowercase(#[trigger] e.categories@[j]@) != lowercase(category@),
        decreases e.categories.len() - k,
    {
        let lc = to_lowercase(e.categories[k].as_str());
        if str_eq(lc.as_str(), lower_category) {
            return true;
        }
        k = k + 1;
    }
    false
}

impl WalkerIntegration {
    fn select_entries(&self, category: Option<&str>) -> (r: Vec<&DesktopEntry>)
        ensures
            derefs(r@) == match category {
                None => select(self.entries(), shown()),
                Some(c) => select(self.entries(), of_category(c@)),
            },
    {
        let ghost p = match category {
            None => shown(),
            Some(c) => of_category(c@),
        };
        let lower = match category {
            Some(c) => to_lowercase(c),
            None => String::new(),
        };
        let mut out: Vec<&DesktopEntry> = Vec::new();
        let mut i: usize = 0;
        while i < self.desktop_entries.len()
            invariant
                i <= self.desktop_entries.len(),
                p == match category {
                    None => shown(),
                    Some(c) => of_category(c@),
                },
                category matches Some(c) ==> lower@ == lowercase(c@),
                derefs(out@) == select(self.desktop_entries@.take(i as int), p),
            decreases self.desktop_entries.len() - i,
        {
            let e = &self.desktop_entries[i].1;
            proof {
                lemma_select_step(self.desktop_entries@, p, i as int);
            }
            let keep = match category {
                None => !e.no_display,
                Some(c) => in_category_exec(e, lower.as_str(), c),
            };
            if keep {
                let ghost old_out = out@;
                out.push(e);
                assert(derefs(out@) =~= derefs(old_out).push(*e));
            }
            i = i + 1;
        }
        assert(self.desktop_entries@.take(i as int) =~= self.desktop_entries@);
        out
    }

    /// The shown entries, in order.
    pub fn get_all_applications(&self) -> (r: Vec<&DesktopEntry>)
        ensures
            derefs(r@) == select(self.entries(), shown()),
    {
        self.select_entries(None)
    }

    /// The first `limit` shown entries.
    pub fn get_frequent_applications(&self, limit: usize) -> (r: Vec<&DesktopEntry>)
        ensures
            derefs(r@) == select(self.entries(), shown()).take(
                if limit < select(self.entries(), shown()).len() {
                    limit as int
                } else {
                    select(self.entries(), shown()).len() as int
                },
            ),
    {
        let all = self.get_all_applications();
        let mut out: Vec<&DesktopEntry> = Vec::new();
        let mut i: usize = 0;
        while i < all.len() && i < limit
            invariant
                i <= all.len(),
                i <= limit,
                derefs(out@) == derefs(all@).take(i as int),
            decreases all.len() - i,
        {
            let ghost old_out = out@;
            let x = all[i];
            out.push(x);
            assert(derefs(out@) =~= derefs(old_out).push(*x));
            assert(derefs(out@) =~= derefs(all@).take(i + 1));
            i = i + 1;
        }
        out
    }

    /// The entries listed in `category`, regardless of case.
    pub fn filter_by_category(&self, category: &str) -> (r: Vec<&DesktopEntry>)
        ensures
            derefs(r@) == select(self.entries(), of_category(category@)),
    {
        self.select_entries(Some(category))
    }
}

/// Inserts `x` into the strictly ascending `v` unless it is there already.
fn insert_sorted(v: &mut Vec<String>, x: String)
    requires
        strictly_sorted(views(old(v)@)),
    ensures
        strictly_sorted(views(final(v)@)),
        forall|c: Seq<char>|
            views(final(v)@).contains(c) <==> (views(old(v)@).contains(c) || c == x@),
{
    let xc = chars_of(x.as_str());
    let mut pos: usize = 0;
    while pos < v.len() && chars_lt(&chars_of(v[pos].as_str()), &xc)
        invariant
            pos <= v.len(),
            xc@ == x@,
            v@ == old(v)@,
            forall|j: int| 0 <= j < pos ==> lex_lt(#[trigger] views(v@)[j], x@),
        decreases v.len() - pos,
    {
        pos = pos + 1;
    }
    let ghost old_v = views(v@);
    if pos < v.len() && str_eq(v[pos].as_str(), x.as_str()) {
        assert(old_v[pos as int] == x@);
        return;
    }
    proof {
        if pos < old_v.len() {
            lemma_lex_total(old_v[pos as int], x@);
        }
    }
    v.insert(pos, x);
    proof {
        let nv = views(v@);
        assert(nv =~= old_v.subrange(0, pos as int).push(x@) + old_v.subrange(pos as int, old_v.len() as int));
        assert forall|i: int, j: int| 0 <= i < j < nv.len() implies lex_lt(nv[i], nv[j]) by {
            if j < pos {
                assert(nv[i] == old_v[i] && nv[j] == old_v[j]);
            } else if j == pos {
                assert(nv[i] == old_v[i]);
            } else if i > pos {
                assert(nv[i] == old_v[i - 1] && nv[j] == old_v[j - 1]);
            } else if i == pos {
                assert(nv[j] == old_v[j - 1]);
                if j - 1 > pos {
                    lemma_lex_transitive(x@, old_v[pos as int], old_v[j - 1]);
                }
            } else {
                assert(nv[i] == old_v[i]);
                assert(nv[j] == old_v[j - 1]);
                assert(lex_lt(old_v[i], x@));
                lemma_lex_transitive(old_v[i], x@, old_v[pos as int]);
                if j - 1 > pos {
                    lemma_lex_transitive(old_v[i], old_v[pos as int], old_v[j - 1]);
                }
            }
        }
        assert forall|c: Seq<char>| nv.contains(c) <==> (old_v.contains(c) || c == x@) by {
            if nv.contains(c) {
                let k = choose|k: int| 0 <= k < nv.len() && nv[k] == c;
                if k < pos {
                    assert(old_v[k] == c);
                } else if k > pos {
                    assert(old_v[k - 1] == c);
                }
            }
            if old_v.contains(c) {
                let k = choose|k: int| 0 <= k < old_v.len() && old_v[k] == c;
                if k < pos {
                    assert(nv[k] == c);
                } else {
                    assert(nv[k + 1] == c);
                }
            }
            if c == x@ {
                assert(nv[pos as int] == c);
            }
        }
    }
}

impl WalkerIntegration {
    /// Every non-empty category of any entry, once each, in ascending order.
    pub fn get_categories(&self) -> (r: Vec<String>)
        ensures
            strictly_sorted(views(r@)),
            forall|c: Seq<char>| views(r@).contains(c) <==> is_category_of(self.entries(), c),
    {
        let mut out: Vec<String> = Vec::new();
        let mut i: usize = 0;
        while i < self.desktop_entries.len()
            invariant
                i <= self.desktop_entries.len(),
                strictly_sorted(views(out@)),
                forall|c: Seq<char>|
                    views(out@).contains(c) <==> is_category_of(
                        self.desktop_entries@.take(i as int),
                        c,
                    ),
            decreases self.desktop_entries.len() - i,
        {
            let cats = &self.desktop_entries[i].1.categories;
            let mut k: usize = 0;
            while k < cats.len()
                invariant
                    i < self.desktop_entries.len(),
                    cats@ == self.desktop_entries@[i as int].1.categories@,
                    k <= cats.len(),
                    strictly_sorted(views(out@)),
                    forall|c: Seq<char>|
                        views(out@).contains(c) <==> (is_category_of(
                            self.desktop_entries@.take(i as int),
                            c,
                        ) || (c.len() > 0 && exists|m: int| 0 <= m < k && #[trigger] cats@[m]@ == c)),
                decreases cats.len() - k,
            {
                let ghost before = views(out@);
                if !cats[k].as_str().is_empty() {
                    let c = copy_string(&cats[k]);
                    insert_sorted(&mut out, c);
                }
                proof {
                    assert forall|c: Seq<char>|
                        views(out@).contains(c) <==> (is_category_of(
                            self.desktop_entries@.take(i as int),
                            c,
                        ) || (c.len() > 0 && exists|m: int| 0 <= m < k + 1 && #[trigger] cats@[m]@ == c)) by {
                        if c.len() > 0 && exists|m: int| 0 <= m < k + 1 && #[trigger] cats@[m]@ == c {
                            let m = choose|m: int| 0 <= m < k + 1 && #[trigger] cats@[m]@ == c;
                            if m < k {
                                assert(exists|m2: int| 0 <= m2 < k && #[trigger] cats@[m2]@ == c);
                            }
                        }
                        if c.len() > 0 && exists|m: int| 0 <= m < k && #[trigger] cats@[m]@ == c {
                            let m = choose|m: int| 0 <= m < k && #[trigger] cats@[m]@ == c;
                            assert(0 <= m < k + 1 && cats@[m]@ == c);
                        }
                    }
                }
                k = k + 1;
            }
            proof {
                let t0 = self.desktop_entries@.take(i as int);
                let t1 = self.desktop_entries@.take(i + 1);
                assert forall|c: Seq<char>|
                    is_category_of(t1, c) <==> (is_category_of(t0, c) || (c.len() > 0 && exists|m: int| 0 <= m < cats.len() && #[trigger] cats@[m]@ == c)) by {
                    if is_category_of(t1, c) {
                        let (a, m) = choose|a: int, m: int| 0 <= a < t1.len() && 0 <= m < t1[a].1.categories@.len() && #[trigger] t1[a].1.categories@[m]@ == c;
                        if a < i {
                            assert(t0[a] == t1[a]);
                            assert(t0[a].1.categories@[m]@ == c);
                        } else {
                            assert(cats@[m]@ == c);
                        }
                    }
                    if is_category_of(t0, c) {
                        let (a, m) = choose|a: int, m: int| 0 <= a < t0.len() && 0 <= m < t0[a].1.categories@.len() && #[trigger] t0[a].1.categories@[m]@ == c;
                        assert(t1[a] == t0[a]);
                        assert(t1[a].1.categories@[m]@ == c);
                    }
                    if c.len() > 0 && exists|m: int| 0 <= m < cats.len() && #[trigger] cats@[m]@ == c {
                        let m = choose|m: int| 0 <= m < cats.len() && #[trigger] cats@[m]@ == c;
                        assert(t1[i as int].1.categories@[m]@ == c);
                    }
                }
            }
            i = i + 1;
        }
        assert(self.desktop_entries@.take(i as int) =~= self.desktop_entries@);
        out
    }

    /// How many entries there are, how many are shown, how many categories
    /// they span, and whether matching is enabled.
    pub fn get_statistics(&self) -> (r: WalkerStats)
        ensures
            r.total_entries == self.entries().len(),
            r.visible_entries == select(self.entries(), shown()).len(),
            exists|cats: Seq<Seq<char>>|
                strictly_sorted(cats) && (forall|c: Seq<char>|
                    cats.contains(c) <==> is_category_of(self.entries(), c)) && r.categories
                    == cats.len(),
            r.enabled == self.spec_enabled(),
    {
        let shown_entries = self.get_all_applications();
        let cats = self.get_categories();
        proof {
            assert(derefs(shown_entries@).len() == shown_entries@.len());
            let w = views(cats@);
            assert(w.len() == cats@.len());
            assert(strictly_sorted(w) && (forall|c: Seq<char>| w.contains(c) <==> is_category_of(self.entries(), c)) && cats.len() == w.len());
        }
        WalkerStats {
            total_entries: self.desktop_entries.len(),
            visible_entries: shown_entries.len(),
            categories: cats.len(),
            enabled: self.enabled,
        }
    }
}

/// An optional string slice taken as characters.
pub open spec fn opt_str_view(o: Option<&str>) -> Option<Seq<char>> {
    match o {
        Some(s) => Some(s@),
        None => None,
    }
}

/// The name an entry is shown under: the translation of its `Name`, when
/// one is given, else the `Name` written in the file, else `Unknown`.
pub open spec fn entry_name(written: Option<Seq<char>>, translated: Option<Seq<char>>) -> Seq<char> {
    match translated {
        Some(t) => t,
        None => match written {
            Some(n) => n,
            None => "Unknown"@,
        },
    }
}

/// The entry built from a decoded desktop file and shown under `name`: its
/// cleaned `Exec` line, icon, `;`-separated categories and `NoDisplay`
/// flag, and the file's path.
pub open spec fn entry_from_fields(
    e: DesktopEntry,
    f: DesktopFieldsView,
    path: Seq<char>,
    name: Seq<char>,
) -> bool {
    &&& e.name@ == name
    &&& e.exec_cmd@ == cleaned_exec(
        match f.exec_line {
            Some(x) => x,
            None => seq![],
        },
    )
    &&& opt_view(e.icon) == f.icon
    &&& views(e.categories@) == match f.categories {
        Some(c) => split(c, ";"@),
        None => seq![],
    }
    &&& e.no_display == f.no_display
    &&& e.path@ == path
}

impl Default for WalkerIntegration {
    fn default() -> (r: Self)
        ensures
            r.entries().len() == 0,
            !r.spec_enabled(),
            r.dirs() == seq!["/usr/share/applications"@, "/usr/local/share/applications"@],
    {
        let dirs = vec![owned("/usr/share/applications"), owned("/usr/local/share/applications")];
        assert(views(dirs@) =~= seq!["/usr/share/applications"@, "/usr/local/share/applications"@]);
        WalkerIntegration { desktop_entries: Vec::new(), desktop_dirs: dirs, enabled: false }
    }
}

impl WalkerIntegration {
    /// Builds the entry for the desktop file at `path` with contents
    /// `content`, or the error that the file was refused with. `translated`
    /// is the translation of the file's `Name`, for a file that names a
    /// gettext domain; the entry is shown under it, and under the written
    /// `Name` (or `Unknown`) when it is `None`.
    pub fn parse_translated_desktop_entry(
        &self,
        path: &str,
        content: &str,
        translated: Option<&str>,
    ) -> (r: Result<DesktopEntry>)
        requires
            !has_keyless_line(content@),
        ensures
            match r {
                Ok(e) => decoded_desktop_file(path@, content@) matches Some(f) && entry_from_fields(
                    e,
                    f,
                    path@,
                    entry_name(f.name, opt_str_view(translated)),
                ),
                Err(err) => decoded_desktop_file(path@, content@) is None && err@
                    == ErrorView::DesktopEntry(
                    "Failed to parse desktop entry: "@ + "path does not contain a valid app ID"@,
                ),
            },
    {
        match decode_desktop_file(path, content) {
            Ok(f) => {
                let name = match translated {
                    Some(t) => owned(t),
                    None => match &f.name {
                        Some(n) => copy_string(n),
                        None => owned("Unknown"),
                    },
                };
                let exec_line = match &f.exec_line {
                    Some(x) => copy_string(x),
                    None => String::new(),
                };
                let exec = self.clean_exec_command(exec_line.as_str());
                let categories = match &f.categories {
                    Some(c) => {
                        proof {
                            reveal_strlit(";");
                        }
                        split_str(c.as_str(), ";")
                    },
                    None => Vec::new(),
                };
                let icon = match &f.icon {
                    Some(i) => Some(copy_string(i)),
                    None => None,
                };
                let e = DesktopEntry {
                    name,
                    exec_cmd: exec,
                    icon,
                    categories,
                    no_display: f.no_display,
                    path: owned(path),
                };
                assert(e.exec_cmd@ == cleaned_exec(match f.fields_view().exec_line { Some(x) => x, None => seq![] }));
                assert(opt_view(e.icon) == f.fields_view().icon);
                assert(views(e.categories@) == match f.fields_view().categories { Some(c) => split(c, ";"@), None => seq![] });
                assert(entry_from_fields(e, f.fields_view(), path@, entry_name(f.fields_view().name, opt_str_view(translated))));
                Ok(e)
            },
            Err(m) => Err(HyprsechyError::DesktopEntry(concat("Failed to parse desktop entry: ", m.as_str()))),
        }
    }

    /// Builds the entry for the desktop file at `path` with contents
    /// `content`, which names no gettext domain, or the error that the file
    /// was refused with. The entry is shown under the file's `Name`, or
    /// `Unknown` when it has none.
    pub fn parse_desktop_entry(&self, path: &str, content: &str) -> (r: Result<DesktopEntry>)
        requires
            !has_keyless_line(content@),
            !names_gettext_domain(content@),
        ensures
            match r {
                Ok(e) => decoded_desktop_file(path@, content@) matches Some(f) && entry_from_fields(
                    e,
                    f,
                    path@,
                    entry_name(f.name, None),
                ),
                Err(err) => decoded_desktop_file(path@, content@) is None && err@
                    == ErrorView::DesktopEntry(
                    "Failed to parse desktop entry: "@ + "path does not contain a valid app ID"@,
                ),
            },
    {
        self.parse_translated_desktop_entry(path, content, None)
    }

    /// Reads one desktop file, with `translated` as in
    /// `parse_translated_desktop_entry`: when `path` has the `desktop`
    /// extension and the file decodes, its entry is kept under its key.
    /// Returns whether it was kept.
    pub fn load_translated_desktop_file(
        &mut self,
        path: &str,
        content: &str,
        translated: Option<&str>,
    ) -> (r: bool)
        requires
            !has_keyless_line(content@),
        ensures
            keeps_settings(*old(self), *final(self)),
            r == (extension(path@) == Some("desktop"@) && decoded_desktop_file(path@, content@) is Some),
            !r ==> final(self).entries() == old(self).entries(),
            r ==> exists|e: DesktopEntry|
                entry_from_fields(
                    e,
                    decoded_desktop_file(path@, content@)->0,
                    path@,
                    entry_name(decoded_desktop_file(path@, content@)->0.name, opt_str_view(translated)),
                ) && keyed(final(self).entries()) == keyed(old(self).entries()).insert(
                    entry_key(e),
                    e,
                ),
    {
        if !Self::is_desktop_file(path) {
            return false;
        }
        match self.parse_translated_desktop_entry(path, content, translated) {
            Ok(e) => {
                self.insert_entry(e);
                true
            },
            Err(_) => false,
        }
    }

    /// Reads one desktop file that names no gettext domain: when `path` has
    /// the `desktop` extension and the file decodes, its entry is kept under
    /// its key. Returns whether it was kept.
    pub fn load_desktop_file(&mut self, path: &str, content: &str) -> (r: bool)
        requires
            !has_keyless_line(content@),
            !names_gettext_domain(content@),
        ensures
            keeps_settings(*old(self), *final(self)),
            r == (extension(path@) == Some("desktop"@) && decoded_desktop_file(path@, content@) is Some),
            !r ==> final(self).entries() == old(self).entries(),
            r ==> exists|e: DesktopEntry|
                entry_from_fields(
                    e,
                    decoded_desktop_file(path@, content@)->0,
                    path@,
                    entry_name(decoded_desktop_file(path@, content@)->0.name, None),
                ) && keyed(final(self).entries()) == keyed(old(self).entries()).insert(
                    entry_key(e),
                    e,
                ),
    {
        self.load_translated_desktop_file(path, content, None)
    }
}

} // verus!
