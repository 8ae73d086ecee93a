//! Character-level text handling: whitespace splitting, joining, substring
//! search, pattern replacement, paths and decimal numbers, all stated over
//! `Seq<char>`.
use vstd::prelude::*;

verus! {

/// The characters with the Unicode `White_Space` property, which is what
/// `char::is_whitespace` accepts.
pub open spec fn is_ws(c: char) -> bool {
    let u = c as u32;
    ||| 0x9 <= u <= 0xD
    ||| u == 0x20
    ||| u == 0x85
    ||| u == 0xA0
    ||| u == 0x1680
    ||| 0x2000 <= u <= 0x200A
    ||| u == 0x2028
    ||| u == 0x2029
    ||| u == 0x202F
    ||| u == 0x205F
    ||| u == 0x3000
}

/// The maximal runs of non-whitespace characters of `s`, in order
/// (what `str::split_whitespace` yields).
pub open spec fn words(s: Seq<char>) -> Seq<Seq<char>>
    decreases s.len(),
{
    if s.len() == 0 {
        seq![]
    } else {
        let prev = words(s.drop_last());
        let c = s.last();
        if is_ws(c) {
            prev
        } else if s.len() >= 2 && !is_ws(s[s.len() - 2]) {
            prev.drop_last().push(prev.last().push(c))
        } else {
            prev.push(seq![c])
        }
    }
}

/// `parts` joined with `sep` between consecutive parts.
pub open spec fn join(parts: Seq<Seq<char>>, sep: Seq<char>) -> Seq<char>
    decreases parts.len(),
{
    if parts.len() == 0 {
        seq![]
    } else if parts.len() == 1 {
        parts[0]
    } else {
        join(parts.drop_last(), sep) + sep + parts.last()
    }
}

/// `t` occurs in `s` at position `i`.
pub open spec fn occurs_at(s: Seq<char>, t: Seq<char>, i: int) -> bool {
    &&& 0 <= i
    &&& i + t.len() <= s.len()
    &&& s.subrange(i, i + t.len()) == t
}

/// `t` is a substring of `s`.
pub open spec fn contains(s: Seq<char>, t: Seq<char>) -> bool {
    exists|i: int| occurs_at(s, t, i)
}

/// `s` begins with `t`.
pub open spec fn starts_with(s: Seq<char>, t: Seq<char>) -> bool {
    occurs_at(s, t, 0)
}

/// Every non-overlapping occurrence of `pat`, scanning left to right,
/// replaced by `with` (what `str::replace` computes for a non-empty pattern).
pub open spec fn replace_all(s: Seq<char>, pat: Seq<char>, with: Seq<char>) -> Seq<char>
    decreases s.len(),
{
    if s.len() == 0 || pat.len() == 0 {
        s
    } else if starts_with(s, pat) {
        with + replace_all(s.skip(pat.len() as int), pat, with)
    } else {
        seq![s[0]] + replace_all(s.skip(1), pat, with)
    }
}

/// The strings of `v`, each taken by its view.
pub open spec fn views(v: Seq<String>) -> Seq<Seq<char>> {
    v.map_values(|x: String| x@)
}

/// The Unicode lowercase mapping of a string (what `str::to_lowercase`
/// returns).
pub uninterp spec fn lowercase(s: Seq<char>) -> Seq<char>;

/// The characters of `s`.
#[verifier::external_body]
pub(crate) fn chars_of(s: &str) -> (r: Vec<char>)
    ensures
        r@ == s@,
{
    s.chars().collect()
}

/// A string holding the characters of `v`.
#[verifier::external_body]
pub(crate) fn string_of(v: &Vec<char>) -> (r: String)
    ensures
        r@ == v@,
{
    v.iter().collect()
}

/// Calls `str::to_lowercase`: the string's Unicode lowercase mapping.
#[verifier::external_body]
pub(crate) fn to_lowercase(s: &str) -> (r: String)
    ensures
        r@ == lowercase(s@),
{
    s.to_lowercase()
}

/// Whether `c` is whitespace, as `char::is_whitespace` decides.
pub fn char_is_whitespace(c: char) -> (r: bool)
    ensures
        r == is_ws(c),
{
    let u = c as u32;
    (0x9 <= u && u <= 0xD) || u == 0x20 || u == 0x85 || u == 0xA0 || u == 0x1680 || (0x2000 <= u
        && u <= 0x200A) || u == 0x2028 || u == 0x2029 || u == 0x202F || u == 0x205F || u == 0x3000
}

/// The strings `a` and `b` hold the same characters.
pub fn str_eq(a: &str, b: &str) -> (r: bool)
    ensures
        r == (a@ == b@),
{
    let x = chars_of(a);
    let y = chars_of(b);
    if x.len() != y.len() {
        return false;
    }
    let mut i: usize = 0;
    while i < x.len()
        invariant
            x@ == a@,
            y@ == b@,
            x.len() == y.len(),
            i <= x.len(),
            forall|k: int| 0 <= k < i ==> x@[k] == y@[k],
        decreases x.len() - i,
    {
        if x[i] != y[i] {
            return false;
        }
        i = i + 1;
    }
    assert(x@ =~= y@);
    true
}

/// Whether `t` occurs in `s` at position `i`.
pub fn occurs_at_exec(s: &Vec<char>, t: &Vec<char>, i: usize) -> (r: bool)
    ensures
        r == occurs_at(s@, t@, i as int),
{
    if t.len() > s.len() || i > s.len() - t.len() {
        return false;
    }
    let mut k: usize = 0;
    while k < t.len()
        invariant
            i + t.len() <= s.len(),
            k <= t.len(),
            forall|j: int| 0 <= j < k ==> s@[i + j] == t@[j],
        decreases t.len() - k,
    {
        if s[i + k] != t[k] {
            assert(s@.subrange(i as int, i + t.len())[k as int] != t@[k as int]);
            return false;
        }
        k = k + 1;
    }
    assert(s@.subrange(i as int, i + t.len()) =~= t@);
    true
}

/// Whether `t` is a substring of `s`.
pub fn contains_chars(s: &Vec<char>, t: &Vec<char>) -> (r: bool)
    ensures
        r == contains(s@, t@),
{
    if t.len() > s.len() {
        return false;
    }
    if t.len() == 0 {
        assert(s@.subrange(0, 0) =~= t@);
        assert(occurs_at(s@, t@, 0));
        return true;
    }
    let mut i: usize = 0;
    while i <= s.len() - t.len()
        invariant
            0 < t.len() <= s.len(),
            i <= s.len() - t.len() + 1,
            forall|j: int| 0 <= j < i ==> !occurs_at(s@, t@, j),
        decreases s.len() - t.len() + 1 - i,
    {
        if occurs_at_exec(s, t, i) {
            return true;
        }
        i = i + 1;
    }
    false
}

/// Whether the string `t` is a substring of the string `s`.
pub fn str_contains(s: &str, t: &str) -> (r: bool)
    ensures
        r == contains(s@, t@),
{
    let x = chars_of(s);
    let y = chars_of(t);
    contains_chars(&x, &y)
}

/// Whether `s` begins with `t`.
pub fn str_starts_with(s: &str, t: &str) -> (r: bool)
    ensures
        r == starts_with(s@, t@),
{
    let x = chars_of(s);
    let y = chars_of(t);
    occurs_at_exec(&x, &y, 0)
}

proof fn lemma_words_step(s: Seq<char>, i: int)
    requires
        0 <= i < s.len(),
    ensures
        s.take(i + 1).drop_last() == s.take(i),
        s.take(i + 1).last() == s[i],
{
    assert(s.take(i + 1).drop_last() =~= s.take(i));
}

/// The whitespace-separated words of `s`.
pub fn split_whitespace(s: &str) -> (r: Vec<String>)
    ensures
        views(r@) == words(s@),
{
    let cs = chars_of(s);
    let mut out: Vec<String> = Vec::new();
    let mut cur: Vec<char> = Vec::new();
    let mut i: usize = 0;
    while i < cs.len()
        invariant
            cs@ == s@,
            i <= cs.len(),
            cur.len() > 0 <==> (i > 0 && !is_ws(cs@[i - 1])),
            cur.len() > 0 ==> views(out@).push(cur@) == words(cs@.take(i as int)),
            cur.len() == 0 ==> views(out@) == words(cs@.take(i as int)),
        decreases cs.len() - i,
    {
        let c = cs[i];
        proof {
            lemma_words_step(cs@, i as int);
        }
        let ghost before = words(cs@.take(i as int));
        if char_is_whitespace(c) {
            if cur.len() > 0 {
                let t = string_of(&cur);
                let ghost old_out = out@;
                out.push(t);
                assert(views(out@) =~= views(old_out).push(cur@));
                cur = Vec::new();
            }
        } else {
            let had = cur.len() > 0;
            let ghost old_cur = cur@;
            cur.push(c);
            if had {
                let ghost prev = views(out@).push(old_cur);
                assert(prev.drop_last() =~= views(out@));
                assert(prev.last() == old_cur);
                let ghost p = cs@.take(i + 1);
                assert(p.len() >= 2);
                assert(p[p.len() - 2] == cs@[i - 1]);
                assert(!is_ws(p[p.len() - 2]));
                assert(p.last() == c);
                assert(p.drop_last() == cs@.take(i as int));
                assert(words(p) == prev.drop_last().push(prev.last().push(c)));
                assert(cur@ =~= old_cur.push(c));
                assert(words(p) =~= views(out@).push(cur@));
            } else {
                let ghost p = cs@.take(i + 1);
                assert(p.last() == c);
                assert(p.drop_last() == cs@.take(i as int));
                if i > 0 {
                    assert(p[p.len() - 2] == cs@[i - 1]);
                }
                assert(words(p) == views(out@).push(seq![c]));
                assert(cur@ =~= seq![c]);
            }
        }
        i = i + 1;
    }
    if cur.len() > 0 {
        let t = string_of(&cur);
        let ghost old_out = out@;
        out.push(t);
        assert(views(out@) =~= views(old_out).push(cur@));
    }
    assert(cs@.take(cs.len() as int) =~= cs@);
    out
}

/// The strings of `parts` joined with `sep`.
pub fn join_strings(parts: &Vec<String>, sep: &str) -> (r: String)
    ensures
        r@ == join(views(parts@), sep@),
{
    let sepc = chars_of(sep);
    let mut out: Vec<char> = Vec::new();
    let mut i: usize = 0;
    while i < parts.len()
        invariant
            sepc@ == sep@,
            i <= parts.len(),
            out@ == join(views(parts@).take(i as int), sep@),
        decreases parts.len() - i,
    {
        let pc = chars_of(parts[i].as_str());
        if i > 0 {
            append_chars(&mut out, &sepc);
        }
        append_chars(&mut out, &pc);
        proof {
            let p = views(parts@);
            assert(p.take(i + 1).drop_last() =~= p.take(i as int));
            if i == 0 {
                assert(p.take(1) =~= seq![p[0]]);
            }
            assert(out@ =~= join(p.take(i + 1), sep@));
        }
        i = i + 1;
    }
    assert(views(parts@).take(parts.len() as int) =~= views(parts@));
    string_of(&out)
}

/// Appends the characters of `b` to `a`.
pub fn append_chars(a: &mut Vec<char>, b: &Vec<char>)
    ensures
        final(a)@ == old(a)@ + b@,
{
    let mut i: usize = 0;
    while i < b.len()
        invariant
            i <= b.len(),
            a@ == old(a)@ + b@.take(i as int),
        decreases b.len() - i,
    {
        a.push(b[i]);
        assert(b@.take(i + 1) =~= b@.take(i as int).push(b@[i as int]));
        assert(a@ =~= old(a)@ + b@.take(i + 1));
        i = i + 1;
    }
    assert(b@.take(b.len() as int) =~= b@);
}

/// The concatenation of the strings `a` and `b`.
pub fn concat(a: &str, b: &str) -> (r: String)
    ensures
        r@ == a@ + b@,
{
    let mut x = chars_of(a);
    let y = chars_of(b);
    append_chars(&mut x, &y);
    string_of(&x)
}

proof fn lemma_replace_skip(s: Seq<char>, pat: Seq<char>, with: Seq<char>, i: int)
    requires
        0 <= i < s.len(),
        pat.len() > 0,
    ensures
        starts_with(s.skip(i), pat) ==> replace_all(s.skip(i), pat, with) == with
            + replace_all(s.skip(i + pat.len()), pat, with),
        !starts_with(s.skip(i), pat) ==> replace_all(s.skip(i), pat, with) == seq![s[i]]
            + replace_all(s.skip(i + 1), pat, with),
{
    let t = s.skip(i);
    assert(t.len() > 0);
    if starts_with(t, pat) {
        assert(t.skip(pat.len() as int) =~= s.skip(i + pat.len()));
    } else {
        assert(t.skip(1) =~= s.skip(i + 1));
    }
}

/// `s` with every non-overlapping occurrence of `pat` replaced by `with`,
/// scanning from the left.
pub fn replace(s: &str, pat: &str, with: &str) -> (r: String)
    requires
        pat@.len() > 0,
    ensures
        r@ == replace_all(s@, pat@, with@),
{
    let cs = chars_of(s);
    let pc = chars_of(pat);
    let wc = chars_of(with);
    let mut out: Vec<char> = Vec::new();
    let mut i: usize = 0;
    assert(cs@.skip(0) =~= cs@);
    while i < cs.len()
        invariant
            cs@ == s@,
            pc@ == pat@,
            wc@ == with@,
            pc.len() > 0,
            i <= cs.len(),
            out@ + replace_all(cs@.skip(i as int), pc@, wc@) == replace_all(cs@, pc@, wc@),
        decreases cs.len() - i,
    {
        proof {
            lemma_replace_skip(cs@, pc@, wc@, i as int);
        }
        let found = occurs_at_exec(&cs, &pc, i);
        assert(found == starts_with(cs@.skip(i as int), pc@)) by {
            let t = cs@.skip(i as int);
            if i + pc.len() <= cs.len() {
                assert(t.subrange(0, pc@.len() as int) =~= cs@.subrange(i as int, i + pc.len()));
            }
        }
        if found {
            append_chars(&mut out, &wc);
            assert(out@ + replace_all(cs@.skip(i + pc.len()), pc@, wc@) =~= replace_all(
                cs@,
                pc@,
                wc@,
            ));
            i = i + pc.len();
        } else {
            out.push(cs[i]);
            assert(out@ + replace_all(cs@.skip(i + 1), pc@, wc@) =~= replace_all(
                cs@,
                pc@,
                wc@,
            ));
            i = i + 1;
        }
    }
    assert(cs@.skip(i as int).len() == 0);
    string_of(&out)
}


/// `s` without its leading whitespace.
pub open spec fn trim_start(s: Seq<char>) -> Seq<char>
    decreases s.len(),
{
    if s.len() > 0 && is_ws(s[0]) {
        trim_start(s.skip(1))
    } else {
        s
    }
}

/// `s` without its trailing whitespace.
pub open spec fn trim_end(s: Seq<char>) -> Seq<char>
    decreases s.len(),
{
    if s.len() > 0 && is_ws(s.last()) {
        trim_end(s.drop_last())
    } else {
        s
    }
}

/// `s` without leading and trailing whitespace (what `str::trim` returns).
pub open spec fn trim(s: Seq<char>) -> Seq<char> {
    trim_end(trim_start(s))
}

/// The pieces of `s` between the occurrences of `sep`, found left to right
/// without overlap, where `cur` is the piece read so far.
pub open spec fn split_from(s: Seq<char>, sep: Seq<char>, cur: Seq<char>) -> Seq<Seq<char>>
    decreases s.len(),
{
    if s.len() == 0 || sep.len() == 0 {
        seq![cur + s]
    } else if starts_with(s, sep) {
        seq![cur] + split_from(s.skip(sep.len() as int), sep, seq![])
    } else {
        split_from(s.skip(1), sep, cur.push(s[0]))
    }
}

/// The pieces of `s` separated by the non-empty `sep` (what `str::split`
/// yields for a string pattern).
pub open spec fn split(s: Seq<char>, sep: Seq<char>) -> Seq<Seq<char>> {
    split_from(s, sep, seq![])
}

/// `i` is the position of the first occurrence of `t` in `s`.
pub open spec fn first_occurrence(s: Seq<char>, t: Seq<char>, i: int) -> bool {
    &&& occurs_at(s, t, i)
    &&& forall|j: int| 0 <= j < i ==> !occurs_at(s, t, j)
}

/// Whether `s` is the string `t`.
pub fn chars_eq(s: &Vec<char>, t: &Vec<char>) -> (r: bool)
    ensures
        r == (s@ == t@),
{
    if s.len() != t.len() {
        return false;
    }
    let b = occurs_at_exec(s, t, 0);
    assert(s@.subrange(0, s@.len() as int) =~= s@);
    b
}

/// `s` without leading and trailing whitespace.
pub fn trim_str(s: &str) -> (r: String)
    ensures
        r@ == trim(s@),
{
    let cs = chars_of(s);
    let mut a: usize = 0;
    assert(cs@.skip(0) =~= cs@);
    while a < cs.len() && char_is_whitespace(cs[a])
        invariant
            cs@ == s@,
            a <= cs.len(),
            trim_start(cs@.skip(a as int)) == trim_start(cs@),
        decreases cs.len() - a,
    {
        assert(cs@.skip(a as int).skip(1) =~= cs@.skip(a + 1));
        a = a + 1;
    }
    assert(cs@.skip(0) =~= cs@);
    assert(trim_start(cs@) == cs@.skip(a as int));
    let mut b: usize = cs.len();
    while b > a && char_is_whitespace(cs[b - 1])
        invariant
            cs@ == s@,
            a <= b <= cs.len(),
            trim_start(cs@) == cs@.skip(a as int),
            trim_end(cs@.subrange(a as int, b as int)) == trim(cs@),
        decreases b - a,
    {
        assert(cs@.subrange(a as int, b as int).drop_last() =~= cs@.subrange(a as int, b - 1));
        b = b - 1;
    }
    let mut out: Vec<char> = Vec::new();
    let mut k: usize = a;
    while k < b
        invariant
            a <= k <= b <= cs.len(),
            out@ == cs@.subrange(a as int, k as int),
        decreases b - k,
    {
        out.push(cs[k]);
        assert(out@ =~= cs@.subrange(a as int, k + 1));
        k = k + 1;
    }
    string_of(&out)
}

/// The pieces of `s` separated by `sep`.
pub fn split_str(s: &str, sep: &str) -> (r: Vec<String>)
    requires
        sep@.len() > 0,
    ensures
        views(r@) == split(s@, sep@),
{
    let cs = chars_of(s);
    let sc = chars_of(sep);
    let mut out: Vec<String> = Vec::new();
    let mut cur: Vec<char> = Vec::new();
    let mut i: usize = 0;
    assert(cs@.skip(0) =~= cs@);
    while i < cs.len()
        invariant
            cs@ == s@,
            sc@ == sep@,
            sc.len() > 0,
            i <= cs.len(),
            views(out@) + split_from(cs@.skip(i as int), sc@, cur@) == split(cs@, sc@),
        decreases cs.len() - i,
    {
        let ghost t = cs@.skip(i as int);
        let found = occurs_at_exec(&cs, &sc, i);
        assert(found == starts_with(t, sc@)) by {
            if i + sc.len() <= cs.len() {
                assert(t.subrange(0, sc@.len() as int) =~= cs@.subrange(i as int, i + sc.len()));
            }
        }
        if found {
            assert(t.skip(sc@.len() as int) =~= cs@.skip(i + sc.len()));
            let piece = string_of(&cur);
            let ghost old_out = out@;
            out.push(piece);
            assert(views(out@) =~= views(old_out).push(cur@));
            assert(views(out@) + split_from(cs@.skip(i + sc.len()), sc@, seq![]) =~= views(old_out)
                + split_from(t, sc@, cur@));
            cur = Vec::new();
            assert(cur@ =~= seq![]);
            i = i + sc.len();
        } else {
            assert(t.skip(1) =~= cs@.skip(i + 1));
            cur.push(cs[i]);
            i = i + 1;
        }
    }
    let piece = string_of(&cur);
    let ghost old_out = out@;
    out.push(piece);
    assert(cur@ + cs@.skip(i as int) =~= cur@);
    assert(views(out@) =~= views(old_out) + seq![cur@]);
    out
}

/// The position of the first occurrence of `t` in `s`, if there is one.
pub fn find_chars(s: &Vec<char>, t: &Vec<char>) -> (r: Option<usize>)
    ensures
        r matches Some(i) ==> first_occurrence(s@, t@, i as int),
        r is None ==> !contains(s@, t@),
{
    if t.len() > s.len() {
        return None;
    }
    if t.len() == 0 {
        assert(s@.subrange(0, 0) =~= t@);
        return Some(0);
    }
    let mut i: usize = 0;
    while i <= s.len() - t.len()
        invariant
            0 < t.len() <= s.len(),
            i <= s.len() - t.len() + 1,
            forall|j: int| 0 <= j < i ==> !occurs_at(s@, t@, j),
        decreases s.len() - t.len() + 1 - i,
    {
        if occurs_at_exec(s, t, i) {
            return Some(i);
        }
        i = i + 1;
    }
    None
}

/// The characters of `v` from `a` up to `b`, as a string.
pub fn substring(v: &Vec<char>, a: usize, b: usize) -> (r: String)
    requires
        a <= b <= v.len(),
    ensures
        r@ == v@.subrange(a as int, b as int),
{
    let mut out: Vec<char> = Vec::new();
    let mut k: usize = a;
    while k < b
        invariant
            a <= k <= b <= v.len(),
            out@ == v@.subrange(a as int, k as int),
        decreases b - k,
    {
        out.push(v[k]);
        assert(out@ =~= v@.subrange(a as int, k + 1));
        k = k + 1;
    }
    string_of(&out)
}


/// An owned copy of `s`.
pub fn owned(s: &str) -> (r: String)
    ensures
        r@ == s@,
{
    s.to_owned()
}

/// A copy of the string `s`.
pub fn copy_string(s: &String) -> (r: String)
    ensures
        r@ == s@,
{
    s.clone()
}

/// A copy of each string of `v`.
pub fn copy_strings(v: &Vec<String>) -> (r: Vec<String>)
    ensures
        views(r@) == views(v@),
{
    let mut out: Vec<String> = Vec::new();
    let mut i: usize = 0;
    while i < v.len()
        invariant
            i <= v.len(),
            views(out@) == views(v@).take(i as int),
        decreases v.len() - i,
    {
        let ghost old_out = out@;
        let c = copy_string(&v[i]);
        out.push(c);
        assert(views(out@) =~= views(old_out).push(v@[i as int]@));
        assert(views(out@) =~= views(v@).take(i + 1));
        i = i + 1;
    }
    assert(views(v@).take(v.len() as int) =~= views(v@));
    out
}

/// The pieces of `parts` from position `start` on, joined with `sep`.
pub fn join_from(parts: &Vec<String>, start: usize, sep: &str) -> (r: String)
    requires
        start <= parts.len(),
    ensures
        r@ == join(views(parts@).skip(start as int), sep@),
{
    let mut rest: Vec<String> = Vec::new();
    let mut i: usize = start;
    while i < parts.len()
        invariant
            start <= i <= parts.len(),
            views(rest@) == views(parts@).subrange(start as int, i as int),
        decreases parts.len() - i,
    {
        let ghost old_rest = rest@;
        let c = copy_string(&parts[i]);
        rest.push(c);
        assert(views(rest@) =~= views(old_rest).push(parts@[i as int]@));
        assert(views(rest@) =~= views(parts@).subrange(start as int, i + 1));
        i = i + 1;
    }
    assert(views(parts@).skip(start as int) =~= views(parts@).subrange(
        start as int,
        parts.len() as int,
    ));
    join_strings(&rest, sep)
}

/// The decimal digit character for `d`.
pub open spec fn digit(d: nat) -> char {
    (d + 48) as char
}

/// The decimal representation of `n`, without leading zeros.
pub open spec fn decimal(n: nat) -> Seq<char>
    decreases n,
{
    if n < 10 {
        seq![digit(n)]
    } else {
        decimal(n / 10).push(digit(n % 10))
    }
}

/// The decimal representation of the integer `n`, with a leading `-` when
/// it is negative (what `to_string` gives for an integer).
pub open spec fn signed_decimal(n: int) -> Seq<char> {
    if n < 0 {
        seq!['-'] + decimal((-n) as nat)
    } else {
        decimal(n as nat)
    }
}

fn push_decimal(n: u64, out: &mut Vec<char>)
    ensures
        final(out)@ == old(out)@ + decimal(n as nat),
    decreases n,
{
    if n >= 10 {
        push_decimal(n / 10, out);
    }
    let d = (n % 10) as u32;
    let c = char_from_digit(d);
    out.push(c);
    assert(final(out)@ =~= old(out)@ + decimal(n as nat)) by {
        if n >= 10 {
            assert(decimal(n as nat) == decimal((n / 10) as nat).push(digit((n % 10) as nat)));
        }
    }
}

fn char_from_digit(d: u32) -> (c: char)
    requires
        d < 10,
    ensures
        c == digit(d as nat),
{
    if d == 0 { '0' }
    else if d == 1 { '1' }
    else if d == 2 { '2' }
    else if d == 3 { '3' }
    else if d == 4 { '4' }
    else if d == 5 { '5' }
    else if d == 6 { '6' }
    else if d == 7 { '7' }
    else if d == 8 { '8' }
    else { '9' }
}

/// The decimal text of `n`.
pub fn u64_to_string(n: u64) -> (r: String)
    ensures
        r@ == decimal(n as nat),
{
    let mut v: Vec<char> = Vec::new();
    push_decimal(n, &mut v);
    assert(v@ =~= decimal(n as nat));
    string_of(&v)
}

/// The decimal text of `n`, with a leading `-` when it is negative.
pub fn i64_to_string(n: i64) -> (r: String)
    ensures
        r@ == signed_decimal(n as int),
{
    let mut v: Vec<char> = Vec::new();
    if n < 0 {
        v.push('-');
        let m: u64 = if n == i64::MIN { 9223372036854775808u64 } else { (-n) as u64 };
        push_decimal(m, &mut v);
        assert(v@ =~= seq!['-'] + decimal((-n) as nat));
    } else {
        push_decimal(n as u64, &mut v);
        assert(v@ =~= decimal(n as nat));
    }
    string_of(&v)
}


/// `rel` appended to the path `base` (what `Path::join` gives on Unix): an
/// absolute `rel` replaces `base`, and a separator is put between them
/// unless `base` is empty or already ends with one.
pub open spec fn path_join(base: Seq<char>, rel: Seq<char>) -> Seq<char> {
    if rel.len() > 0 && rel[0] == '/' {
        rel
    } else if base.len() == 0 || base.last() == '/' {
        base + rel
    } else {
        base + seq!['/'] + rel
    }
}

/// The path `rel` appended to the path `base`.
pub fn join_path(base: &str, rel: &str) -> (r: String)
    ensures
        r@ == path_join(base@, rel@),
{
    let b = chars_of(base);
    let mut x = chars_of(rel);
    if x.len() > 0 && x[0] == '/' {
        return string_of(&x);
    }
    let mut out = b;
    if out.len() > 0 && out[out.len() - 1] != '/' {
        out.push('/');
    }
    append_chars(&mut out, &x);
    string_of(&out)
}

/// A path component that names something: neither empty nor `.`.
pub open spec fn is_named(c: Seq<char>) -> bool {
    c.len() > 0 && c != seq!['.']
}

/// The last of `parts` that names something.
pub open spec fn last_named(parts: Seq<Seq<char>>) -> Option<Seq<char>>
    decreases parts.len(),
{
    if parts.len() == 0 {
        None
    } else if is_named(parts.last()) {
        Some(parts.last())
    } else {
        last_named(parts.drop_last())
    }
}

/// The last component of the path `s`, unless the path has none or ends in
/// `..` (what `Path::file_name` returns on Unix).
pub open spec fn file_name(s: Seq<char>) -> Option<Seq<char>> {
    match last_named(split(s, seq!['/'])) {
        None => None,
        Some(c) => if c == seq!['.', '.'] {
            None
        } else {
            Some(c)
        },
    }
}

/// The characters of `s` after position `k`.
pub open spec fn after(s: Seq<char>, k: int) -> Seq<char> {
    s.subrange(k + 1, s.len() as int)
}

/// `k` is the position of the last `.` in `s`.
pub open spec fn last_dot(s: Seq<char>, k: int) -> bool {
    &&& 0 <= k < s.len()
    &&& s[k] == '.'
    &&& forall|j: int| k < j < s.len() ==> s[j] != '.'
}

/// The extension of the path `s`: what follows the last `.` of its file
/// name, when that dot is not the name's first character (what
/// `Path::extension` returns).
pub open spec fn extension(s: Seq<char>) -> Option<Seq<char>> {
    match file_name(s) {
        None => None,
        Some(f) => if exists|k: int| 0 < k && last_dot(f, k) {
            Some(after(f, choose|k: int| 0 < k && last_dot(f, k)))
        } else {
            None
        },
    }
}


/// The last component of the path `s`, if it names a file or directory.
pub fn file_name_of(s: &str) -> (r: Option<String>)
    ensures
        r matches Some(x) ==> file_name(s@) == Some(x@),
        r is None ==> file_name(s@) is None,
{
    proof {
        reveal_strlit("/");
    }
    let parts = split_str(s, "/");
    assert("/"@ =~= seq!['/']);
    let mut i: usize = parts.len();
    assert(views(parts@).take(i as int) =~= views(parts@));
    while i > 0
        invariant
            i <= parts.len(),
            views(parts@) == split(s@, seq!['/']),
            last_named(views(parts@)) == last_named(views(parts@).take(i as int)),
        decreases i,
    {
        let c = chars_of(parts[i - 1].as_str());
        let ghost p = views(parts@).take(i as int);
        assert(p.last() == c@);
        assert(p.drop_last() =~= views(parts@).take(i - 1));
        let dot: Vec<char> = vec!['.'];
        assert(dot@ =~= seq!['.']);
        let named = c.len() > 0 && !chars_eq(&c, &dot);
        if named {
            assert(last_named(p) == Some(c@));
            let dots: Vec<char> = vec!['.', '.'];
            assert(dots@ =~= seq!['.', '.']);
            if chars_eq(&c, &dots) {
                return None;
            }
            return Some(string_of(&c));
        }
        assert(last_named(p) == last_named(p.drop_last()));
        i = i - 1;
    }
    None
}

/// The extension of the path `s`, if its file name has one.
pub fn extension_of(s: &str) -> (r: Option<String>)
    ensures
        r matches Some(x) ==> extension(s@) == Some(x@),
        r is None ==> extension(s@) is None,
{
    match file_name_of(s) {
        None => None,
        Some(f) => {
            let cs = chars_of(f.as_str());
            let mut k: usize = cs.len();
            while k > 0 && cs[k - 1] != '.'
                invariant
                    k <= cs.len(),
                    forall|j: int| k <= j < cs.len() ==> cs@[j] != '.',
                decreases k,
            {
                k = k - 1;
            }
            if k <= 1 {
                proof {
                    if exists|m: int| 0 < m && last_dot(cs@, m) {
                        let m = choose|m: int| 0 < m && last_dot(cs@, m);
                        if k == 1 {
                            assert(last_dot(cs@, 0));
                        }
                    }
                }
                None
            } else {
                let ghost m = k - 1;
                assert(last_dot(cs@, m));
                assert forall|m2: int| 0 < m2 && last_dot(cs@, m2) implies m2 == m by {
                    if m2 < m {
                        assert(cs@[m] != '.');
                    }
                }
                Some(substring(&cs, k, cs.len()))
            }
        },
    }
}


/// `a` sorts strictly before `b`, comparing characters by code point and a
/// proper prefix before the longer string (the order of `String`).
pub open spec fn lex_lt(a: Seq<char>, b: Seq<char>) -> bool
    decreases a.len(),
{
    if a.len() == 0 {
        b.len() > 0
    } else if b.len() == 0 {
        false
    } else if (a[0] as int) < (b[0] as int) {
        true
    } else if a[0] == b[0] {
        lex_lt(a.skip(1), b.skip(1))
    } else {
        false
    }
}

/// The order is irreflexive.
pub proof fn lemma_lex_irreflexive(a: Seq<char>)
    ensures
        !lex_lt(a, a),
    decreases a.len(),
{
    if a.len() > 0 {
        lemma_lex_irreflexive(a.skip(1));
    }
}

/// The order is transitive.
pub proof fn lemma_lex_transitive(a: Seq<char>, b: Seq<char>, c: Seq<char>)
    requires
        lex_lt(a, b),
        lex_lt(b, c),
    ensures
        lex_lt(a, c),
    decreases a.len(),
{
    if a.len() > 0 && b.len() > 0 && c.len() > 0 {
        if a[0] == b[0] && b[0] == c[0] {
            lemma_lex_transitive(a.skip(1), b.skip(1), c.skip(1));
        }
    }
}

/// Two different strings are ordered one way or the other.
pub proof fn lemma_lex_total(a: Seq<char>, b: Seq<char>)
    requires
        a != b,
    ensures
        lex_lt(a, b) || lex_lt(b, a),
    decreases a.len(),
{
    if a.len() > 0 && b.len() > 0 && a[0] == b[0] {
        if a.skip(1) == b.skip(1) {
            assert(a =~= seq![a[0]] + a.skip(1));
            assert(b =~= seq![b[0]] + b.skip(1));
        }
        lemma_lex_total(a.skip(1), b.skip(1));
    } else if a.len() > 0 && b.len() > 0 {
        assert((a[0] as int) != (b[0] as int));
    } else if a.len() == 0 && b.len() == 0 {
        assert(a =~= b);
    }
}

/// Whether `a` sorts strictly before `b`.
pub fn chars_lt(a: &Vec<char>, b: &Vec<char>) -> (r: bool)
    ensures
        r == lex_lt(a@, b@),
{
    let mut i: usize = 0;
    assert(a@.skip(0) =~= a@);
    assert(b@.skip(0) =~= b@);
    while i < a.len() && i < b.len() && a[i] == b[i]
        invariant
            i <= a.len(),
            i <= b.len(),
            lex_lt(a@, b@) == lex_lt(a@.skip(i as int), b@.skip(i as int)),
        decreases a.len() - i,
    {
        assert(a@.skip(i as int).skip(1) =~= a@.skip(i + 1));
        assert(b@.skip(i as int).skip(1) =~= b@.skip(i + 1));
        i = i + 1;
    }
    if i == a.len() {
        i < b.len()
    } else if i == b.len() {
        false
    } else {
        a[i] < b[i]
    }
}


/// `c` is a decimal digit.
pub open spec fn is_digit(c: char) -> bool {
    '0' <= c <= '9'
}

/// The number the decimal digits `d` denote.
pub open spec fn digits_value(d: Seq<char>) -> nat
    decreases d.len(),
{
    if d.len() == 0 {
        0
    } else {
        digits_value(d.drop_last()) * 10 + ((d.last() as int) - 48) as nat
    }
}

/// The digits after an optional leading `+`.
pub open spec fn unsigned_digits(s: Seq<char>) -> Seq<char> {
    if s.len() > 0 && s[0] == '+' {
        s.skip(1)
    } else {
        s
    }
}

/// The unsigned number `s` denotes: an optional `+` followed by at least
/// one decimal digit.
pub open spec fn unsigned_value(s: Seq<char>) -> Option<nat> {
    let d = unsigned_digits(s);
    if d.len() > 0 && forall|i: int| 0 <= i < d.len() ==> is_digit(#[trigger] d[i]) {
        Some(digits_value(d))
    } else {
        None
    }
}

/// The `u32` that `s` denotes (what `str::parse::<u32>` accepts).
pub open spec fn u32_value(s: Seq<char>) -> Option<u32> {
    match unsigned_value(s) {
        Some(n) => if n <= u32::MAX {
            Some(n as u32)
        } else {
            None
        },
        None => None,
    }
}

proof fn lemma_digits_grow(d: Seq<char>, i: int)
    requires
        0 <= i <= d.len(),
        forall|k: int| 0 <= k < d.len() ==> is_digit(#[trigger] d[k]),
    ensures
        digits_value(d.take(i)) <= digits_value(d),
    decreases d.len() - i,
{
    if i < d.len() {
        lemma_digits_grow(d, i + 1);
        assert(d.take(i + 1).drop_last() =~= d.take(i));
    } else {
        assert(d.take(i) =~= d);
    }
}

/// The number at most `max` that `s` denotes, if it denotes one.
pub fn parse_unsigned(s: &str, max: u64) -> (r: Option<u64>)
    requires
        max <= u32::MAX * 4294967296 + u32::MAX,
    ensures
        r == match unsigned_value(s@) {
            Some(n) => if n <= max {
                Some(n as u64)
            } else {
                None::<u64>
            },
            None => None::<u64>,
        },
{
    let cs = chars_of(s);
    let start: usize = if cs.len() > 0 && cs[0] == '+' { 1 } else { 0 };
    let ghost d = unsigned_digits(cs@);
    assert(d =~= cs@.skip(start as int));
    if start >= cs.len() {
        return None;
    }
    let mut acc: u64 = 0;
    let mut i: usize = start;
    while i < cs.len()
        invariant
            start <= i <= cs.len(),
            cs@ == s@,
            start < cs.len(),
            d == unsigned_digits(s@),
            d == cs@.skip(start as int),
            forall|k: int| 0 <= k < i - start ==> is_digit(#[trigger] d[k]),
            acc == digits_value(d.take(i - start)),
            acc <= max,
        decreases cs.len() - i,
    {
        let c = cs[i];
        if !('0' <= c && c <= '9') {
            assert(!is_digit(d[i - start]));
            return None;
        }
        let dv = (c as u32 - 48) as u64;
        assert(d.take(i + 1 - start).drop_last() =~= d.take(i - start));
        assert(d.take(i + 1 - start).last() == c);
        if dv > max || acc > (max - dv) / 10 {
            proof {
                assert(acc * 10 + dv > max) by (nonlinear_arith)
                    requires
                        dv > max || acc > (max - dv) / 10,
                        acc >= 0,
                        dv >= 0,
                ;
                let k = i + 1 - start;
                if forall|m: int| 0 <= m < d.len() ==> is_digit(#[trigger] d[m]) {
                    lemma_digits_grow(d, k as int);
                }
            }
            return None;
        }
        acc = acc * 10 + dv;
        i = i + 1;
    }
    assert(d.take(d.len() as int) =~= d);
    Some(acc)
}

/// The `u32` that `s` denotes, if it denotes one.
pub fn parse_u32(s: &str) -> (r: Option<u32>)
    ensures
        r == u32_value(s@),
{
    match parse_unsigned(s, 4294967295u64) {
        Some(n) => Some(n as u32),
        None => None,
    }
}

/// The `u64` that `s` denotes (what `str::parse::<u64>` accepts).
pub open spec fn u64_value(s: Seq<char>) -> Option<u64> {
    match unsigned_value(s) {
        Some(n) => if n <= u64::MAX {
            Some(n as u64)
        } else {
            None
        },
        None => None,
    }
}

/// The `u64` that `s` denotes, if it denotes one.
pub fn parse_u64(s: &str) -> (r: Option<u64>)
    ensures
        r == u64_value(s@),
{
    parse_unsigned(s, 18446744073709551615u64)
}

/// The `usize` that `s` denotes (what `str::parse::<usize>` accepts).
pub open spec fn usize_value(s: Seq<char>) -> Option<usize> {
    match unsigned_value(s) {
        Some(n) => if n <= usize::MAX {
            Some(n as usize)
        } else {
            None
        },
        None => None,
    }
}

/// The `usize` that `s` denotes, if it denotes one.
pub fn parse_usize(s: &str) -> (r: Option<usize>)
    ensures
        r == usize_value(s@),
{
    match parse_unsigned(s, usize::MAX as u64) {
        Some(n) => Some(n as usize),
        None => None,
    }
}

/// The integer `s` denotes: an optional sign followed by at least one
/// decimal digit.
pub open spec fn signed_value(s: Seq<char>) -> Option<int> {
    if s.len() > 0 && s[0] == '-' {
        let d = s.skip(1);
        if d.len() > 0 && forall|i: int| 0 <= i < d.len() ==> is_digit(#[trigger] d[i]) {
            Some(-(digits_value(d) as int))
        } else {
            None
        }
    } else {
        match unsigned_value(s) {
            Some(n) => Some(n as int),
            None => None,
        }
    }
}

/// The `i32` that `s` denotes (what `str::parse::<i32>` accepts).
pub open spec fn i32_value(s: Seq<char>) -> Option<i32> {
    match signed_value(s) {
        Some(n) => if i32::MIN <= n <= i32::MAX {
            Some(n as i32)
        } else {
            None
        },
        None => None,
    }
}

/// The `i32` that `s` denotes, if it denotes one.
pub fn parse_i32(s: &str) -> (r: Option<i32>)
    ensures
        r == i32_value(s@),
{
    let cs = chars_of(s);
    if cs.len() > 0 && cs[0] == '-' {
        let rest = substring(&cs, 1, cs.len());
        assert(rest@ == s@.skip(1));
        if cs.len() > 1 && cs[1] == '+' {
            proof {
                assert(!is_digit(rest@[0]));
            }
            return None;
        }
        assert(unsigned_digits(rest@) == rest@);
        match parse_unsigned(rest.as_str(), 2147483648u64) {
            Some(n) => {
                let v: i64 = -(n as i64);
                Some(v as i32)
            },
            None => None,
        }
    } else {
        match parse_unsigned(s, 2147483647u64) {
            Some(n) => Some(n as i32),
            None => None,
        }
    }
}

/// `true` or `false`, as `str::parse::<bool>` reads them.
pub open spec fn bool_value(s: Seq<char>) -> Option<bool> {
    if s == "true"@ {
        Some(true)
    } else if s == "false"@ {
        Some(false)
    } else {
        None
    }
}

/// The boolean `s` names, if it names one.
pub fn parse_bool(s: &str) -> (r: Option<bool>)
    ensures
        r == bool_value(s@),
{
    if str_eq(s, "true") {
        Some(true)
    } else if str_eq(s, "false") {
        Some(false)
    } else {
        None
    }
}

/// Reading back the decimal text of a number gives the number: every
/// character of `decimal(n)` is a digit, and together they denote `n`.
pub proof fn lemma_decimal_reads_back(n: nat)
    ensures
        unsigned_value(decimal(n)) == Some(n),
        decimal(n).len() > 0,
        forall|i: int| 0 <= i < decimal(n).len() ==> is_digit(#[trigger] decimal(n)[i]),
    decreases n,
{
    let d = decimal(n);
    if n < 10 {
        assert(d.drop_last().len() == 0);
        assert(digits_value(d.drop_last()) == 0);
        assert((d.last() as int) == n + 48);
    } else {
        lemma_decimal_reads_back(n / 10);
        let p = decimal(n / 10);
        assert(d == p.push(digit(n % 10)));
        assert(d.drop_last() =~= p);
        assert((d.last() as int) == n % 10 + 48);
        assert(digits_value(d) == digits_value(p) * 10 + n % 10);
        assert(n == (n / 10) * 10 + n % 10) by (nonlinear_arith);
        assert forall|i: int| 0 <= i < d.len() implies is_digit(#[trigger] d[i]) by {
            if i < p.len() {
                assert(d[i] == p[i]);
            }
        }
    }
    assert(d[0] != '+');
    assert(unsigned_digits(d) == d);
}

/// The text of a `u64` reads back as that `u64`.
pub proof fn lemma_u64_reads_back(n: u64)
    ensures
        u64_value(decimal(n as nat)) == Some(n),
{
    lemma_decimal_reads_back(n as nat);
}

/// The text of a `u32` reads back as that `u32`.
pub proof fn lemma_u32_reads_back(n: u32)
    ensures
        u32_value(decimal(n as nat)) == Some(n),
{
    lemma_decimal_reads_back(n as nat);
}

/// The text of a `usize` reads back as that `usize`.
pub proof fn lemma_usize_reads_back(n: usize)
    ensures
        usize_value(decimal(n as nat)) == Some(n),
{
    lemma_decimal_reads_back(n as nat);
}

/// The text of a boolean reads back as that boolean.
pub proof fn lemma_bool_reads_back(b: bool)
    ensures
        bool_value(if b { "true"@ } else { "false"@ }) == Some(b),
{
    reveal_strlit("true");
    reveal_strlit("false");
    assert("true"@.len() != "false"@.len());
}

proof fn lemma_split_plain(a: Seq<char>, rest: Seq<char>, c: char, cur: Seq<char>)
    requires
        forall|k: int| 0 <= k < a.len() ==> a[k] != c,
    ensures
        split_from(a + rest, seq![c], cur) == split_from(rest, seq![c], cur + a),
    decreases a.len(),
{
    if a.len() == 0 {
        assert(a + rest =~= rest);
        assert(cur + a =~= cur);
    } else {
        let s = a + rest;
        assert(s[0] == a[0]);
        assert(s.subrange(0, 1)[0] == a[0]);
        assert(!starts_with(s, seq![c]));
        assert(s.skip(1) =~= a.skip(1) + rest);
        lemma_split_plain(a.skip(1), rest, c, cur.push(s[0]));
        assert(cur.push(a[0]) + a.skip(1) =~= cur + a);
    }
}

/// Two pieces free of the character `c`, joined by `c`, split at `c` into
/// those two pieces.
pub proof fn lemma_split_pair(a: Seq<char>, b: Seq<char>, c: char)
    requires
        forall|k: int| 0 <= k < a.len() ==> a[k] != c,
        forall|k: int| 0 <= k < b.len() ==> b[k] != c,
    ensures
        split(a + seq![c] + b, seq![c]) == seq![a, b],
{
    let sep = seq![c];
    let tail = sep + b;
    assert(a + sep + b =~= a + tail);
    lemma_split_plain(a, tail, c, seq![]);
    assert(Seq::<char>::empty() + a =~= a);
    assert(starts_with(tail, sep)) by {
        assert(tail.subrange(0, 1) =~= sep);
    }
    assert(tail.skip(1) =~= b);
    assert(b =~= b + Seq::<char>::empty());
    lemma_split_plain(b, Seq::<char>::empty(), c, seq![]);
    assert(Seq::<char>::empty() + b =~= b);
    assert(split_from(Seq::<char>::empty(), sep, b) == seq![b + Seq::<char>::empty()]);
    assert(seq![a] + seq![b] =~= seq![a, b]);
}

proof fn lemma_split_last(s: Seq<char>, x: Seq<char>, c: char, cur: Seq<char>)
    requires
        forall|k: int| 0 <= k < x.len() ==> x[k] != c,
    ensures
        split_from(s + seq![c] + x, seq![c], cur) == split_from(s, seq![c], cur) + seq![x],
    decreases s.len(),
{
    let sep = seq![c];
    let t = s + sep + x;
    if s.len() == 0 {
        assert(t =~= sep + x);
        assert(starts_with(t, sep)) by {
            assert(t.subrange(0, 1) =~= sep);
        }
        assert(t.skip(1) =~= x);
        lemma_split_plain(x, Seq::<char>::empty(), c, seq![]);
        assert(x + Seq::<char>::empty() =~= x);
        assert(Seq::<char>::empty() + x =~= x);
        assert(split_from(Seq::<char>::empty(), sep, x) == seq![x + Seq::<char>::empty()]);
        assert(cur + s =~= cur);
        assert(seq![cur] + seq![x] =~= seq![cur, x]);
    } else {
        assert(t[0] == s[0]);
        assert(t.subrange(0, 1) =~= s.subrange(0, 1));
        assert(t.skip(1) =~= s.skip(1) + sep + x);
        if starts_with(s, sep) {
            lemma_split_last(s.skip(1), x, c, seq![]);
            assert(seq![cur] + (split_from(s.skip(1), sep, seq![]) + seq![x]) =~= seq![cur]
                + split_from(s.skip(1), sep, seq![]) + seq![x]);
        } else {
            lemma_split_last(s.skip(1), x, c, cur.push(s[0]));
        }
    }
}

/// A piece that holds no comma and no surrounding whitespace, and is not
/// empty: it reads back from a comma-separated list as itself.
pub open spec fn plain_item(p: Seq<char>) -> bool {
    &&& p.len() > 0
    &&& forall|k: int| 0 <= k < p.len() ==> p[k] != ','
    &&& trim(p) == p
}

/// The pieces of `parts` joined with `", "` split at commas: the first part,
/// then each later part behind a space.
pub proof fn lemma_split_comma_list(parts: Seq<Seq<char>>)
    requires
        parts.len() > 0,
        forall|i: int, k: int|
            0 <= i < parts.len() && 0 <= k < parts[i].len() ==> #[trigger] parts[i][k] != ',',
    ensures
        split(join(parts, ", "@), seq![',']) == seq![parts[0]] + parts.skip(1).map_values(
            |p: Seq<char>| seq![' '] + p,
        ),
    decreases parts.len(),
{
    reveal_strlit(", ");
    if parts.len() == 1 {
        lemma_split_plain(parts[0], Seq::<char>::empty(), ',', seq![]);
        assert(parts[0] + Seq::<char>::empty() =~= parts[0]);
        assert(Seq::<char>::empty() + parts[0] =~= parts[0]);
        assert(split_from(Seq::<char>::empty(), seq![','], parts[0]) == seq![parts[0] + Seq::<char>::empty()]);
        assert(parts.skip(1).map_values(|p: Seq<char>| seq![' '] + p) =~= Seq::<Seq<char>>::empty());
        assert(seq![parts[0]] + Seq::<Seq<char>>::empty() =~= seq![parts[0]]);
    } else {
        let init = parts.drop_last();
        let last = parts.last();
        lemma_split_comma_list(init);
        let x = seq![' '] + last;
        assert forall|k: int| 0 <= k < x.len() implies x[k] != ',' by {
            if k > 0 {
                assert(x[k] == last[k - 1]);
                assert(parts[parts.len() - 1][k - 1] != ',');
            }
        }
        assert(", "@ =~= seq![','] + seq![' ']);
        assert(join(parts, ", "@) =~= join(init, ", "@) + seq![','] + x);
        lemma_split_last(join(init, ", "@), x, ',', seq![]);
        assert(init[0] == parts[0]);
        assert(parts.skip(1).map_values(|p: Seq<char>| seq![' '] + p) =~= init.skip(1).map_values(
            |p: Seq<char>| seq![' '] + p,
        ).push(x));
    }
}

/// A plain item behind a space trims back to itself.
pub proof fn lemma_trim_spaced(p: Seq<char>)
    requires
        trim(p) == p,
    ensures
        trim(seq![' '] + p) == p,
{
    let q = seq![' '] + p;
    assert(is_ws(q[0]));
    assert(q.skip(1) =~= p);
    assert(trim_start(q) == trim_start(p));
}

/// The decimal text of an integer reads back as that integer.
pub proof fn lemma_signed_decimal_reads_back(n: int)
    ensures
        signed_value(signed_decimal(n)) == Some(n),
{
    if n < 0 {
        let d = decimal((-n) as nat);
        lemma_decimal_reads_back((-n) as nat);
        let s = seq!['-'] + d;
        assert(s.skip(1) =~= d);
        assert(s[0] == '-');
    } else {
        lemma_decimal_reads_back(n as nat);
        let d = decimal(n as nat);
        assert(d[0] != '-');
    }
}

} // verus!
