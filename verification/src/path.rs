//! How the library reads a Windows path: its file name and its extension.
//!
//! A path may begin with a prefix, which never counts as a component:
//! - a verbatim prefix, `\\?\` written with backslashes, followed by
//!   `UNC\server\share`, by a drive `C:` and a backslash, or by any name;
//! - a device prefix, `\\.\` and a device name;
//! - a share prefix, two separators, a server name and a share name, both
//!   non-empty;
//! - a drive, a letter and `:`.
//!
//! After a verbatim prefix only `\` separates components and `.` is a
//! component of its own; elsewhere `\` and `/` both separate components and
//! `.` components are skipped. Empty components are always skipped, so a
//! trailing separator does not change the file name.
use vstd::prelude::*;
use crate::text::{chars_of, eq_ignoring_case, chars_eq_ignore_ascii_case, fold_case};

verus! {

/// Whether `c` separates path components outside verbatim paths.
pub open spec fn is_separator(c: char) -> bool {
    c == '\\' || c == '/'
}

/// Whether `c` separates path components: only `\` in a verbatim path.
pub open spec fn separates(c: char, verbatim: bool) -> bool {
    if verbatim {
        c == '\\'
    } else {
        is_separator(c)
    }
}

/// Whether `c` is an ASCII letter.
pub open spec fn is_ascii_alpha(c: char) -> bool {
    ('a' <= c && c <= 'z') || ('A' <= c && c <= 'Z')
}

/// The index of the first separator at or after `i`, or the length of `s`.
pub open spec fn next_separator(s: Seq<char>, i: int, verbatim: bool) -> int
    decreases s.len() - i,
{
    if i >= s.len() {
        s.len() as int
    } else if separates(s[i], verbatim) {
        i
    } else {
        next_separator(s, i + 1, verbatim)
    }
}

/// Whether the path starts with the verbatim marker `\\?\`.
pub open spec fn is_verbatim(s: Seq<char>) -> bool {
    s.len() >= 4 && s[0] == '\\' && s[1] == '\\' && s[2] == '?' && s[3] == '\\'
}

/// Whether the path starts with `\\?\UNC\`.
pub open spec fn is_verbatim_unc(s: Seq<char>) -> bool {
    is_verbatim(s) && s.len() >= 8 && s[4] == 'U' && s[5] == 'N' && s[6] == 'C' && s[7] == '\\'
}

/// Whether the path starts with `\\?\`, a drive and a backslash.
pub open spec fn is_verbatim_disk(s: Seq<char>) -> bool {
    is_verbatim(s) && !is_verbatim_unc(s) && s.len() >= 7 && is_ascii_alpha(s[4]) && s[5] == ':'
        && s[6] == '\\'
}

/// Whether the path starts with a device prefix `\\.\`.
pub open spec fn is_device(s: Seq<char>) -> bool {
    !is_verbatim(s) && s.len() >= 4 && is_separator(s[0]) && is_separator(s[1]) && s[2] == '.'
        && is_separator(s[3])
}

/// The end of a server and share pair that starts at `start`, or `None`
/// when the share is empty.
pub open spec fn share_end(s: Seq<char>, start: int, verbatim: bool) -> Option<int> {
    let server_end = next_separator(s, start, verbatim);
    if server_end >= s.len() {
        None
    } else {
        let end = next_separator(s, server_end + 1, verbatim);
        if end == server_end + 1 {
            None
        } else {
            Some(end)
        }
    }
}

/// The length of the prefix of `s`.
pub open spec fn prefix_len(s: Seq<char>) -> int {
    if is_verbatim(s) {
        if is_verbatim_unc(s) {
            match share_end(s, 8, true) {
                Some(end) => end,
                None => next_separator(s, 8, true),
            }
        } else if is_verbatim_disk(s) {
            6
        } else {
            next_separator(s, 4, true)
        }
    } else if is_device(s) {
        next_separator(s, 4, false)
    } else if s.len() >= 2 && is_separator(s[0]) && is_separator(s[1]) {
        if next_separator(s, 2, false) == 2 {
            0
        } else {
            match share_end(s, 2, false) {
                Some(end) => end,
                None => 0,
            }
        }
    } else if s.len() >= 2 && is_ascii_alpha(s[0]) && s[1] == ':' {
        2
    } else {
        0
    }
}

/// The start of the component that ends at `end`, not before `lo`.
pub open spec fn component_start(s: Seq<char>, lo: int, end: int, verbatim: bool) -> int
    decreases end - lo,
{
    if end <= lo {
        lo
    } else if separates(s[end - 1], verbatim) {
        end
    } else {
        component_start(s, lo, end - 1, verbatim)
    }
}

/// Whether the character at `i` is a `.` component by itself.
pub open spec fn is_dot_component_end(s: Seq<char>, lo: int, i: int, verbatim: bool) -> bool {
    s[i] == '.' && (i == lo || separates(s[i - 1], verbatim))
}

/// The bounds of the last component of `s[lo..end]` that is not empty, and
/// outside verbatim paths not `.`.
pub open spec fn last_component(s: Seq<char>, lo: int, end: int, verbatim: bool) -> Option<(int, int)>
    decreases end - lo,
{
    if end <= lo {
        None
    } else if separates(s[end - 1], verbatim) || (!verbatim && is_dot_component_end(
        s,
        lo,
        end - 1,
        verbatim,
    )) {
        last_component(s, lo, end - 1, verbatim)
    } else {
        Some((component_start(s, lo, end, verbatim), end))
    }
}

/// The file name of a path: its last component, unless that is `.` or `..`
/// or there is none.
pub open spec fn file_name(s: Seq<char>) -> Option<Seq<char>> {
    match last_component(s, prefix_len(s), s.len() as int, is_verbatim(s)) {
        None => None,
        Some((b, e)) => {
            let name = s.subrange(b, e);
            if name =~= seq!['.', '.'] || name =~= seq!['.'] {
                None
            } else {
                Some(name)
            }
        },
    }
}

/// The index of the last `c` in `t[..end]`, or -1.
pub open spec fn last_index_of(t: Seq<char>, c: char, end: int) -> int
    decreases end,
{
    if end <= 0 {
        -1
    } else if t[end - 1] == c {
        end - 1
    } else {
        last_index_of(t, c, end - 1)
    }
}

/// The extension of a file name: what follows its last `.`, unless there is
/// no `.` or the only one is the first character.
pub open spec fn name_extension(name: Seq<char>) -> Option<Seq<char>> {
    let d = last_index_of(name, '.', name.len() as int);
    if d <= 0 {
        None
    } else {
        Some(name.subrange(d + 1, name.len() as int))
    }
}

/// The extension of a path: that of its file name.
pub open spec fn extension(s: Seq<char>) -> Option<Seq<char>> {
    match file_name(s) {
        None => None,
        Some(name) => name_extension(name),
    }
}

/// Whether the path's extension equals `ext` without regard to ASCII case.
pub open spec fn has_extension(s: Seq<char>, ext: Seq<char>) -> bool {
    match extension(s) {
        None => false,
        Some(e) => eq_ignoring_case(e, ext),
    }
}

proof fn lemma_fold_keeps_kind(a: char, b: char)
    requires
        fold_case(a) == fold_case(b),
    ensures
        is_separator(a) == is_separator(b),
        (a == '\\') == (b == '\\'),
        (a == '?') == (b == '?'),
        (a == '.') == (b == '.'),
        (a == ':') == (b == ':'),
        is_ascii_alpha(a) == is_ascii_alpha(b),
{
}

proof fn lemma_fold_at(s: Seq<char>, t: Seq<char>, i: int)
    requires
        eq_ignoring_case(s, t),
        0 <= i < s.len(),
    ensures
        is_separator(s[i]) == is_separator(t[i]),
        (s[i] == '\\') == (t[i] == '\\'),
        (s[i] == '?') == (t[i] == '?'),
        (s[i] == '.') == (t[i] == '.'),
        (s[i] == ':') == (t[i] == ':'),
        is_ascii_alpha(s[i]) == is_ascii_alpha(t[i]),
{
    assert(fold_case(s[i]) == fold_case(t[i]));
    lemma_fold_keeps_kind(s[i], t[i]);
}

proof fn lemma_next_separator_folded(s: Seq<char>, t: Seq<char>, i: int, v: bool)
    requires
        eq_ignoring_case(s, t),
        0 <= i,
    ensures
        next_separator(s, i, v) == next_separator(t, i, v),
    decreases s.len() - i,
{
    if i < s.len() {
        lemma_fold_at(s, t, i);
        lemma_next_separator_folded(s, t, i + 1, v);
    }
}

proof fn lemma_next_separator_bounds(s: Seq<char>, i: int, v: bool)
    requires
        0 <= i,
    ensures
        i <= s.len() ==> i <= next_separator(s, i, v) <= s.len(),
        i > s.len() ==> next_separator(s, i, v) == s.len(),
    decreases s.len() - i,
{
    if i < s.len() && !separates(s[i], v) {
        lemma_next_separator_bounds(s, i + 1, v);
    }
}

proof fn lemma_share_end_folded(s: Seq<char>, t: Seq<char>, start: int, v: bool)
    requires
        eq_ignoring_case(s, t),
        0 <= start <= s.len(),
    ensures
        share_end(s, start, v) == share_end(t, start, v),
        share_end(s, start, v) matches Some(e) ==> start <= e <= s.len(),
{
    lemma_next_separator_folded(s, t, start, v);
    lemma_next_separator_bounds(s, start, v);
    let e = next_separator(s, start, v);
    if e < s.len() {
        lemma_next_separator_folded(s, t, e + 1, v);
        lemma_next_separator_bounds(s, e + 1, v);
    }
}

proof fn lemma_component_start_folded(s: Seq<char>, t: Seq<char>, lo: int, end: int, v: bool)
    requires
        eq_ignoring_case(s, t),
        0 <= lo,
        end <= s.len(),
    ensures
        component_start(s, lo, end, v) == component_start(t, lo, end, v),
    decreases end - lo,
{
    if end > lo {
        lemma_fold_at(s, t, end - 1);
        lemma_component_start_folded(s, t, lo, end - 1, v);
    }
}

proof fn lemma_last_component_folded(s: Seq<char>, t: Seq<char>, lo: int, end: int, v: bool)
    requires
        eq_ignoring_case(s, t),
        0 <= lo,
        end <= s.len(),
    ensures
        last_component(s, lo, end, v) == last_component(t, lo, end, v),
    decreases end - lo,
{
    if end > lo {
        lemma_fold_at(s, t, end - 1);
        if end - 1 > lo {
            lemma_fold_at(s, t, end - 2);
        }
        lemma_last_component_folded(s, t, lo, end - 1, v);
        lemma_component_start_folded(s, t, lo, end, v);
    }
}

proof fn lemma_prefix_len_bounds(s: Seq<char>)
    ensures
        0 <= prefix_len(s) <= s.len(),
{
    lemma_next_separator_bounds(s, 2, false);
    lemma_next_separator_bounds(s, 4, false);
    lemma_next_separator_bounds(s, 4, true);
    lemma_next_separator_bounds(s, 8, true);
    if s.len() >= 2 {
        let e = next_separator(s, 2, false);
        if e < s.len() {
            lemma_next_separator_bounds(s, e + 1, false);
        }
    }
    if s.len() >= 8 {
        let e = next_separator(s, 8, true);
        if e < s.len() {
            lemma_next_separator_bounds(s, e + 1, true);
        }
    }
}

proof fn lemma_prefix_len_folded(s: Seq<char>, t: Seq<char>)
    requires
        eq_ignoring_case(s, t),
        is_verbatim_unc(s) == is_verbatim_unc(t),
    ensures
        prefix_len(s) == prefix_len(t),
        is_verbatim(s) == is_verbatim(t),
{
    lemma_prefix_len_bounds(s);
    let n = if s.len() < 8 { s.len() as int } else { 8 };
    assert forall|i: int| 0 <= i < n implies {
        &&& is_separator(s[i]) == is_separator(t[i])
        &&& (s[i] == '\\') == (t[i] == '\\')
        &&& (s[i] == '?') == (t[i] == '?')
        &&& (s[i] == '.') == (t[i] == '.')
        &&& (s[i] == ':') == (t[i] == ':')
        &&& is_ascii_alpha(s[i]) == is_ascii_alpha(t[i])
    } by {
        lemma_fold_at(s, t, i);
    }
    assert(is_verbatim(s) == is_verbatim(t));
    assert(is_verbatim_disk(s) == is_verbatim_disk(t));
    assert(is_device(s) == is_device(t));
    lemma_next_separator_folded(s, t, 2, false);
    lemma_next_separator_folded(s, t, 4, false);
    lemma_next_separator_folded(s, t, 4, true);
    lemma_next_separator_folded(s, t, 8, true);
    if s.len() >= 2 {
        lemma_share_end_folded(s, t, 2, false);
    }
    if s.len() >= 8 {
        lemma_share_end_folded(s, t, 8, true);
    }
}

proof fn lemma_component_start_bounds(s: Seq<char>, lo: int, end: int, v: bool)
    requires
        lo <= end,
    ensures
        lo <= component_start(s, lo, end, v) <= end,
    decreases end - lo,
{
    if end > lo && !separates(s[end - 1], v) {
        lemma_component_start_bounds(s, lo, end - 1, v);
    }
}

proof fn lemma_last_component_bounds(s: Seq<char>, lo: int, end: int, v: bool)
    requires
        0 <= lo,
        end <= s.len(),
    ensures
        last_component(s, lo, end, v) matches Some((b, e)) ==> lo <= b < e <= end,
    decreases end - lo,
{
    if end > lo {
        if separates(s[end - 1], v) || (!v && is_dot_component_end(s, lo, end - 1, v)) {
            lemma_last_component_bounds(s, lo, end - 1, v);
        } else {
            lemma_component_start_bounds(s, lo, end - 1, v);
        }
    }
}

proof fn lemma_component_start_shape(s: Seq<char>, lo: int, end: int, v: bool)
    requires
        0 <= lo <= end <= s.len(),
    ensures
        forall|i: int| component_start(s, lo, end, v) <= i < end ==> !separates(#[trigger] s[i], v),
    decreases end - lo,
{
    if end > lo && !separates(s[end - 1], v) {
        lemma_component_start_shape(s, lo, end - 1, v);
    }
}

proof fn lemma_last_component_shape(s: Seq<char>, lo: int, end: int, v: bool)
    requires
        0 <= lo,
        end <= s.len(),
    ensures
        last_component(s, lo, end, v) matches Some((b, e)) ==> {
            &&& lo <= b < e <= end
            &&& forall|i: int| b <= i < e ==> !separates(#[trigger] s[i], v)
        },
    decreases end - lo,
{
    if end > lo {
        if separates(s[end - 1], v) || (!v && is_dot_component_end(s, lo, end - 1, v)) {
            lemma_last_component_shape(s, lo, end - 1, v);
        } else {
            lemma_component_start_bounds(s, lo, end - 1, v);
            lemma_component_start_shape(s, lo, end, v);
        }
    }
}

/// A file name is one whole component: not empty, neither `.` nor `..`, and
/// without the separators of its path (only `\` in a verbatim path, `\` and
/// `/` elsewhere).
pub proof fn law_file_name_is_component(s: Seq<char>)
    requires
        file_name(s) is Some,
    ensures
        file_name(s)->0.len() > 0,
        forall|i: int|
            0 <= i < file_name(s)->0.len() ==> !separates(#[trigger] file_name(s)->0[i], is_verbatim(s)),
        file_name(s)->0 != seq!['.'],
        file_name(s)->0 != seq!['.', '.'],
{
    lemma_prefix_len_bounds(s);
    let v = is_verbatim(s);
    let lo = prefix_len(s);
    lemma_last_component_shape(s, lo, s.len() as int, v);
    let (b, e) = last_component(s, lo, s.len() as int, v)->0;
    let n = s.subrange(b, e);
    assert forall|i: int| 0 <= i < n.len() implies !separates(#[trigger] n[i], v) by {
        assert(n[i] == s[b + i]);
    }
}

/// Outside verbatim paths exactly `\` and `/` separate components; in a
/// verbatim path only `\` does.
pub proof fn law_separators(c: char)
    ensures
        separates(c, false) <==> (c == '\\' || c == '/'),
        separates(c, true) <==> c == '\\',
{
}

proof fn lemma_component_start_at_separator(s: Seq<char>, lo: int, p: int, end: int)
    requires
        lo < p <= end <= s.len(),
        separates(s[p - 1], false),
        forall|i: int| p <= i < end ==> !separates(#[trigger] s[i], false),
    ensures
        component_start(s, lo, end, false) == p,
    decreases end - p,
{
    if end > p {
        lemma_component_start_at_separator(s, lo, p, end - 1);
    }
}

/// The file name of a path on a drive, whatever its directories, that ends
/// in `\` and a name is that name, whenever the name is a single component:
/// not empty, without `\` or `/`, and neither `.` nor `..` (spaces, dots and
/// any other characters are part of it).
pub proof fn law_file_name_of_drive_path(drive: char, dirs: Seq<char>, name: Seq<char>)
    requires
        ('a' <= drive && drive <= 'z') || ('A' <= drive && drive <= 'Z'),
        name.len() > 0,
        forall|i: int| 0 <= i < name.len() ==> #[trigger] name[i] != '\\' && name[i] != '/',
        name != seq!['.'],
        name != seq!['.', '.'],
    ensures
        file_name(seq![drive, ':'] + dirs + seq!['\\'] + name) == Some(name),
{
    let s = seq![drive, ':'] + dirs + seq!['\\'] + name;
    let p: int = 3 + dirs.len() as int;
    let len = s.len() as int;
    assert(s[0] == drive && s[1] == ':');
    assert(!is_verbatim(s));
    assert(!is_device(s));
    assert(prefix_len(s) == 2);
    assert(s[p - 1] == '\\');
    assert forall|i: int| p <= i < len implies !separates(#[trigger] s[i], false) by {
        assert(s[i] == name[i - p]);
    }
    assert(s[len - 1] == name[name.len() - 1]);
    if name.len() >= 2 {
        assert(s[len - 2] == name[name.len() - 2]);
    } else {
        assert(name =~= seq![name[0]]);
        assert(name[0] != '.');
    }
    assert(!is_dot_component_end(s, 2, len - 1, false));
    lemma_component_start_at_separator(s, 2, p, len);
    assert(last_component(s, 2, len, false) == Some((p, len)));
    assert(s.subrange(p, len) =~= name);
}

/// Paths that are equal without regard to ASCII case have file names that
/// are equal without regard to ASCII case (or neither has one), unless only
/// one of them carries the `\\?\UNC\` marker in upper case: the marker is
/// recognised in upper case alone.
pub proof fn law_file_name_ignores_case(s: Seq<char>, t: Seq<char>)
    requires
        eq_ignoring_case(s, t),
        is_verbatim_unc(s) == is_verbatim_unc(t),
    ensures
        file_name(s) is Some <==> file_name(t) is Some,
        file_name(s) matches Some(a) ==> eq_ignoring_case(a, file_name(t)->0),
{
    lemma_prefix_len_folded(s, t);
    lemma_prefix_len_bounds(s);
    let v = is_verbatim(s);
    let lo = prefix_len(s);
    lemma_last_component_folded(s, t, lo, s.len() as int, v);
    lemma_last_component_bounds(s, lo, s.len() as int, v);
    match last_component(s, lo, s.len() as int, v) {
        None => {},
        Some((b, e)) => {
            let a = s.subrange(b, e);
            let c = t.subrange(b, e);
            assert forall|i: int| 0 <= i < a.len() implies #[trigger] fold_case(a[i]) == fold_case(c[i]) by {
                assert(fold_case(s[b + i]) == fold_case(t[b + i]));
            }
            assert(eq_ignoring_case(a, c));
            if e - b <= 2 {
                lemma_fold_at(s, t, b);
                if e - b == 2 {
                    lemma_fold_at(s, t, b + 1);
                }
                assert((a =~= seq!['.', '.']) == (c =~= seq!['.', '.']));
                assert((a =~= seq!['.']) == (c =~= seq!['.']));
            } else {
                assert(!(a =~= seq!['.', '.']) && !(c =~= seq!['.', '.']));
                assert(!(a =~= seq!['.']) && !(c =~= seq!['.']));
            }
        },
    }
}

fn is_sep(c: char, verbatim: bool) -> (r: bool)
    ensures
        r == separates(c, verbatim),
{
    if verbatim {
        c == '\\'
    } else {
        c == '\\' || c == '/'
    }
}

fn next_separator_from(v: &Vec<char>, i: usize, verbatim: bool) -> (r: usize)
    requires
        i <= v.len(),
    ensures
        r as int == next_separator(v@, i as int, verbatim),
        i <= r <= v.len(),
{
    let mut j = i;
    while j < v.len() && !is_sep(v[j], verbatim)
        invariant
            i <= j <= v.len(),
            next_separator(v@, j as int, verbatim) == next_separator(v@, i as int, verbatim),
        decreases v.len() - j,
    {
        j = j + 1;
    }
    j
}

fn share_end_of(v: &Vec<char>, start: usize, verbatim: bool) -> (r: Option<usize>)
    requires
        start <= v.len(),
    ensures
        r is None <==> share_end(v@, start as int, verbatim) is None,
        r matches Some(e) ==> share_end(v@, start as int, verbatim) == Some(e as int) && e <= v.len(),
{
    let server_end = next_separator_from(v, start, verbatim);
    if server_end >= v.len() {
        return None;
    }
    let end = next_separator_from(v, server_end + 1, verbatim);
    if end == server_end + 1 {
        None
    } else {
        Some(end)
    }
}

fn is_letter(c: char) -> (r: bool)
    ensures
        r == is_ascii_alpha(c),
{
    ('a' <= c && c <= 'z') || ('A' <= c && c <= 'Z')
}

fn starts_verbatim(v: &Vec<char>) -> (r: bool)
    ensures
        r == is_verbatim(v@),
{
    v.len() >= 4 && v[0] == '\\' && v[1] == '\\' && v[2] == '?' && v[3] == '\\'
}

fn prefix_length(v: &Vec<char>) -> (r: usize)
    ensures
        r as int == prefix_len(v@),
        r <= v.len(),
{
    if starts_verbatim(v) {
        if v.len() >= 8 && v[4] == 'U' && v[5] == 'N' && v[6] == 'C' && v[7] == '\\' {
            match share_end_of(v, 8, true) {
                Some(end) => end,
                None => next_separator_from(v, 8, true),
            }
        } else if v.len() >= 7 && is_letter(v[4]) && v[5] == ':' && v[6] == '\\' {
            6
        } else {
            next_separator_from(v, 4, true)
        }
    } else if v.len() >= 4 && is_sep(v[0], false) && is_sep(v[1], false) && v[2] == '.' && is_sep(
        v[3],
        false,
    ) {
        next_separator_from(v, 4, false)
    } else if v.len() >= 2 && is_sep(v[0], false) && is_sep(v[1], false) {
        if next_separator_from(v, 2, false) == 2 {
            0
        } else {
            match share_end_of(v, 2, false) {
                Some(end) => end,
                None => 0,
            }
        }
    } else if v.len() >= 2 && is_letter(v[0]) && v[1] == ':' {
        2
    } else {
        0
    }
}

fn component_start_of(v: &Vec<char>, lo: usize, end: usize, verbatim: bool) -> (r: usize)
    requires
        lo <= end <= v.len(),
    ensures
        r as int == component_start(v@, lo as int, end as int, verbatim),
        lo <= r <= end,
{
    let mut b = end;
    while b > lo && !is_sep(v[b - 1], verbatim)
        invariant
            lo <= b <= end,
            end <= v.len(),
            component_start(v@, lo as int, b as int, verbatim) == component_start(
                v@,
                lo as int,
                end as int,
                verbatim,
            ),
        decreases b,
    {
        b = b - 1;
    }
    b
}

/// The bounds of the last component of `v[lo..]`, as `last_component` describes.
fn last_component_of(v: &Vec<char>, lo: usize, verbatim: bool) -> (r: Option<(usize, usize)>)
    requires
        lo <= v.len(),
    ensures
        r is None <==> last_component(v@, lo as int, v.len() as int, verbatim) is None,
        r matches Some((b, e)) ==> last_component(v@, lo as int, v.len() as int, verbatim) == Some(
            (b as int, e as int),
        ),
        r matches Some((b, e)) ==> lo <= b <= e <= v.len(),
{
    let mut end = v.len();
    while end > lo && (is_sep(v[end - 1], verbatim) || (!verbatim && v[end - 1] == '.' && (end - 1
        == lo || is_sep(v[end - 2], verbatim))))
        invariant
            lo <= end <= v.len(),
            last_component(v@, lo as int, end as int, verbatim) == last_component(
                v@,
                lo as int,
                v.len() as int,
                verbatim,
            ),
        decreases end,
    {
        end = end - 1;
    }
    if end <= lo {
        None
    } else {
        let b = component_start_of(v, lo, end, verbatim);
        Some((b, end))
    }
}

/// The file name of `path`, as `file_name` describes it.
pub fn path_file_name(path: &str) -> (r: Option<String>)
    ensures
        r is Some <==> file_name(path@) is Some,
        r matches Some(n) ==> file_name(path@) == Some(n@),
{
    let v = chars_of(path);
    let lo = prefix_length(&v);
    let verbatim = starts_verbatim(&v);
    let lc = last_component_of(&v, lo, verbatim);
    assert(v@ == path@);
    match lc {
        None => None,
        Some((b, e)) => {
            if (e - b == 2 && v[b] == '.' && v[b + 1] == '.') || (e - b == 1 && v[b] == '.') {
                assert(v@.subrange(b as int, e as int) =~= seq!['.', '.'] || v@.subrange(
                    b as int,
                    e as int,
                ) =~= seq!['.']);
                None
            } else {
                let ghost n = v@.subrange(b as int, e as int);
                assert(n.len() == e - b);
                if e - b == 1 {
                    assert(n[0] == v@[b as int]);
                }
                if e - b == 2 {
                    assert(n[0] == v@[b as int] && n[1] == v@[b + 1]);
                }
                assert(!(n =~= seq!['.', '.']));
                assert(!(n =~= seq!['.']));
                let part = path.substring_char(b, e);
                let owned = part.to_owned();
                assert(owned@ == v@.subrange(b as int, e as int));
                Some(owned)
            }
        },
    }
}

fn last_index_of_char(t: &Vec<char>, c: char) -> (r: Option<usize>)
    ensures
        match r {
            None => last_index_of(t@, c, t.len() as int) == -1,
            Some(d) => last_index_of(t@, c, t.len() as int) == d as int && d < t.len(),
        },
{
    let mut end = t.len();
    while end > 0 && t[end - 1] != c
        invariant
            end <= t.len(),
            last_index_of(t@, c, end as int) == last_index_of(t@, c, t.len() as int),
        decreases end,
    {
        end = end - 1;
    }
    if end == 0 {
        None
    } else {
        Some(end - 1)
    }
}

/// Whether the extension of `path` equals `ext` without regard to ASCII case,
/// as `Path::extension` compared with `eq_ignore_ascii_case` decides it.
pub fn path_has_extension(path: &str, ext: &str) -> (r: bool)
    ensures
        r == has_extension(path@, ext@),
{
    match path_file_name(path) {
        None => false,
        Some(name) => {
            let t = chars_of(name.as_str());
            match last_index_of_char(&t, '.') {
                None => false,
                Some(d) => {
                    if d == 0 {
                        false
                    } else {
                        let e = ext_slice(&t, d + 1);
                        let x = chars_of(ext);
                        chars_eq_ignore_ascii_case(e.as_slice(), x.as_slice())
                    }
                },
            }
        },
    }
}

fn ext_slice(t: &Vec<char>, start: usize) -> (r: Vec<char>)
    requires
        start <= t.len(),
    ensures
        r@ == t@.subrange(start as int, t.len() as int),
{
    let mut r: Vec<char> = Vec::new();
    let mut i = start;
    while i < t.len()
        invariant
            start <= i <= t.len(),
            r@ == t@.subrange(start as int, i as int),
        decreases t.len() - i,
    {
        r.push(t[i]);
        i = i + 1;
    }
    r
}

} // verus!
