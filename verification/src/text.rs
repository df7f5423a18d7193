//! Character-level text helpers: ASCII case folding and the views of strings
//! that the rest of the library compares.
use vstd::prelude::*;

verus! {

/// Whether `c` is an ASCII upper-case letter.
pub open spec fn is_ascii_upper(c: char) -> bool {
    'A' <= c && c <= 'Z'
}

/// Whether `c` is an ASCII lower-case letter.
pub open spec fn is_ascii_lower(c: char) -> bool {
    'a' <= c && c <= 'z'
}

/// The code of `c` with an ASCII upper-case letter mapped to its lower-case form.
pub open spec fn fold_case(c: char) -> int {
    if is_ascii_upper(c) {
        c as int + 32
    } else {
        c as int
    }
}

/// The code of `c` with an ASCII lower-case letter mapped to its upper-case form.
pub open spec fn upper_case(c: char) -> int {
    if is_ascii_lower(c) {
        c as int - 32
    } else {
        c as int
    }
}

/// Two texts are equal when ASCII letters are compared without regard to case
/// (every other character must match exactly).
pub open spec fn eq_ignoring_case(a: Seq<char>, b: Seq<char>) -> bool {
    &&& a.len() == b.len()
    &&& forall|i: int| 0 <= i < a.len() ==> #[trigger] fold_case(a[i]) == fold_case(b[i])
}

/// `needle` occurs in `hay` at position `at` once `hay` is upper-cased in ASCII.
pub open spec fn upper_occurs_at(hay: Seq<char>, needle: Seq<char>, at: int) -> bool {
    &&& 0 <= at
    &&& at + needle.len() <= hay.len()
    &&& forall|j: int| 0 <= j < needle.len() ==> #[trigger] upper_case(hay[at + j]) == needle[j] as int
}

/// `hay`, upper-cased in ASCII, contains `needle`.
pub open spec fn upper_contains(hay: Seq<char>, needle: Seq<char>) -> bool {
    exists|at: int| upper_occurs_at(hay, needle, at)
}

/// Comparing without regard to ASCII case is reflexive.
pub proof fn lemma_eq_ignoring_case_reflexive(a: Seq<char>)
    ensures
        eq_ignoring_case(a, a),
{
}

/// Comparing without regard to ASCII case is symmetric.
pub proof fn lemma_eq_ignoring_case_symmetric(a: Seq<char>, b: Seq<char>)
    ensures
        eq_ignoring_case(a, b) == eq_ignoring_case(b, a),
{
}

/// Comparing without regard to ASCII case is transitive.
pub proof fn lemma_eq_ignoring_case_transitive(a: Seq<char>, b: Seq<char>, c: Seq<char>)
    requires
        eq_ignoring_case(a, b),
        eq_ignoring_case(b, c),
    ensures
        eq_ignoring_case(a, c),
{
    assert forall|i: int| 0 <= i < a.len() implies #[trigger] fold_case(a[i]) == fold_case(c[i]) by {
        assert(fold_case(a[i]) == fold_case(b[i]));
        assert(fold_case(b[i]) == fold_case(c[i]));
    }
}

/// The decimal digit character for `d`, which is below ten.
pub open spec fn digit_char(d: int) -> char {
    ('0' as int + d) as char
}

/// The decimal representation of `n`, without leading zeros.
pub open spec fn decimal(n: nat) -> Seq<char>
    decreases n,
{
    if n < 10 {
        seq![digit_char(n as int)]
    } else {
        decimal(n / 10).push(digit_char((n % 10) as int))
    }
}

/// Appends `c` to `s` through `String::push`. Trusted: the contract claims
/// that the text afterwards is the text before with `c` at its end.
#[verifier::external_body]
pub(crate) fn push_char(s: &mut String, c: char)
    ensures
        final(s)@ == old(s)@.push(c),
{
    s.push(c);
}

/// The decimal representation of `n`, as `n.to_string()` writes it.
pub fn decimal_text(n: u32) -> (r: String)
    ensures
        r@ == decimal(n as nat),
    decreases n,
{
    if n < 10 {
        let mut s = String::new();
        push_char(&mut s, ((48u32 + n) as u8) as char);
        s
    } else {
        let mut s = decimal_text(n / 10);
        push_char(&mut s, ((48u32 + n % 10) as u8) as char);
        s
    }
}

/// The characters of `s`, in order.
pub fn chars_of(s: &str) -> (v: Vec<char>)
    ensures
        v@ == s@,
{
    let mut v: Vec<char> = Vec::new();
    for c in it: s.chars()
        invariant
            v@ == it.seq().take(it.index() as int),
    {
        v.push(c);
    }
    v
}

/// The Unicode scalar value of `c`.
pub fn char_code(c: char) -> (r: u32)
    ensures
        r as int == c as int,
{
    c as u32
}

fn fold_code(c: char) -> (r: u32)
    ensures
        r as int == fold_case(c),
{
    let x = c as u32;
    if 65 <= x && x <= 90 {
        x + 32
    } else {
        x
    }
}

fn upper_code(c: char) -> (r: u32)
    ensures
        r as int == upper_case(c),
{
    let x = c as u32;
    if 97 <= x && x <= 122 {
        x - 32
    } else {
        x
    }
}

/// Whether two character sequences are equal without regard to ASCII case.
pub fn chars_eq_ignore_ascii_case(a: &[char], b: &[char]) -> (r: bool)
    ensures
        r == eq_ignoring_case(a@, b@),
{
    if a.len() != b.len() {
        return false;
    }
    let mut i: usize = 0;
    while i < a.len()
        invariant
            a.len() == b.len(),
            i <= a.len(),
            forall|k: int| 0 <= k < i ==> #[trigger] fold_case(a@[k]) == fold_case(b@[k]),
        decreases a.len() - i,
    {
        if fold_code(a[i]) != fold_code(b[i]) {
            return false;
        }
        i = i + 1;
    }
    true
}

/// Whether two strings are equal without regard to ASCII case, as
/// `str::eq_ignore_ascii_case` compares them.
pub fn eq_ignore_ascii_case(a: &str, b: &str) -> (r: bool)
    ensures
        r == eq_ignoring_case(a@, b@),
{
    let av = chars_of(a);
    let bv = chars_of(b);
    chars_eq_ignore_ascii_case(av.as_slice(), bv.as_slice())
}

/// Whether `hay`, upper-cased in ASCII, contains `needle`.
pub fn upper_case_contains(hay: &[char], needle: &[char]) -> (r: bool)
    ensures
        r == upper_contains(hay@, needle@),
{
    if needle.len() > hay.len() {
        assert forall|at: int| !upper_occurs_at(hay@, needle@, at) by {}
        return false;
    }
    let last = hay.len() - needle.len();
    let mut at: usize = 0;
    while at <= last
        invariant
            last == hay.len() - needle.len(),
            needle.len() <= hay.len(),
            at <= last + 1,
            forall|p: int| 0 <= p < at ==> !upper_occurs_at(hay@, needle@, p),
        decreases last + 1 - at,
    {
        let mut j: usize = 0;
        let mut matched = true;
        while j < needle.len()
            invariant
                at <= last,
                last == hay.len() - needle.len(),
                j <= needle.len(),
                matched ==> forall|k: int| 0 <= k < j ==> #[trigger] upper_case(hay@[at + k]) == needle@[k] as int,
                !matched ==> !upper_occurs_at(hay@, needle@, at as int),
            decreases needle.len() - j,
        {
            let h = upper_code(hay[at + j]);
            let n = char_code(needle[j]);
            if h != n {
                matched = false;
            }
            assert(matched ==> upper_case(hay@[at + j as int]) == needle@[j as int] as int);
            j = j + 1;
        }
        if matched {
            assert(upper_occurs_at(hay@, needle@, at as int));
            return true;
        }
        at = at + 1;
    }
    assert forall|p: int| !upper_occurs_at(hay@, needle@, p) by {
        if 0 <= p && p + needle@.len() <= hay@.len() {
            assert(p < at);
        }
    }
    false
}

} // verus!
