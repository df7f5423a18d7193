//! UTF-16, the text encoding of the Windows interfaces: encoding, strict and
//! lossy decoding, and nul-terminated buffers.
use vstd::prelude::*;
use crate::text::{chars_of, char_code, push_char};

verus! {

/// Whether `u` is the first half of a surrogate pair.
pub open spec fn is_high_surrogate(u: u16) -> bool {
    0xD800 <= u && u < 0xDC00
}

/// Whether `u` is the second half of a surrogate pair.
pub open spec fn is_low_surrogate(u: u16) -> bool {
    0xDC00 <= u && u < 0xE000
}

/// Whether `u` is either half of a surrogate pair.
pub open spec fn is_surrogate(u: u16) -> bool {
    0xD800 <= u && u < 0xE000
}

/// The UTF-16 code units of one character.
pub open spec fn char_units(c: char) -> Seq<u16> {
    if (c as int) < 0x10000 {
        seq![c as int as u16]
    } else {
        let v = c as int - 0x10000;
        seq![(0xD800 + v / 0x400) as u16, (0xDC00 + v % 0x400) as u16]
    }
}

/// The UTF-16 encoding of a text.
pub open spec fn utf16(s: Seq<char>) -> Seq<u16>
    decreases s.len(),
{
    if s.len() == 0 {
        Seq::empty()
    } else {
        char_units(s[0]) + utf16(s.drop_first())
    }
}

/// The scalar value that a surrogate pair stands for.
pub open spec fn pair_value(high: u16, low: u16) -> int {
    0x10000 + (high - 0xD800) * 0x400 + (low - 0xDC00)
}

/// Whether the text starts with a surrogate pair.
pub open spec fn starts_with_pair(u: Seq<u16>) -> bool {
    u.len() >= 2 && is_high_surrogate(u[0]) && is_low_surrogate(u[1])
}

/// The text that UTF-16 code units stand for, with U+FFFD in place of every
/// surrogate that is not part of a pair.
pub open spec fn decode_lossy(u: Seq<u16>) -> Seq<char>
    decreases u.len(),
{
    if u.len() == 0 {
        Seq::empty()
    } else if !is_surrogate(u[0]) {
        seq![u[0] as char] + decode_lossy(u.drop_first())
    } else if starts_with_pair(u) {
        seq![pair_value(u[0], u[1]) as char] + decode_lossy(u.subrange(2, u.len() as int))
    } else {
        seq!['\u{FFFD}'] + decode_lossy(u.drop_first())
    }
}

/// Whether every surrogate in the code units is part of a pair.
pub open spec fn valid_utf16(u: Seq<u16>) -> bool
    decreases u.len(),
{
    if u.len() == 0 {
        true
    } else if !is_surrogate(u[0]) {
        valid_utf16(u.drop_first())
    } else if starts_with_pair(u) {
        valid_utf16(u.subrange(2, u.len() as int))
    } else {
        false
    }
}

/// The index of the first zero unit at or after `i`, or the length.
pub open spec fn nul_index(u: Seq<u16>, i: int) -> int
    decreases u.len() - i,
{
    if i >= u.len() {
        u.len() as int
    } else if u[i] == 0 {
        i
    } else {
        nul_index(u, i + 1)
    }
}

/// The code units before the first zero unit.
pub open spec fn until_nul(u: Seq<u16>) -> Seq<u16> {
    u.take(nul_index(u, 0))
}

/// The code units of `s` followed by a terminating zero.
pub open spec fn wide_nul(s: Seq<char>) -> Seq<u16> {
    utf16(s).push(0)
}

/// Encoding a text with one more character appends that character's units.
pub proof fn lemma_utf16_push(s: Seq<char>, c: char)
    ensures
        utf16(s.push(c)) == utf16(s) + char_units(c),
    decreases s.len(),
{
    if s.len() == 0 {
        assert(s.push(c).drop_first() =~= Seq::<char>::empty());
        assert(utf16(s.push(c).drop_first()) == Seq::<u16>::empty());
        assert(utf16(s) == Seq::<u16>::empty());
        assert(utf16(s.push(c)) =~= utf16(s) + char_units(c));
    } else {
        assert(s.push(c).drop_first() =~= s.drop_first().push(c));
        lemma_utf16_push(s.drop_first(), c);
        assert(utf16(s.push(c)) =~= utf16(s) + char_units(c));
    }
}

proof fn lemma_char_units_decode(c: char, rest: Seq<u16>)
    ensures
        decode_lossy(char_units(c) + rest) == seq![c] + decode_lossy(rest),
        valid_utf16(char_units(c) + rest) == valid_utf16(rest),
{
    let u = char_units(c) + rest;
    let x = c as int;
    if x < 0x10000 {
        assert(!is_surrogate(u[0]));
        assert(u.drop_first() =~= rest);
        assert((u[0] as char) == c);
    } else {
        let v = x - 0x10000;
        assert(0 <= v < 0x100000);
        assert(0 <= v / 0x400 < 0x400) by (nonlinear_arith)
            requires
                0 <= v < 0x100000,
        ;
        assert(0 <= v % 0x400 < 0x400) by (nonlinear_arith)
            requires
                0 <= v,
        ;
        assert(v / 0x400 * 0x400 + v % 0x400 == v) by (nonlinear_arith);
        assert(is_high_surrogate(u[0]));
        assert(is_low_surrogate(u[1]));
        assert(pair_value(u[0], u[1]) == x);
        assert(u.subrange(2, u.len() as int) =~= rest);
    }
}

/// Decoding the encoding of a text gives the text back, and the encoding is
/// valid UTF-16.
pub proof fn lemma_decode_utf16(s: Seq<char>)
    ensures
        decode_lossy(utf16(s)) == s,
        valid_utf16(utf16(s)),
    decreases s.len(),
{
    if s.len() > 0 {
        lemma_decode_utf16(s.drop_first());
        lemma_char_units_decode(s[0], utf16(s.drop_first()));
        assert(seq![s[0]] + s.drop_first() =~= s);
    }
}

/// Valid UTF-16 is the encoding of what it decodes to.
pub proof fn lemma_encode_decoded(u: Seq<u16>)
    requires
        valid_utf16(u),
    ensures
        utf16(decode_lossy(u)) == u,
    decreases u.len(),
{
    if u.len() > 0 {
        if !is_surrogate(u[0]) {
            lemma_encode_decoded(u.drop_first());
            let c = u[0] as char;
            assert(seq![c] + decode_lossy(u.drop_first()) =~= decode_lossy(u));
            assert(decode_lossy(u).drop_first() =~= decode_lossy(u.drop_first()));
            assert(char_units(c) =~= seq![u[0]]);
            assert(utf16(decode_lossy(u)) =~= u);
        } else {
            let rest = u.subrange(2, u.len() as int);
            lemma_encode_decoded(rest);
            let x = pair_value(u[0], u[1]);
            let c = x as char;
            let hi = u[0] as int - 0xD800;
            let lo = u[1] as int - 0xDC00;
            assert(0 <= hi < 0x400 && 0 <= lo < 0x400);
            assert(x - 0x10000 == hi * 0x400 + lo);
            assert((hi * 0x400 + lo) / 0x400 == hi && (hi * 0x400 + lo) % 0x400 == lo) by (nonlinear_arith)
                requires
                    0 <= hi < 0x400,
                    0 <= lo < 0x400,
            ;
            assert(0x10000 <= x <= 0x10FFFF) by (nonlinear_arith)
                requires
                    0 <= hi < 0x400,
                    0 <= lo < 0x400,
                    x - 0x10000 == hi * 0x400 + lo,
            ;
            assert(c as int == x);
            assert(char_units(c) =~= seq![u[0], u[1]]);
            assert(decode_lossy(u).drop_first() =~= decode_lossy(rest));
            assert(utf16(decode_lossy(u)) =~= u);
        }
    }
}

/// The character with scalar value `x`, through `char::from_u32`. Trusted:
/// the contract claims a character exactly when `x` is at most 0x10FFFF and
/// not a surrogate, and that its value is then `x`.
#[verifier::external_body]
fn char_from_code(x: u32) -> (r: Option<char>)
    ensures
        r is Some <==> (x < 0xD800 || (0xE000 <= x && x <= 0x10FFFF)),
        r matches Some(c) ==> c as int == x,
{
    char::from_u32(x)
}

fn valid_char(x: u32) -> (c: char)
    requires
        x < 0xD800 || (0xE000 <= x && x <= 0x10FFFF),
    ensures
        c as int == x,
{
    match char_from_code(x) {
        Some(c) => c,
        None => '\u{FFFD}',
    }
}

/// The UTF-16 code units of `s`.
pub fn utf16_units(s: &str) -> (r: Vec<u16>)
    ensures
        r@ == utf16(s@),
{
    let v = chars_of(s);
    let mut out: Vec<u16> = Vec::new();
    let mut i: usize = 0;
    while i < v.len()
        invariant
            i <= v.len(),
            v@ == s@,
            out@ == utf16(v@.take(i as int)),
        decreases v.len() - i,
    {
        let c = v[i];
        let x = char_code(c);
        let ghost before = out@;
        if x < 0x10000 {
            out.push(x as u16);
            assert(out@ =~= before + char_units(c));
        } else {
            let w = x - 0x10000;
            out.push((0xD800 + w / 0x400) as u16);
            out.push((0xDC00 + w % 0x400) as u16);
            assert(out@ =~= before + char_units(c));
        }
        proof {
            assert(v@.take(i + 1) =~= v@.take(i as int).push(c));
            lemma_utf16_push(v@.take(i as int), c);
        }
        i = i + 1;
    }
    assert(v@.take(v.len() as int) =~= v@);
    out
}

/// The UTF-16 code units of `s` followed by a terminating zero, as the
/// Windows interfaces take a string.
pub fn to_wide_nul(s: &str) -> (r: Vec<u16>)
    ensures
        r@ == wide_nul(s@),
{
    let mut r = utf16_units(s);
    r.push(0);
    r
}

/// The text that `u` stands for, with U+FFFD in place of every surrogate that
/// is not part of a pair, as `String::from_utf16_lossy` decodes it.
pub fn decode_utf16_lossy(u: &[u16]) -> (r: String)
    ensures
        r@ == decode_lossy(u@),
{
    let mut out = String::new();
    let mut i: usize = 0;
    assert(u@.subrange(0, u.len() as int) =~= u@);
    assert(out@ + decode_lossy(u@) =~= decode_lossy(u@));
    while i < u.len()
        invariant
            i <= u.len(),
            decode_lossy(u@) == out@ + decode_lossy(u@.subrange(i as int, u.len() as int)),
        decreases u.len() - i,
    {
        let ghost rest = u@.subrange(i as int, u.len() as int);
        let ghost before = out@;
        let x = u[i];
        if x < 0xD800 || x >= 0xE000 {
            let c = valid_char(x as u32);
            push_char(&mut out, c);
            assert(rest.drop_first() =~= u@.subrange(i + 1, u.len() as int));
            assert(decode_lossy(rest) == seq![c] + decode_lossy(rest.drop_first()));
            assert(before + (seq![c] + decode_lossy(rest.drop_first())) =~= out@ + decode_lossy(
                rest.drop_first(),
            ));
            i = i + 1;
        } else if x < 0xDC00 && i + 1 < u.len() && u[i + 1] >= 0xDC00 && u[i + 1] < 0xE000 {
            let y = u[i + 1];
            let v: u32 = 0x10000 + (x as u32 - 0xD800) * 0x400 + (y as u32 - 0xDC00);
            assert(v as int == pair_value(x, y));
            let c = valid_char(v);
            push_char(&mut out, c);
            assert(starts_with_pair(rest));
            assert(rest.subrange(2, rest.len() as int) =~= u@.subrange(i + 2, u.len() as int));
            assert(before + (seq![c] + decode_lossy(rest.subrange(2, rest.len() as int))) =~= out@
                + decode_lossy(rest.subrange(2, rest.len() as int)));
            i = i + 2;
        } else {
            push_char(&mut out, '\u{FFFD}');
            assert(!starts_with_pair(rest));
            assert(rest.drop_first() =~= u@.subrange(i + 1, u.len() as int));
            assert(before + (seq!['\u{FFFD}'] + decode_lossy(rest.drop_first())) =~= out@
                + decode_lossy(rest.drop_first()));
            i = i + 1;
        }
    }
    assert(u@.subrange(u.len() as int, u.len() as int) =~= Seq::<u16>::empty());
    assert(out@ + Seq::<char>::empty() =~= out@);
    out
}

/// Whether every surrogate in `u` is part of a pair.
pub fn is_valid_utf16(u: &[u16]) -> (r: bool)
    ensures
        r == valid_utf16(u@),
{
    let mut i: usize = 0;
    assert(u@.subrange(0, u.len() as int) =~= u@);
    while i < u.len()
        invariant
            i <= u.len(),
            valid_utf16(u@) == valid_utf16(u@.subrange(i as int, u.len() as int)),
        decreases u.len() - i,
    {
        let ghost rest = u@.subrange(i as int, u.len() as int);
        let x = u[i];
        if x < 0xD800 || x >= 0xE000 {
            assert(rest.drop_first() =~= u@.subrange(i + 1, u.len() as int));
            i = i + 1;
        } else if x < 0xDC00 && i + 1 < u.len() && u[i + 1] >= 0xDC00 && u[i + 1] < 0xE000 {
            assert(rest.subrange(2, rest.len() as int) =~= u@.subrange(i + 2, u.len() as int));
            i = i + 2;
        } else {
            assert(!starts_with_pair(rest));
            return false;
        }
    }
    assert(u@.subrange(u.len() as int, u.len() as int) =~= Seq::<u16>::empty());
    true
}

/// The text that `u` stands for when every surrogate in it is part of a
/// pair, as `String::from_utf16` decodes it; nothing otherwise.
pub fn decode_utf16(u: &[u16]) -> (r: Option<String>)
    ensures
        r is Some <==> valid_utf16(u@),
        r matches Some(s) ==> s@ == decode_lossy(u@) && utf16(s@) == u@,
{
    if is_valid_utf16(u) {
        proof {
            lemma_encode_decoded(u@);
        }
        Some(decode_utf16_lossy(u))
    } else {
        None
    }
}

/// The index of the first zero unit in `u`, or its length.
pub fn nul_position(u: &[u16]) -> (r: usize)
    ensures
        r as int == nul_index(u@, 0),
        r <= u.len(),
{
    let mut i: usize = 0;
    while i < u.len() && u[i] != 0
        invariant
            i <= u.len(),
            nul_index(u@, i as int) == nul_index(u@, 0),
        decreases u.len() - i,
    {
        i = i + 1;
    }
    i
}

/// The code units of `u` before its first zero unit.
pub fn units_until_nul(u: &[u16]) -> (r: Vec<u16>)
    ensures
        r@ == until_nul(u@),
{
    let end = nul_position(u);
    let mut r: Vec<u16> = Vec::new();
    let mut i: usize = 0;
    while i < end
        invariant
            i <= end <= u.len(),
            r@ == u@.take(i as int),
        decreases end - i,
    {
        r.push(u[i]);
        assert(u@.take(i + 1) =~= u@.take(i as int).push(u@[i as int]));
        i = i + 1;
    }
    r
}

} // verus!
