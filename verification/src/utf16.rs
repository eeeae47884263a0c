//! UTF-16 as Windows spells names: a model of the encoding, the encoder
//! that writes little-endian bytes, and the decoders of names handed in by
//! the file system host.

use vstd::prelude::*;
use widestring::U16Str;

use crate::text::chars_of;

verus! {

/// The UTF-16 code units of one character.
pub open spec fn char_units(c: char) -> Seq<u16> {
    let v = c as int;
    if v < 0x10000 {
        seq![v as u16]
    } else {
        seq![(0xD800 + (v - 0x10000) / 0x400) as u16, (0xDC00 + (v - 0x10000) % 0x400) as u16]
    }
}

/// The UTF-16 code units of a string.
pub open spec fn utf16(s: Seq<char>) -> Seq<u16>
    decreases s.len(),
{
    if s.len() == 0 {
        Seq::empty()
    } else {
        utf16(s.drop_last()) + char_units(s.last())
    }
}

/// The two little-endian bytes of a 16-bit value.
pub open spec fn le16(v: u16) -> Seq<u8> {
    seq![(v % 256) as u8, (v / 256) as u8]
}

/// The four little-endian bytes of a 32-bit value.
pub open spec fn le32(v: u32) -> Seq<u8> {
    le16((v % 65536) as u16) + le16((v / 65536) as u16)
}

/// The code units laid out as little-endian bytes.
pub open spec fn units_le(units: Seq<u16>) -> Seq<u8>
    decreases units.len(),
{
    if units.len() == 0 {
        Seq::empty()
    } else {
        units_le(units.drop_last()) + le16(units.last())
    }
}

/// The UTF-16LE bytes of a string.
pub open spec fn utf16_le(s: Seq<char>) -> Seq<u8> {
    units_le(utf16(s))
}

/// Whether a code unit opens a surrogate pair.
pub open spec fn is_high(u: u16) -> bool {
    0xD800 <= u < 0xDC00
}

/// Whether a code unit closes a surrogate pair.
pub open spec fn is_low(u: u16) -> bool {
    0xDC00 <= u < 0xE000
}

/// The string that a sequence of code units stands for: a unit outside the
/// surrogates is its own character, a high surrogate and the low one behind
/// it are one character together, and any other surrogate counts as
/// U+FFFD.
pub open spec fn lossy_text(units: Seq<u16>) -> Seq<char>
    decreases units.len(),
{
    if units.len() == 0 {
        Seq::empty()
    } else if !is_high(units[0]) && !is_low(units[0]) {
        seq![units[0] as char] + lossy_text(units.skip(1))
    } else if is_high(units[0]) && units.len() > 1 && is_low(units[1]) {
        let c = 0x10000 + (units[0] - 0xD800) * 0x400 + (units[1] - 0xDC00);
        seq![c as char] + lossy_text(units.skip(2))
    } else {
        seq!['\u{FFFD}'] + lossy_text(units.skip(1))
    }
}

/// Calls `widestring::U16Str::to_string`, which decodes a sequence of code
/// units if it is the UTF-16 encoding of some string and refuses it
/// otherwise. It is also what `U16CStr::to_string` calls, on the units
/// ahead of the terminator.
#[verifier::external_body]
fn decode(units: &[u16]) -> (s: Option<String>)
    ensures
        s matches Some(text) ==> utf16(text@) == units@,
        s is None ==> forall|text: Seq<char>| utf16(text) != units@,
{
    U16Str::from_slice(units).to_string().ok()
}

/// Calls `widestring::U16Str::to_string_lossy`, which decodes what is
/// well-formed and puts U+FFFD in place of every surrogate that is not part
/// of a pair.
#[verifier::external_body]
fn decode_lossy(units: &[u16]) -> (s: String)
    ensures
        s@ == lossy_text(units@),
{
    U16Str::from_slice(units).to_string_lossy()
}

/// The string that a sequence of code units encodes, if there is one.
pub open spec fn decoded(units: Seq<u16>) -> Option<Seq<char>> {
    if exists|text: Seq<char>| utf16(text) == units {
        Some(choose|text: Seq<char>| utf16(text) == units)
    } else {
        None
    }
}

/// Decodes a name as Windows hands it over. `None` stands for units that
/// encode no string.
pub fn decode_units(units: &[u16]) -> (s: Option<String>)
    ensures
        match decoded(units@) {
            Some(text) => s is Some && s->0@ == text,
            None => s is None,
        },
{
    let s: Option<String> = decode(units);
    proof {
        if s is Some {
            decoded_utf16(s->0@);
        }
    }
    s
}

/// Decodes a name as Windows hands it over, with replacement characters in
/// place of what is ill-formed.
pub fn decode_units_lossy(units: &[u16]) -> (s: String)
    ensures
        s@ == lossy_text(units@),
{
    decode_lossy(units)
}

/// The units of a string start with those of its first character.
proof fn utf16_front(c: char, rest: Seq<char>)
    ensures
        utf16(seq![c] + rest) == char_units(c) + utf16(rest),
    decreases rest.len(),
{
    let s = seq![c] + rest;
    if rest.len() == 0 {
        assert(s == seq![c]);
        assert(s.drop_last() == Seq::<char>::empty());
        assert(utf16(s.drop_last()) == Seq::<u16>::empty());
        assert(utf16(s) == char_units(c));
    } else {
        utf16_front(c, rest.drop_last());
        assert(s.drop_last() == seq![c] + rest.drop_last());
        assert(utf16(s) == char_units(c) + utf16(rest));
    }
}

/// Where the units encode a string, nothing is replaced: the lossy reading
/// is that string.
pub proof fn lossy_text_of_utf16(text: Seq<char>)
    ensures
        lossy_text(utf16(text)) == text,
    decreases text.len(),
{
    if text.len() > 0 {
        let (c, rest) = (text[0], text.drop_first());
        let (front, back) = (char_units(c), utf16(rest));
        assert(text == seq![c] + rest);
        utf16_front(c, rest);
        char_units_shape(c);
        lossy_text_of_utf16(rest);
        assert((front + back).skip(front.len() as int) == back);
        assert((front + back)[0] == front[0]);
        if front.len() == 2 {
            assert((front + back)[1] == front[1]);
        }
    }
}

/// Decoding gives back the string that was encoded.
pub proof fn decoded_utf16(text: Seq<char>)
    ensures
        decoded(utf16(text)) == Some(text),
{
    let found = choose|t: Seq<char>| utf16(t) == utf16(text);
    utf16_injective(found, text);
}

/// Appends the two little-endian bytes of `v`.
pub fn push_le16(out: &mut Vec<u8>, v: u16)
    ensures
        final(out)@ == old(out)@ + le16(v),
{
    out.push((v % 256) as u8);
    out.push((v / 256) as u8);
    assert(out@ == old(out)@ + le16(v));
}

/// Appends the four little-endian bytes of `v`.
pub fn push_le32(out: &mut Vec<u8>, v: u32)
    ensures
        final(out)@ == old(out)@ + le32(v),
{
    push_le16(out, (v % 65536) as u16);
    push_le16(out, (v / 65536) as u16);
    assert(out@ == old(out)@ + le32(v));
}

/// One more code unit puts its two bytes at the end.
proof fn units_le_push(units: Seq<u16>, u: u16)
    ensures
        units_le(units.push(u)) == units_le(units) + le16(u),
{
    assert(units.push(u).drop_last() == units);
}

/// The UTF-16LE bytes of a string.
pub fn encode_le(s: &str) -> (out: Vec<u8>)
    ensures
        out@ == utf16_le(s@),
{
    let chars: Vec<char> = chars_of(s);
    let mut out: Vec<u8> = Vec::new();
    let mut i: usize = 0;
    while i < chars.len()
        invariant
            chars@ == s@,
            i <= chars@.len(),
            out@ == utf16_le(s@.take(i as int)),
        decreases chars@.len() - i,
    {
        let ch: char = chars[i];
        proof {
            char_units_shape(ch);
        }
        let c: u32 = ch as u32;
        let ghost before = utf16(s@.take(i as int));
        assert(s@.take(i + 1).drop_last() == s@.take(i as int));
        if c < 0x10000 {
            push_le16(&mut out, c as u16);
            proof {
                let units = before.push(c as u16);
                assert(units == before + char_units(ch));
                units_le_push(before, c as u16);
            }
        } else {
            let v: u32 = c - 0x10000;
            let high: u16 = (0xD800 + v / 0x400) as u16;
            let low: u16 = (0xDC00 + v % 0x400) as u16;
            push_le16(&mut out, high);
            push_le16(&mut out, low);
            proof {
                let units = before.push(high).push(low);
                assert(units == before + char_units(ch));
                units_le_push(before, high);
                units_le_push(before.push(high), low);
            }
        }
        assert(utf16(s@.take(i + 1)) == before + char_units(ch));
        i = i + 1;
    }
    assert(s@.take(s@.len() as int) == s@);
    out
}

/// A character takes one unit outside the surrogate range, or a high
/// surrogate followed by a low one.
proof fn char_units_shape(c: char)
    ensures
        ({
            let (u, v) = (char_units(c), c as int);
            if u.len() == 1 {
                u[0] == v && v < 0x10000 && !(0xD800 <= u[0] < 0xE000)
            } else {
                &&& u.len() == 2
                &&& 0x10000 <= v
                &&& 0xD800 <= u[0] < 0xDC00
                &&& 0xDC00 <= u[1] < 0xE000
                &&& v == 0x10000 + (u[0] - 0xD800) * 0x400 + (u[1] - 0xDC00)
            }
        }),
{
}

/// The units of a character tell it.
proof fn char_units_injective(c: char, d: char)
    requires
        char_units(c) == char_units(d),
    ensures
        c == d,
{
    char_units_shape(c);
    char_units_shape(d);
    let (x, y) = (c as int, d as int);
    assert(char_units(c)[0] == char_units(d)[0]);
    if x >= 0x10000 {
        assert(char_units(c)[1] == char_units(d)[1]);
    }
    assert(x == y);
}

/// Two strings with the same UTF-16 encoding are the same string.
pub proof fn utf16_injective(a: Seq<char>, b: Seq<char>)
    requires
        utf16(a) == utf16(b),
    ensures
        a == b,
    decreases a.len(),
{
    if a.len() == 0 || b.len() == 0 {
        if a.len() > 0 {
            assert(utf16(a).len() > 0);
        }
        if b.len() > 0 {
            assert(utf16(b).len() > 0);
        }
    } else {
        let (u, v) = (char_units(a.last()), char_units(b.last()));
        let (p, q) = (utf16(a.drop_last()), utf16(b.drop_last()));
        char_units_shape(a.last());
        char_units_shape(b.last());
        assert((p + u).last() == u.last());
        assert((q + v).last() == v.last());
        assert(u.len() == v.len());
        assert(p == (p + u).take((p + u).len() - u.len()));
        assert(q == (q + v).take((q + v).len() - v.len()));
        assert(u == (p + u).skip((p + u).len() - u.len()));
        assert(v == (q + v).skip((q + v).len() - v.len()));
        utf16_injective(a.drop_last(), b.drop_last());
        char_units_injective(a.last(), b.last());
        assert(a == a.drop_last().push(a.last()));
        assert(b == b.drop_last().push(b.last()));
    }
}

/// Each code unit takes two bytes.
pub proof fn units_le_len(units: Seq<u16>)
    ensures
        units_le(units).len() == 2 * units.len(),
    decreases units.len(),
{
    if units.len() > 0 {
        units_le_len(units.drop_last());
    }
}

/// The bytes of the encoding tell the string: no two strings share them.
pub proof fn utf16_le_injective(a: Seq<char>, b: Seq<char>)
    requires
        utf16_le(a) == utf16_le(b),
    ensures
        a == b,
{
    units_le_injective(utf16(a), utf16(b));
    utf16_injective(a, b);
}

proof fn units_le_injective(x: Seq<u16>, y: Seq<u16>)
    requires
        units_le(x) == units_le(y),
    ensures
        x == y,
    decreases x.len(),
{
    units_le_len(x);
    units_le_len(y);
    if x.len() > 0 {
        let (p, q) = (units_le(x.drop_last()), units_le(y.drop_last()));
        let (u, v) = (le16(x.last()), le16(y.last()));
        units_le_len(x.drop_last());
        units_le_len(y.drop_last());
        assert(p == (p + u).take(p.len() as int));
        assert(q == (q + v).take(p.len() as int));
        assert(u == (p + u).skip(p.len() as int));
        assert(v == (q + v).skip(p.len() as int));
        units_le_injective(x.drop_last(), y.drop_last());
        assert(u[0] == v[0] && u[1] == v[1]);
        assert(x == x.drop_last().push(x.last()));
        assert(y == y.drop_last().push(y.last()));
    }
}

/// The encoding of two strings one after the other is the two encodings one
/// after the other.
pub proof fn utf16_joins(a: Seq<char>, b: Seq<char>)
    ensures
        utf16(a + b) == utf16(a) + utf16(b),
    decreases b.len(),
{
    if b.len() == 0 {
        assert(a + b == a);
        assert(utf16(a) + utf16(b) == utf16(a));
    } else {
        utf16_joins(a, b.drop_last());
        assert((a + b).drop_last() == a + b.drop_last());
        assert(utf16(a + b) == utf16(a) + utf16(b));
    }
}

/// A character below U+10000 is one unit with its own number. Any other is
/// two, a high surrogate and a low one, that carry ten bits each of what
/// the character is above U+10000. The empty string has no units.
pub proof fn utf16_of_one_character(c: char)
    ensures
        utf16(Seq::empty()).len() == 0,
        (c as int) < 0x10000 ==> utf16(seq![c]).len() == 1 && utf16(seq![c])[0] == c as int,
        (c as int) >= 0x10000 ==> {
            let u = utf16(seq![c]);
            &&& u.len() == 2
            &&& 0xD800 <= u[0] < 0xDC00
            &&& 0xDC00 <= u[1] < 0xE000
            &&& (u[0] - 0xD800) * 1024 + (u[1] - 0xDC00) == c as int - 0x10000
        },
{
    char_units_shape(c);
    let none = Seq::<char>::empty();
    assert(seq![c].drop_last() == none);
    assert(utf16(none) + char_units(c) == char_units(c));
}

/// The bytes of a string are its units, two bytes each, the lower one
/// first.
pub proof fn utf16_le_holds_units(s: Seq<char>, i: int)
    ensures
        utf16_le(s).len() == 2 * utf16(s).len(),
        0 <= i < utf16(s).len() ==> utf16_le(s)[2 * i] + 256 * utf16_le(s)[2 * i + 1]
            == utf16(s)[i],
{
    units_le_len(utf16(s));
    units_le_holds(utf16(s), i);
}

proof fn units_le_holds(units: Seq<u16>, i: int)
    ensures
        0 <= i < units.len() ==> units_le(units)[2 * i] + 256 * units_le(units)[2 * i + 1]
            == units[i],
    decreases units.len(),
{
    if 0 <= i < units.len() {
        let pre = units.drop_last();
        units_le_len(pre);
        if i < pre.len() {
            units_le_holds(pre, i);
            assert(units_le(units)[2 * i] == units_le(pre)[2 * i]);
            assert(units_le(units)[2 * i + 1] == units_le(pre)[2 * i + 1]);
        } else {
            assert(units_le(units)[2 * i] == le16(units[i])[0]);
            assert(units_le(units)[2 * i + 1] == le16(units[i])[1]);
        }
    }
}

/// The bytes of a number are its digits to the base 256, the lowest first.
pub proof fn little_endian_weighs_bytes(v: u16, w: u32)
    ensures
        le16(v).len() == 2,
        le16(v)[0] + 256 * le16(v)[1] == v,
        le32(w).len() == 4,
        le32(w)[0] + 256 * le32(w)[1] + 65536 * le32(w)[2] + 16777216 * le32(w)[3] == w,
{
}

/// Units decode to a string exactly where they are its encoding.
pub proof fn decoded_iff_encoded(units: Seq<u16>, text: Seq<char>)
    ensures
        decoded(units) == Some(text) <==> utf16(text) == units,
        decoded(units) is None <==> forall|t: Seq<char>| #[trigger] utf16(t) != units,
{
    if utf16(text) == units {
        decoded_utf16(text);
    }
}

/// Behind what is well-formed, a surrogate without its partner counts as
/// U+FFFD, and reading goes on with the unit behind it.
pub proof fn lone_surrogate_is_replaced(text: Seq<char>, u: u16, rest: Seq<u16>)
    requires
        0xD800 <= u < 0xE000,
        u < 0xDC00 && rest.len() > 0 ==> !(0xDC00 <= rest[0] < 0xE000),
    ensures
        lossy_text(utf16(text) + seq![u] + rest) == text + seq!['\u{FFFD}'] + lossy_text(rest),
    decreases text.len(),
{
    let units = utf16(text) + seq![u] + rest;
    if text.len() == 0 {
        assert(units == seq![u] + rest);
        assert(units.skip(1) == rest);
        if rest.len() > 0 {
            assert(units[1] == rest[0]);
        }
        assert(text + seq!['\u{FFFD}'] + lossy_text(rest) == seq!['\u{FFFD}'] + lossy_text(rest));
    } else {
        let (c, more) = (text[0], text.drop_first());
        assert(text == seq![c] + more);
        utf16_front(c, more);
        char_units_shape(c);
        lone_surrogate_is_replaced(more, u, rest);
        let front = char_units(c);
        let back = utf16(more) + seq![u] + rest;
        assert(units == front + back);
        assert(units.skip(front.len() as int) == back);
        assert(units[0] == front[0]);
        if front.len() == 2 {
            assert(units[1] == front[1]);
        }
        assert(seq![c] + (more + seq!['\u{FFFD}'] + lossy_text(rest)) == text + seq!['\u{FFFD}']
            + lossy_text(rest));
    }
}

} // verus!
