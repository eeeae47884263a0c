//! Strings as sequences of characters: taking them apart, comparing them,
//! and rendering numbers.

use vstd::prelude::*;
use vstd::utf8::{decode_utf8, valid_utf8};

verus! {

/// `String::push` appends one character to the end of the string.
pub assume_specification[ String::push ](s: &mut String, c: char)
    ensures
        final(s)@ == old(s)@.push(c),
;

/// Calls `String::from_utf8`, which takes exactly the byte strings that are
/// valid UTF-8 and gives the characters that they encode.
#[verifier::external_body]
pub(crate) fn string_from_utf8(bytes: Vec<u8>) -> (s: Option<String>)
    ensures
        s is Some <==> valid_utf8(bytes@),
        s matches Some(text) ==> text@ == decode_utf8(bytes@),
{
    String::from_utf8(bytes).ok()
}

/// The characters of a string, one by one.
pub fn chars_of(s: &str) -> (out: Vec<char>)
    ensures
        out@ == s@,
{
    let mut out: Vec<char> = Vec::new();
    for c in it: s.chars()
        invariant
            it.seq() == s@,
            out@ == s@.take(it.index()),
    {
        out.push(c);
        assert(out@ == s@.take(it.index() + 1));
    }
    assert(s@.take(s@.len() as int) == s@);
    out
}

/// Appends the characters of `tail` to `out`.
pub fn push_chars(out: &mut String, tail: &Vec<char>)
    ensures
        final(out)@ == old(out)@ + tail@,
{
    let mut i: usize = 0;
    while i < tail.len()
        invariant
            i <= tail@.len(),
            out@ == old(out)@ + tail@.take(i as int),
        decreases tail@.len() - i,
    {
        out.push(tail[i]);
        assert(tail@.take(i as int).push(tail@[i as int]) == tail@.take(i + 1));
        i = i + 1;
    }
    assert(tail@.take(tail@.len() as int) == tail@);
}

/// The decimal digit for `d`.
pub open spec fn digit(d: nat) -> char {
    (48 + d) as char
}

/// `n` in decimal, without leading zeros.
pub open spec fn decimal(n: nat) -> Seq<char>
    decreases n,
{
    if n < 10 {
        seq![digit(n)]
    } else {
        decimal(n / 10).push(digit(n % 10))
    }
}

/// Appends `n` in decimal to `out`.
pub fn push_decimal(out: &mut String, n: u64)
    ensures
        final(out)@ == old(out)@ + decimal(n as nat),
    decreases n,
{
    if n >= 10 {
        push_decimal(out, n / 10);
    }
    let d: u8 = (n % 10) as u8;
    out.push((48 + d) as char);
}

/// Whether `a` comes no later than `b` when byte strings are ordered
/// lexicographically by byte value.
pub open spec fn bytes_le(a: Seq<u8>, b: Seq<u8>) -> bool
    decreases a.len(),
{
    a.len() == 0 || (b.len() > 0 && (a[0] < b[0] || (a[0] == b[0] && bytes_le(
        a.drop_first(),
        b.drop_first(),
    ))))
}

/// The order of names: that of their UTF-8 bytes.
pub open spec fn name_le(a: Seq<char>, b: Seq<char>) -> bool {
    bytes_le(vstd::utf8::encode_utf8(a), vstd::utf8::encode_utf8(b))
}

/// Whether the name `a` comes no later than the name `b`.
pub fn names_in_order(a: &str, b: &str) -> (r: bool)
    ensures
        r == name_le(a@, b@),
{
    let x: &[u8] = a.as_bytes();
    let y: &[u8] = b.as_bytes();
    let mut i: usize = 0;
    assert(x@.skip(0) == x@ && y@.skip(0) == y@);
    while i < x.len() && i < y.len()
        invariant
            i <= x@.len(),
            i <= y@.len(),
            name_le(a@, b@) == bytes_le(x@, y@),
            bytes_le(x@, y@) == bytes_le(x@.skip(i as int), y@.skip(i as int)),
        decreases x@.len() - i,
    {
        assert(x@.skip(i as int).drop_first() == x@.skip(i + 1));
        assert(y@.skip(i as int).drop_first() == y@.skip(i + 1));
        if x[i] < y[i] {
            return true;
        }
        if x[i] > y[i] {
            return false;
        }
        i = i + 1;
    }
    i == x.len()
}

/// The order of byte strings is total.
pub proof fn bytes_le_total(a: Seq<u8>, b: Seq<u8>)
    ensures
        bytes_le(a, b) || bytes_le(b, a),
    decreases a.len(),
{
    if a.len() > 0 && b.len() > 0 {
        bytes_le_total(a.drop_first(), b.drop_first());
    }
}

/// The order of byte strings is transitive.
pub proof fn bytes_le_transitive(a: Seq<u8>, b: Seq<u8>, c: Seq<u8>)
    requires
        bytes_le(a, b),
        bytes_le(b, c),
    ensures
        bytes_le(a, c),
    decreases a.len(),
{
    if a.len() > 0 && a[0] == b[0] && b[0] == c[0] {
        bytes_le_transitive(a.drop_first(), b.drop_first(), c.drop_first());
    }
}

/// Two byte strings that each come no later than the other are equal.
pub proof fn bytes_le_antisymmetric(a: Seq<u8>, b: Seq<u8>)
    requires
        bytes_le(a, b),
        bytes_le(b, a),
    ensures
        a == b,
    decreases a.len(),
{
    if a.len() > 0 {
        bytes_le_antisymmetric(a.drop_first(), b.drop_first());
        assert(a == seq![a[0]] + a.drop_first());
        assert(b == seq![b[0]] + b.drop_first());
    }
}

/// Names are totally ordered: any two are comparable, and two names that
/// each come no later than the other are the same name.
pub proof fn name_le_is_total_order(a: Seq<char>, b: Seq<char>, c: Seq<char>)
    ensures
        name_le(a, b) || name_le(b, a),
        name_le(a, b) && name_le(b, a) ==> a == b,
        name_le(a, b) && name_le(b, c) ==> name_le(a, c),
{
    let (x, y, z) = (
        vstd::utf8::encode_utf8(a),
        vstd::utf8::encode_utf8(b),
        vstd::utf8::encode_utf8(c),
    );
    bytes_le_total(x, y);
    if bytes_le(x, y) && bytes_le(y, x) {
        bytes_le_antisymmetric(x, y);
        vstd::utf8::encode_utf8_decode_utf8(a);
        vstd::utf8::encode_utf8_decode_utf8(b);
    }
    if bytes_le(x, y) && bytes_le(y, z) {
        bytes_le_transitive(x, y, z);
    }
}

/// The number that a string of decimal digits stands for.
pub open spec fn number(s: Seq<char>) -> int
    decreases s.len(),
{
    if s.len() == 0 {
        0
    } else {
        10 * number(s.drop_last()) + (s.last() as int - '0' as int)
    }
}

/// A number in decimal reads back as that number. It is made of digits
/// alone, and starts with a zero only where it is zero.
pub proof fn decimal_reads_back(n: nat)
    ensures
        number(decimal(n)) == n,
        decimal(n).len() > 0,
        forall|i: int| 0 <= i < decimal(n).len() ==> '0' <= #[trigger] decimal(n)[i] <= '9',
        decimal(n)[0] == '0' ==> n == 0 && decimal(n).len() == 1,
    decreases n,
{
    if n < 10 {
        assert(decimal(n).drop_last() == Seq::<char>::empty());
        assert(number(decimal(n).drop_last()) == 0);
    } else {
        decimal_reads_back(n / 10);
        assert(decimal(n).drop_last() == decimal(n / 10));
        assert(decimal(n)[0] == decimal(n / 10)[0]);
        assert forall|i: int| 0 <= i < decimal(n).len() implies '0' <= #[trigger] decimal(
            n,
        )[i] <= '9' by {
            if i < decimal(n / 10).len() {
                assert(decimal(n)[i] == decimal(n / 10)[i]);
            }
        }
    }
}

/// One name comes no later than another exactly where its UTF-8 bytes are
/// the front of the other's, or are smaller at the first place where the
/// two differ.
pub proof fn names_are_ordered_by_first_difference(a: Seq<char>, b: Seq<char>)
    ensures
        ({
            let (x, y) = (vstd::utf8::encode_utf8(a), vstd::utf8::encode_utf8(b));
            name_le(a, b) <==> (x.len() <= y.len() && y.take(x.len() as int) == x) || exists|i: int|
                0 <= i < x.len() && i < y.len() && x.take(i) == y.take(i) && #[trigger] x[i] < y[i]
        }),
{
    bytes_le_first_difference(vstd::utf8::encode_utf8(a), vstd::utf8::encode_utf8(b));
}

proof fn bytes_le_first_difference(x: Seq<u8>, y: Seq<u8>)
    ensures
        bytes_le(x, y) <==> (x.len() <= y.len() && y.take(x.len() as int) == x) || exists|i: int|
            0 <= i < x.len() && i < y.len() && x.take(i) == y.take(i) && #[trigger] x[i] < y[i],
    decreases x.len(),
{
    if x.len() == 0 {
        assert(y.take(0) == x);
    } else if y.len() == 0 {
    } else if x[0] != y[0] {
        if x[0] < y[0] {
            assert(x.take(0) == y.take(0));
        } else {
            if x.len() <= y.len() && y.take(x.len() as int) == x {
                assert(y.take(x.len() as int)[0] == x[0]);
            }
            if exists|i: int|
                0 <= i < x.len() && i < y.len() && x.take(i) == y.take(i) && #[trigger] x[i] < y[i] {
                let i = choose|i: int|
                    0 <= i < x.len() && i < y.len() && x.take(i) == y.take(i) && #[trigger] x[i]
                        < y[i];
                if i > 0 {
                    assert(x.take(i)[0] == y.take(i)[0]);
                }
            }
        }
    } else {
        let (p, q) = (x.drop_first(), y.drop_first());
        bytes_le_first_difference(p, q);
        if p.len() <= q.len() && q.take(p.len() as int) == p {
            assert forall|i: int| 0 <= i < x.len() implies y.take(x.len() as int)[i] == x[i] by {
                if i > 0 {
                    assert(q.take(p.len() as int)[i - 1] == p[i - 1]);
                }
            }
            assert(y.take(x.len() as int) == x);
        }
        if x.len() <= y.len() && y.take(x.len() as int) == x {
            assert forall|i: int| 0 <= i < p.len() implies q.take(p.len() as int)[i] == p[i] by {
                assert(y.take(x.len() as int)[i + 1] == x[i + 1]);
            }
            assert(q.take(p.len() as int) == p);
        }
        if exists|i: int|
            0 <= i < p.len() && i < q.len() && p.take(i) == q.take(i) && #[trigger] p[i] < q[i] {
            let i = choose|i: int|
                0 <= i < p.len() && i < q.len() && p.take(i) == q.take(i) && #[trigger] p[i] < q[i];
            assert forall|k: int| 0 <= k < i + 1 implies #[trigger] x[k] == y[k] by {
                if k > 0 {
                    assert(p.take(i)[k - 1] == q.take(i)[k - 1]);
                }
            }
            assert(x.take(i + 1) == y.take(i + 1));
            assert(x[i + 1] < y[i + 1]);
        }
        if exists|i: int|
            0 <= i < x.len() && i < y.len() && x.take(i) == y.take(i) && #[trigger] x[i] < y[i] {
            let i = choose|i: int|
                0 <= i < x.len() && i < y.len() && x.take(i) == y.take(i) && #[trigger] x[i] < y[i];
            assert(i > 0);
            assert forall|k: int| 0 <= k < i - 1 implies #[trigger] p[k] == q[k] by {
                assert(x.take(i)[k + 1] == y.take(i)[k + 1]);
            }
            assert(p.take(i - 1) == q.take(i - 1));
            assert(p[i - 1] < q[i - 1]);
        }
    }
}

} // verus!
