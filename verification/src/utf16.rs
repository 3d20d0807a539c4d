//! UTF-16, the encoding of all text that the operating system takes or gives.

use vstd::prelude::*;
use crate::le::bytes16;
use crate::text::chars_of;

verus! {

/// `char::from_u32` of the standard library: the character with the given code
/// point, if it is a Unicode scalar value, that is any code point that is not a
/// surrogate.
pub assume_specification[ char::from_u32 ](i: u32) -> (r: Option<char>)
    ensures
        r is Some <==> (i < 0xD800 || 0xE000 <= i < 0x11_0000),
        r matches Some(c) ==> c as int == i,
;

/// The first unit of a surrogate pair.
pub open spec fn is_high(u: u16) -> bool {
    0xD800 <= u < 0xDC00
}

/// The second unit of a surrogate pair.
pub open spec fn is_low(u: u16) -> bool {
    0xDC00 <= u < 0xE000
}

/// The character of a surrogate pair.
pub open spec fn pair_char(high: u16, low: u16) -> char {
    (0x1_0000 + 0x400 * (high - 0xD800) + (low - 0xDC00)) as char
}

/// The text that the units stand for. A unit that is half of a pair without the
/// other half stands for U+FFFD.
pub open spec fn decoded(s: Seq<u16>) -> Seq<char>
    decreases s.len(),
{
    if s.len() == 0 {
        Seq::empty()
    } else if is_high(s[0]) && s.len() > 1 && is_low(s[1]) {
        seq![pair_char(s[0], s[1])] + decoded(s.skip(2))
    } else if is_high(s[0]) || is_low(s[0]) {
        seq!['\u{FFFD}'] + decoded(s.skip(1))
    } else {
        seq![s[0] as char] + decoded(s.skip(1))
    }
}

/// The units of one character.
pub open spec fn units(c: char) -> Seq<u16> {
    let u = c as int;
    if u < 0x1_0000 {
        seq![u as u16]
    } else {
        seq![
            (0xD800 + (u - 0x1_0000) / 0x400) as u16,
            (0xDC00 + (u - 0x1_0000) % 0x400) as u16,
        ]
    }
}

/// The units of a text.
pub open spec fn encoded(s: Seq<char>) -> Seq<u16>
    decreases s.len(),
{
    if s.len() == 0 {
        Seq::empty()
    } else {
        units(s[0]) + encoded(s.skip(1))
    }
}

/// The text that the first `len` units of `v` stand for.
pub fn decode(v: &Vec<u16>, len: usize) -> (r: String)
    requires
        len <= v.len(),
    ensures
        r@ == decoded(v@.take(len as int)),
{
    let mut r = String::new();
    let mut i: usize = 0;
    let ghost s = v@.take(len as int);
    assert(s.skip(0) =~= s);
    while i < len
        invariant
            i <= len <= v.len(),
            s == v@.take(len as int),
            r@ + decoded(s.skip(i as int)) == decoded(s),
        decreases len - i,
    {
        let u = v[i];
        let ghost rest = s.skip(i as int);
        assert(rest[0] == u);
        assert(rest.skip(1) =~= s.skip(i + 1));
        let high = 0xD800 <= u && u < 0xDC00;
        if high && i + 1 < len && 0xDC00 <= v[i + 1] && v[i + 1] < 0xE000 {
            assert(rest[1] == v@[i + 1]);
            assert(rest.skip(2) =~= s.skip(i + 2));
            let code: u32 = 0x1_0000 + 0x400 * (u as u32 - 0xD800) + (v[i + 1] as u32 - 0xDC00);
            let c = char::from_u32(code).unwrap();
            let ghost before = r@;
            r.push(c);
            i += 2;
            assert(r@ + decoded(s.skip(i as int)) =~= before + decoded(rest));
        } else if high || (0xDC00 <= u && u < 0xE000) {
            let ghost before = r@;
            r.push('\u{FFFD}');
            i += 1;
            assert(r@ + decoded(s.skip(i as int)) =~= before + decoded(rest));
        } else {
            let c = char::from_u32(u as u32).unwrap();
            let ghost before = r@;
            r.push(c);
            i += 1;
            assert(r@ + decoded(s.skip(i as int)) =~= before + decoded(rest));
        }
    }
    assert(s.skip(len as int) =~= Seq::empty());
    assert(r@ =~= decoded(s));
    r
}

fn push_units(r: &mut Vec<u16>, c: char)
    ensures
        final(r)@ == old(r)@ + units(c),
{
    let u = c as u32;
    if u < 0x1_0000 {
        r.push(u as u16);
    } else {
        r.push((0xD800 + (u - 0x1_0000) / 0x400) as u16);
        r.push((0xDC00 + (u - 0x1_0000) % 0x400) as u16);
    }
    assert(r@ =~= old(r)@ + units(c));
}

/// The units of a text.
pub fn encode(s: &str) -> (r: Vec<u16>)
    ensures
        r@ == encoded(s@),
{
    let v = chars_of(s);
    let mut r: Vec<u16> = Vec::new();
    let mut i: usize = 0;
    assert(v@.skip(0) =~= v@);
    while i < v.len()
        invariant
            i <= v.len(),
            v@ == s@,
            r@ + encoded(v@.skip(i as int)) == encoded(v@),
        decreases v.len() - i,
    {
        let ghost before = r@;
        let ghost rest = v@.skip(i as int);
        assert(rest[0] == v@[i as int]);
        assert(rest.skip(1) =~= v@.skip(i + 1));
        push_units(&mut r, v[i]);
        i += 1;
        assert(r@ + encoded(v@.skip(i as int)) =~= before + encoded(rest));
    }
    assert(v@.skip(v@.len() as int) =~= Seq::empty());
    assert(r@ =~= encoded(v@));
    r
}

/// The units of a text, with a zero behind them.
pub fn encode_nul(s: &str) -> (r: Vec<u16>)
    ensures
        r@ == encoded(s@).push(0),
{
    let mut r = encode(s);
    r.push(0);
    r
}

/// The bytes of a sequence of units.
pub open spec fn unit_bytes(s: Seq<u16>) -> Seq<u8> {
    Seq::new(2 * s.len(), |i: int| bytes16(s[i / 2] as int)[i % 2])
}

/// The bytes of a sequence of units, low byte first.
pub fn to_bytes(v: &Vec<u16>) -> (r: Vec<u8>)
    ensures
        r@ == unit_bytes(v@),
{
    let mut r: Vec<u8> = Vec::new();
    let mut i: usize = 0;
    while i < v.len()
        invariant
            i <= v.len(),
            r@ == unit_bytes(v@.take(i as int)),
        decreases v.len() - i,
    {
        r.push((v[i] % 0x100) as u8);
        r.push((v[i] / 0x100) as u8);
        i += 1;
        assert(r@ =~= unit_bytes(v@.take(i as int)));
    }
    assert(v@.take(v@.len() as int) =~= v@);
    r
}

proof fn lemma_decode_units(c: char, t: Seq<u16>)
    ensures
        decoded(units(c) + t) == seq![c] + decoded(t),
{
    let s = units(c) + t;
    if (c as int) < 0x1_0000 {
        assert(s[0] == c as u16);
        assert(s.skip(1) =~= t);
        assert(!is_high(s[0]) && !is_low(s[0]));
    } else {
        assert(s.skip(2) =~= t);
        assert(is_high(s[0]) && is_low(s[1]));
        assert(pair_char(s[0], s[1]) == c);
    }
}

/// Decoding the units of a text gives the text back.
pub proof fn law_decode_encode(s: Seq<char>)
    ensures
        decoded(encoded(s)) == s,
    decreases s.len(),
{
    if s.len() > 0 {
        law_decode_encode(s.skip(1));
        lemma_decode_units(s[0], encoded(s.skip(1)));
        assert(seq![s[0]] + s.skip(1) =~= s);
    } else {
        assert(decoded(encoded(s)) =~= s);
    }
}

/// How single units and pairs are read: a unit outside the surrogates is the
/// character with that number, a pair is one character from U+10000 on, and half
/// of a pair is the replacement character, read by itself.
pub proof fn law_decode_units(u: u16, v: u16, t: Seq<u16>)
    ensures
        u < 0xD800 || u >= 0xE000 ==> decoded(seq![u] + t) == seq![u as char] + decoded(t),
        0xDC00 <= u < 0xE000 ==> decoded(seq![u] + t) == seq!['\u{FFFD}'] + decoded(t),
        0xD800 <= u < 0xDC00 && !(0xDC00 <= v < 0xE000) ==> decoded(seq![u, v] + t)
            == seq!['\u{FFFD}'] + decoded(seq![v] + t),
        0xD800 <= u < 0xDC00 ==> decoded(seq![u]) == seq!['\u{FFFD}'],
        0xD800 <= u < 0xDC00 && 0xDC00 <= v < 0xE000 ==> decoded(seq![u, v] + t) == seq![
            (0x1_0000 + 0x400 * (u - 0xD800) + (v - 0xDC00)) as char,
        ] + decoded(t),
        decoded(Seq::<u16>::empty()).len() == 0,
{
    assert((seq![u] + t).skip(1) =~= t);
    assert((seq![u, v] + t).skip(2) =~= t);
    assert((seq![u, v] + t).skip(1) =~= seq![v] + t);
    assert(seq![u].skip(1) =~= Seq::empty());
    assert(decoded(seq![u].skip(1)) =~= Seq::empty());
    assert(seq!['\u{FFFD}'] + Seq::<char>::empty() =~= seq!['\u{FFFD}']);
}

/// How characters are written: one unit below U+10000, with its own number, and a
/// high and a low surrogate from there on; a text is written character by
/// character.
pub proof fn law_encode_units(c: char, t: Seq<char>)
    ensures
        (c as int) < 0x1_0000 ==> units(c).len() == 1 && units(c)[0] == c as int,
        (c as int) >= 0x1_0000 ==> {
            &&& units(c).len() == 2
            &&& 0xD800 <= units(c)[0] < 0xDC00
            &&& 0xDC00 <= units(c)[1] < 0xE000
            &&& c as int == 0x1_0000 + 0x400 * (units(c)[0] - 0xD800) + (units(c)[1] - 0xDC00)
        },
        encoded(seq![c] + t) == units(c) + encoded(t),
        encoded(Seq::<char>::empty()).len() == 0,
{
    assert((seq![c] + t).skip(1) =~= t);
}

/// Units are laid out in memory with their low byte first.
pub proof fn law_unit_bytes(s: Seq<u16>, i: int)
    requires
        0 <= i < s.len(),
    ensures
        unit_bytes(s).len() == 2 * s.len(),
        unit_bytes(s)[2 * i] + 0x100 * unit_bytes(s)[2 * i + 1] == s[i],
{
    assert((2 * i) / 2 == i && (2 * i) % 2 == 0);
    assert((2 * i + 1) / 2 == i && (2 * i + 1) % 2 == 1);
}

} // verus!
