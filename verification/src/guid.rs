//! Globally unique identifiers.

use vstd::prelude::*;
use crate::constants::DRIVER_CLSID_STR;
use crate::text::{
    chars_of, digit_value, digits_value, hex_number, lemma_position_is, read_hex, split, split_chars,
    trim_end, trim_range, trim_start, trimmed, TrimSet,
};

verus! {

/// A globally unique identifier, in the four fields of its binary form.
#[derive(Clone, Copy, Debug)]
pub struct Guid {
    pub data1: u32,
    pub data2: u16,
    pub data3: u16,
    pub data4: [u8; 8],
}

/// What a [`Guid`] holds, with its last field as a sequence of eight bytes.
pub struct GuidModel {
    pub data1: u32,
    pub data2: u16,
    pub data3: u16,
    pub data4: Seq<u8>,
}

impl View for Guid {
    type V = GuidModel;

    open spec fn view(&self) -> GuidModel {
        GuidModel {
            data1: self.data1,
            data2: self.data2,
            data3: self.data3,
            data4: self.data4@,
        }
    }
}

impl Guid {
    /// Whether the two identifiers are the same.
    pub fn same(&self, other: &Guid) -> (r: bool)
        ensures
            r == (self@ == other@),
    {
        if self.data1 != other.data1 || self.data2 != other.data2 || self.data3 != other.data3 {
            return false;
        }
        let mut i: usize = 0;
        while i < 8
            invariant
                i <= 8,
                self.data1 == other.data1,
                self.data2 == other.data2,
                self.data3 == other.data3,
                forall|j: int| 0 <= j < i ==> self.data4@[j] == other.data4@[j],
            decreases 8 - i,
        {
            if self.data4[i] != other.data4[i] {
                return false;
            }
            i += 1;
        }
        assert(self.data4@ =~= other.data4@);
        true
    }
}

/// `IID_IUnknown` {00000000-0000-0000-C000-000000000046}
pub open spec fn iid_iunknown_spec() -> GuidModel {
    GuidModel {
        data1: 0,
        data2: 0,
        data3: 0,
        data4: seq![0xC0u8, 0, 0, 0, 0, 0, 0, 0x46],
    }
}

/// `IID_IUnknown` {00000000-0000-0000-C000-000000000046}
pub fn iid_iunknown() -> (r: Guid)
    ensures
        r@ == iid_iunknown_spec(),
{
    let r = Guid { data1: 0, data2: 0, data3: 0, data4: [0xC0, 0, 0, 0, 0, 0, 0, 0x46] };
    assert(r.data4@ =~= iid_iunknown_spec().data4);
    r
}

/// `IID_IClassFactory` {00000001-0000-0000-C000-000000000046}
pub open spec fn iid_iclassfactory_spec() -> GuidModel {
    GuidModel {
        data1: 1,
        data2: 0,
        data3: 0,
        data4: seq![0xC0u8, 0, 0, 0, 0, 0, 0, 0x46],
    }
}

/// `IID_IClassFactory` {00000001-0000-0000-C000-000000000046}
pub fn iid_iclassfactory() -> (r: Guid)
    ensures
        r@ == iid_iclassfactory_spec(),
{
    let r = Guid { data1: 1, data2: 0, data3: 0, data4: [0xC0, 0, 0, 0, 0, 0, 0, 0x46] };
    assert(r.data4@ =~= iid_iclassfactory_spec().data4);
    r
}

/// The interface identifier of the driver's IASIO interface
/// {8F3D4A2B-E1C7-4F89-A0D3-6B2E9C1F5847}.
pub open spec fn iid_iasio_spec() -> GuidModel {
    GuidModel {
        data1: 0x8F3D4A2B,
        data2: 0xE1C7,
        data3: 0x4F89,
        data4: seq![0xA0u8, 0xD3, 0x6B, 0x2E, 0x9C, 0x1F, 0x58, 0x47],
    }
}

/// The interface identifier of the driver's IASIO interface
/// {8F3D4A2B-E1C7-4F89-A0D3-6B2E9C1F5847}.
pub fn iid_iasio() -> (r: Guid)
    ensures
        r@ == iid_iasio_spec(),
{
    let r = Guid {
        data1: 0x8F3D4A2B,
        data2: 0xE1C7,
        data3: 0x4F89,
        data4: [0xA0, 0xD3, 0x6B, 0x2E, 0x9C, 0x1F, 0x58, 0x47],
    };
    assert(r.data4@ =~= iid_iasio_spec().data4);
    r
}

// ---------------------------------------------------------------------------
// Text form
// ---------------------------------------------------------------------------

/// The bytes that the first sixteen characters of `s` write, two to a byte.
pub open spec fn byte_pairs(s: Seq<char>) -> Seq<Option<int>> {
    Seq::new(8, |i: int| hex_number(s.subrange(2 * i, 2 * i + 2), 0x100))
}

/// The identifier that `text` writes: five parts with hyphens between them, in
/// braces or not. The first three parts are the first three fields; the other
/// two, put together, hold the bytes of the last one, and what stands behind
/// those bytes does not count.
pub open spec fn guid_of(text: Seq<char>) -> Option<GuidModel> {
    let parts = split(trimmed(text, TrimSet::Braces), '-');
    let tail = parts[3] + parts[4];
    let bytes = byte_pairs(tail);
    if parts.len() != 5 || tail.len() < 16 || exists|i: int|
        0 <= i < 8 && #[trigger] bytes[i] is None {
        None
    } else {
        match (
            hex_number(parts[0], 0x1_0000_0000),
            hex_number(parts[1], 0x1_0000),
            hex_number(parts[2], 0x1_0000),
        ) {
            (Some(a), Some(b), Some(c)) => Some(
                GuidModel {
                    data1: a as u32,
                    data2: b as u16,
                    data3: c as u16,
                    data4: Seq::new(8, |i: int| bytes[i]->0 as u8),
                },
            ),
            _ => None,
        }
    }
}

fn read_whole(part: &Vec<char>, bound: u64) -> (r: Option<u64>)
    requires
        bound <= 0x1_0000_0000,
    ensures
        match hex_number(part@, bound as int) {
            Some(n) => r == Some(n as u64) && 0 <= n < bound,
            None => r is None,
        },
{
    assert(part@.subrange(0, part@.len() as int) =~= part@);
    read_hex(part, 0, part.len(), bound)
}

fn read_bytes(tail: &Vec<char>) -> (r: Option<[u8; 8]>)
    requires
        tail.len() >= 16,
    ensures
        r is None <==> exists|i: int| 0 <= i < 8 && #[trigger] byte_pairs(tail@)[i] is None,
        r matches Some(b) ==> b@ == Seq::new(8, |i: int| byte_pairs(tail@)[i]->0 as u8),
{
    let mut b: [u8; 8] = [0; 8];
    let mut i: usize = 0;
    let ghost pairs = byte_pairs(tail@);
    while i < 8
        invariant
            i <= 8,
            tail.len() >= 16,
            pairs == byte_pairs(tail@),
            forall|j: int| 0 <= j < i ==> #[trigger] pairs[j] is Some,
            forall|j: int| 0 <= j < i ==> #[trigger] b@[j] == pairs[j]->0 as u8,
        decreases 8 - i,
    {
        match read_hex(tail, 2 * i, 2 * i + 2, 0x100) {
            None => {
                assert(pairs[i as int] is None);
                return None;
            },
            Some(n) => {
                assert(pairs[i as int] == Some(n as int));
                b[i] = n as u8;
            },
        }
        i += 1;
    }
    assert(b@ =~= Seq::new(8, |i: int| pairs[i]->0 as u8));
    Some(b)
}

fn read_guid(text: &str) -> (r: Option<Guid>)
    ensures
        match guid_of(text@) {
            Some(g) => r matches Some(x) && x@ == g,
            None => r is None,
        },
{
    let v = chars_of(text);
    let (from, to) = trim_range(&v, 0, v.len(), TrimSet::Braces);
    assert(v@.subrange(0, v@.len() as int) =~= v@);
    let parts = split_chars(&v, from, to, '-');
    let ghost models = parts@.map_values(|p: Vec<char>| p@);
    assert(models == split(trimmed(text@, TrimSet::Braces), '-'));
    if parts.len() != 5 {
        return None;
    }
    assert(forall|i: int| 0 <= i < 5 ==> #[trigger] models[i] == parts@[i]@);
    let mut tail: Vec<char> = Vec::new();
    let mut i: usize = 0;
    while i < parts[3].len()
        invariant
            parts.len() == 5,
            i <= parts@[3]@.len(),
            tail@ == parts@[3]@.take(i as int),
        decreases parts@[3]@.len() - i,
    {
        tail.push(parts[3][i]);
        i += 1;
    }
    let mut i: usize = 0;
    assert(tail@ =~= parts@[3]@ + parts@[4]@.take(0));
    while i < parts[4].len()
        invariant
            parts.len() == 5,
            i <= parts@[4]@.len(),
            tail@ == parts@[3]@ + parts@[4]@.take(i as int),
        decreases parts@[4]@.len() - i,
    {
        tail.push(parts[4][i]);
        i += 1;
        assert(tail@ =~= parts@[3]@ + parts@[4]@.take(i as int));
    }
    assert(tail@ =~= models[3] + models[4]);
    if tail.len() < 16 {
        return None;
    }
    let data4 = read_bytes(&tail);
    let data1 = read_whole(&parts[0], 0x1_0000_0000);
    let data2 = read_whole(&parts[1], 0x1_0000);
    let data3 = read_whole(&parts[2], 0x1_0000);
    match (data1, data2, data3, data4) {
        (Some(a), Some(b), Some(c), Some(d)) => Some(
            Guid { data1: a as u32, data2: b as u16, data3: c as u16, data4: d },
        ),
        _ => None,
    }
}

/// Reads an identifier in its text form.
pub fn parse_guid(text: &str) -> (r: Guid)
    requires
        guid_of(text@) is Some,
    ensures
        Some(r@) == guid_of(text@),
{
    match read_guid(text) {
        Some(g) => g,
        None => iid_iunknown(),
    }
}

proof fn lemma_hex2(s: Seq<char>)
    requires
        s.len() == 2,
        s[0] != '+',
        digit_value(s[0]) is Some,
        digit_value(s[1]) is Some,
    ensures
        hex_number(s, 0x100) == Some(16 * digit_value(s[0])->0 + digit_value(s[1])->0),
{
    reveal_with_fuel(digits_value, 3);
    assert(s.drop_last().drop_last() =~= Seq::empty());
}

proof fn lemma_hex4(s: Seq<char>)
    requires
        s.len() == 4,
        s[0] != '+',
        forall|i: int| 0 <= i < 4 ==> digit_value(#[trigger] s[i]) is Some,
    ensures
        hex_number(s, 0x1_0000) == Some(
            0x1000 * digit_value(s[0])->0 + 0x100 * digit_value(s[1])->0 + 0x10 * digit_value(
                s[2],
            )->0 + digit_value(s[3])->0,
        ),
{
    reveal_with_fuel(digits_value, 5);
    assert(s.drop_last().drop_last().drop_last().drop_last() =~= Seq::empty());
}

proof fn lemma_next_digit(s: Seq<char>, k: int)
    requires
        0 <= k < s.len(),
        digits_value(s.take(k)) is Some,
        digit_value(s[k]) is Some,
    ensures
        digits_value(s.take(k + 1)) == Some(
            16 * digits_value(s.take(k))->0 + digit_value(s[k])->0,
        ),
{
    assert(s.take(k + 1).drop_last() =~= s.take(k));
}

proof fn lemma_first_field(s: Seq<char>)
    requires
        s == seq!['8', 'F', '3', 'D', '4', 'A', '2', 'B'],
    ensures
        hex_number(s, 0x1_0000_0000) == Some(0x8F3D_4A2Bint),
{
    assert(s.take(0) =~= Seq::empty());
    lemma_next_digit(s, 0);
    lemma_next_digit(s, 1);
    lemma_next_digit(s, 2);
    lemma_next_digit(s, 3);
    lemma_next_digit(s, 4);
    lemma_next_digit(s, 5);
    lemma_next_digit(s, 6);
    lemma_next_digit(s, 7);
    assert(s.take(8) =~= s);
}

/// The driver's class identifier is also the identifier of its IASIO interface.
pub proof fn law_class_is_interface()
    ensures
        guid_of(DRIVER_CLSID_STR@) == Some(iid_iasio_spec()),
{
    reveal_strlit("{8F3D4A2B-E1C7-4F89-A0D3-6B2E9C1F5847}");
    let text = DRIVER_CLSID_STR@;
    let braces = TrimSet::Braces;
    let inner = text.subrange(1, 37);
    assert(text.drop_first().drop_last() =~= inner);
    reveal_with_fuel(trim_start, 2);
    reveal_with_fuel(trim_end, 2);
    assert(trim_start(text, braces) == text.drop_first());
    assert(trimmed(text, braces) == inner);
    lemma_position_is(inner, '-', 8);
    let s1 = inner.skip(9);
    lemma_position_is(s1, '-', 4);
    let s2 = s1.skip(5);
    lemma_position_is(s2, '-', 4);
    let s3 = s2.skip(5);
    lemma_position_is(s3, '-', 4);
    let s4 = s3.skip(5);
    lemma_position_is(s4, '-', 12);
    let parts = split(inner, '-');
    reveal_with_fuel(split, 6);
    assert(parts =~= seq![inner.take(8), s1.take(4), s2.take(4), s3.take(4), s4]);
    assert(inner.take(8) =~= seq!['8', 'F', '3', 'D', '4', 'A', '2', 'B']);
    lemma_first_field(inner.take(8));
    lemma_hex4(s1.take(4));
    lemma_hex4(s2.take(4));
    let tail = s3.take(4) + s4;
    let bytes = byte_pairs(tail);
    assert(tail =~= seq!['A', '0', 'D', '3', '6', 'B', '2', 'E', '9', 'C', '1', 'F', '5', '8', '4', '7']);
    assert forall|i: int| 0 <= i < 8 implies #[trigger] bytes[i] == Some(iid_iasio_spec().data4[i] as int) by {
        lemma_hex2(tail.subrange(2 * i, 2 * i + 2));
    }
    assert(guid_of(text)->0.data4 =~= iid_iasio_spec().data4);
}

/// The text form of an identifier with these thirty-two digits: groups of eight,
/// four, four, four and twelve, with hyphens between them.
pub open spec fn hyphenated(d: Seq<char>) -> Seq<char> {
    d.subrange(0, 8) + seq!['-'] + d.subrange(8, 12) + seq!['-'] + d.subrange(12, 16) + seq!['-']
        + d.subrange(16, 20) + seq!['-'] + d.subrange(20, 32)
}

proof fn lemma_digit(c: char)
    requires
        digit_value(c) is Some,
    ensures
        0 <= digit_value(c)->0 < 16,
        c != '-' && c != '{' && c != '}' && c != '+',
{
}

proof fn lemma_hex8(s: Seq<char>)
    requires
        s.len() == 8,
        forall|i: int| 0 <= i < 8 ==> digit_value(#[trigger] s[i]) is Some,
    ensures
        digits_value(s) is Some,
        hex_number(s, 0x1_0000_0000) == digits_value(s),
        0 <= digits_value(s)->0 < 0x1_0000_0000,
{
    assert(s.take(0) =~= Seq::empty());
    lemma_digit(s[0]);
    lemma_digit(s[1]);
    lemma_digit(s[2]);
    lemma_digit(s[3]);
    lemma_digit(s[4]);
    lemma_digit(s[5]);
    lemma_digit(s[6]);
    lemma_digit(s[7]);
    lemma_next_digit(s, 0);
    lemma_next_digit(s, 1);
    lemma_next_digit(s, 2);
    lemma_next_digit(s, 3);
    lemma_next_digit(s, 4);
    lemma_next_digit(s, 5);
    lemma_next_digit(s, 6);
    lemma_next_digit(s, 7);
    assert(s.take(8) =~= s);
}

proof fn lemma_hex4_value(s: Seq<char>)
    requires
        s.len() == 4,
        forall|i: int| 0 <= i < 4 ==> digit_value(#[trigger] s[i]) is Some,
    ensures
        digits_value(s) is Some,
        hex_number(s, 0x1_0000) == digits_value(s),
        0 <= digits_value(s)->0 < 0x1_0000,
{
    assert(s.take(0) =~= Seq::empty());
    lemma_digit(s[0]);
    lemma_digit(s[1]);
    lemma_digit(s[2]);
    lemma_digit(s[3]);
    lemma_next_digit(s, 0);
    lemma_next_digit(s, 1);
    lemma_next_digit(s, 2);
    lemma_next_digit(s, 3);
    assert(s.take(4) =~= s);
}

proof fn lemma_split_hyphenated(d: Seq<char>)
    requires
        d.len() == 32,
        forall|i: int| 0 <= i < 32 ==> digit_value(#[trigger] d[i]) is Some,
    ensures
        split(hyphenated(d), '-') == seq![
            d.subrange(0, 8),
            d.subrange(8, 12),
            d.subrange(12, 16),
            d.subrange(16, 20),
            d.subrange(20, 32),
        ],
{
    assert forall|i: int| 0 <= i < 32 implies #[trigger] d[i] != '-' by {
        lemma_digit(d[i]);
    }
    let s0 = hyphenated(d);
    let s4 = d.subrange(20, 32);
    let s3 = d.subrange(16, 20) + seq!['-'] + s4;
    let s2 = d.subrange(12, 16) + seq!['-'] + s3;
    let s1 = d.subrange(8, 12) + seq!['-'] + s2;
    assert(s0 =~= d.subrange(0, 8) + seq!['-'] + s1);
    lemma_position_is(s0, '-', 8);
    lemma_position_is(s1, '-', 4);
    lemma_position_is(s2, '-', 4);
    lemma_position_is(s3, '-', 4);
    lemma_position_is(s4, '-', 12);
    assert(s0.take(8) =~= d.subrange(0, 8));
    assert(s0.skip(9) =~= s1);
    assert(s1.take(4) =~= d.subrange(8, 12));
    assert(s1.skip(5) =~= s2);
    assert(s2.take(4) =~= d.subrange(12, 16));
    assert(s2.skip(5) =~= s3);
    assert(s3.take(4) =~= d.subrange(16, 20));
    assert(s3.skip(5) =~= s4);
    assert(split(s4, '-') =~= seq![s4]);
    assert(split(s3, '-') =~= seq![d.subrange(16, 20), s4]);
    assert(split(s2, '-') =~= seq![d.subrange(12, 16), d.subrange(16, 20), s4]);
    assert(split(s1, '-') =~= seq![
        d.subrange(8, 12),
        d.subrange(12, 16),
        d.subrange(16, 20),
        s4,
    ]);
    assert(split(s0, '-') =~= seq![
        d.subrange(0, 8),
        d.subrange(8, 12),
        d.subrange(12, 16),
        d.subrange(16, 20),
        s4,
    ]);
}

/// Every identifier in its text form is read, with braces or without, in either
/// case: the first three groups are the first three fields, and every two of the
/// other digits are a byte of the last.
pub proof fn law_parse_guid(d: Seq<char>)
    requires
        d.len() == 32,
        forall|i: int| 0 <= i < 32 ==> digit_value(#[trigger] d[i]) is Some,
    ensures
        guid_of(hyphenated(d)) is Some,
        guid_of(seq!['{'] + hyphenated(d) + seq!['}']) == guid_of(hyphenated(d)),
        ({
            let g = guid_of(hyphenated(d))->0;
            &&& Some(g.data1 as int) == digits_value(d.subrange(0, 8))
            &&& Some(g.data2 as int) == digits_value(d.subrange(8, 12))
            &&& Some(g.data3 as int) == digits_value(d.subrange(12, 16))
            &&& g.data4.len() == 8
            &&& forall|i: int|
                0 <= i < 8 ==> #[trigger] g.data4[i] == 16 * digit_value(d[16 + 2 * i])->0
                    + digit_value(d[17 + 2 * i])->0
        }),
{
    let inner = hyphenated(d);
    let text = seq!['{'] + inner + seq!['}'];
    let braces = TrimSet::Braces;
    lemma_digit(d[0]);
    lemma_digit(d[31]);
    assert(inner[0] == d[0] && inner.last() == d[31]);
    assert(trimmed(inner, braces) == inner);
    assert(text.drop_first() =~= inner + seq!['}']);
    assert((inner + seq!['}']).drop_last() =~= inner);
    reveal_with_fuel(trim_start, 2);
    reveal_with_fuel(trim_end, 2);
    assert(trim_start(text, braces) == inner + seq!['}']);
    assert(trimmed(text, braces) == inner);
    lemma_split_hyphenated(d);
    lemma_hex8(d.subrange(0, 8));
    lemma_hex4_value(d.subrange(8, 12));
    lemma_hex4_value(d.subrange(12, 16));
    let tail = d.subrange(16, 20) + d.subrange(20, 32);
    assert(tail =~= d.subrange(16, 32));
    let bytes = byte_pairs(tail);
    assert forall|i: int| 0 <= i < 8 implies #[trigger] bytes[i] == Some(
        16 * digit_value(d[16 + 2 * i])->0 + digit_value(d[17 + 2 * i])->0,
    ) && bytes[i]->0 < 256 && bytes[i]->0 >= 0 by {
        let two = tail.subrange(2 * i, 2 * i + 2);
        assert(two[0] == d[16 + 2 * i] && two[1] == d[17 + 2 * i]);
        lemma_digit(two[0]);
        lemma_digit(two[1]);
        lemma_hex2(two);
    }
}

/// Text that has not five groups is no identifier, and neither is one whose first
/// three groups are no numbers of their size.
pub proof fn law_no_guid(text: Seq<char>)
    ensures
        ({
            let parts = split(trimmed(text, TrimSet::Braces), '-');
            &&& parts.len() != 5 ==> guid_of(text) is None
            &&& parts.len() == 5 && hex_number(parts[0], 0x1_0000_0000) is None ==> guid_of(text)
                is None
            &&& parts.len() == 5 && hex_number(parts[1], 0x1_0000) is None ==> guid_of(text) is None
            &&& parts.len() == 5 && hex_number(parts[2], 0x1_0000) is None ==> guid_of(text) is None
            &&& parts.len() == 5 && parts[3].len() + parts[4].len() < 16 ==> guid_of(text) is None
        }),
{
}

/// The identifiers of the two interfaces that every class has to do with differ in
/// their first field alone, which is zero for the one and one for the other.
pub proof fn law_standard_interfaces(i: int)
    ensures
        iid_iunknown_spec().data1 == 0 && iid_iclassfactory_spec().data1 == 1,
        iid_iunknown_spec().data2 == 0 && iid_iclassfactory_spec().data2 == 0,
        iid_iunknown_spec().data3 == 0 && iid_iclassfactory_spec().data3 == 0,
        iid_iunknown_spec().data4 == iid_iclassfactory_spec().data4,
        iid_iunknown_spec().data4.len() == 8,
        0 <= i < 8 ==> iid_iunknown_spec().data4[i] == (if i == 0 {
            0xC0int
        } else if i == 7 {
            0x46int
        } else {
            0int
        }),
{
}

/// An identifier is what its fields say.
pub proof fn law_view_of_a_guid(g: Guid)
    ensures
        g@.data1 == g.data1 && g@.data2 == g.data2 && g@.data3 == g.data3,
        g@.data4 == g.data4@,
{
}

} // verus!
