//! Little-endian integers in byte buffers.

use vstd::prelude::*;

verus! {

/// The unsigned 16-bit integer at `off`.
pub open spec fn le16(s: Seq<u8>, off: int) -> int {
    s[off] + 0x100 * s[off + 1]
}

/// The unsigned 32-bit integer at `off`.
pub open spec fn le32(s: Seq<u8>, off: int) -> int {
    le16(s, off) + 0x1_0000 * le16(s, off + 2)
}

/// A value below `full` taken as a two's complement number.
pub open spec fn signed(value: int, full: int) -> int {
    if 2 * value < full {
        value
    } else {
        value - full
    }
}

/// Reads the unsigned 16-bit integer at `off`.
pub fn read_u16(buf: &Vec<u8>, off: usize) -> (r: u16)
    requires
        off + 2 <= buf.len(),
    ensures
        r == le16(buf@, off as int),
{
    buf[off] as u16 + 0x100 * (buf[off + 1] as u16)
}

/// Reads the unsigned 32-bit integer at `off`.
pub fn read_u32(buf: &Vec<u8>, off: usize) -> (r: u32)
    requires
        off + 4 <= buf.len(),
    ensures
        r == le32(buf@, off as int),
{
    read_u16(buf, off) as u32 + 0x1_0000 * (read_u16(buf, off + 2) as u32)
}

/// Reads the signed 16-bit integer at `off`.
pub fn read_i16(buf: &Vec<u8>, off: usize) -> (r: i32)
    requires
        off + 2 <= buf.len(),
    ensures
        r == signed(le16(buf@, off as int), 0x1_0000),
{
    let v = read_u16(buf, off) as i32;
    if v < 0x8000 {
        v
    } else {
        v - 0x1_0000
    }
}

/// The unsigned 24-bit integer at `off`.
pub open spec fn le24(s: Seq<u8>, off: int) -> int {
    le16(s, off) + 0x1_0000 * s[off + 2]
}

/// Reads the signed 24-bit integer at `off`.
pub fn read_i24(buf: &Vec<u8>, off: usize) -> (r: i32)
    requires
        off + 3 <= buf.len(),
    ensures
        r == signed(le24(buf@, off as int), 0x100_0000),
{
    let v = read_u16(buf, off) as i32 + 0x1_0000 * (buf[off + 2] as i32);
    if v < 0x80_0000 {
        v
    } else {
        v - 0x100_0000
    }
}

/// Reads the signed 32-bit integer at `off`.
pub fn read_i32(buf: &Vec<u8>, off: usize) -> (r: i32)
    requires
        off + 4 <= buf.len(),
    ensures
        r == signed(le32(buf@, off as int), 0x1_0000_0000),
{
    let v = read_u32(buf, off) as i64;
    if v < 0x8000_0000 {
        v as i32
    } else {
        (v - 0x1_0000_0000) as i32
    }
}

/// The value below `full` that stands for `v` in two's complement.
pub open spec fn unsigned(v: int, full: int) -> int {
    if v < 0 {
        v + full
    } else {
        v
    }
}

/// The two bytes of a 16-bit integer.
pub open spec fn bytes16(v: int) -> Seq<u8> {
    let u = unsigned(v, 0x1_0000);
    seq![(u % 0x100) as u8, (u / 0x100) as u8]
}

/// The four bytes of a 32-bit integer.
pub open spec fn bytes32(v: int) -> Seq<u8> {
    let u = unsigned(v, 0x1_0000_0000);
    seq![
        (u % 0x100) as u8,
        (u / 0x100 % 0x100) as u8,
        (u / 0x1_0000 % 0x100) as u8,
        (u / 0x100_0000) as u8,
    ]
}

/// Appends the two bytes of a signed 16-bit integer.
pub fn push_i16(buf: &mut Vec<u8>, v: i32)
    requires
        -0x8000 <= v < 0x8000,
    ensures
        final(buf)@ == old(buf)@ + bytes16(v as int),
{
    let u: u32 = if v < 0 {
        (v + 0x1_0000) as u32
    } else {
        v as u32
    };
    buf.push((u % 0x100) as u8);
    buf.push((u / 0x100) as u8);
    assert(buf@ =~= old(buf)@ + bytes16(v as int));
}

/// Appends the four bytes of a signed 32-bit integer.
pub fn push_i32(buf: &mut Vec<u8>, v: i32)
    ensures
        final(buf)@ == old(buf)@ + bytes32(v as int),
{
    let u: u64 = if v < 0 {
        (v as i64 + 0x1_0000_0000) as u64
    } else {
        v as u64
    };
    buf.push((u % 0x100) as u8);
    buf.push((u / 0x100 % 0x100) as u8);
    buf.push((u / 0x1_0000 % 0x100) as u8);
    buf.push((u / 0x100_0000) as u8);
    assert(buf@ =~= old(buf)@ + bytes32(v as int));
}

/// Reading the bytes of a 16-bit integer gives the integer back.
pub proof fn law_bytes16(s: Seq<u8>, off: int, v: int)
    requires
        -0x8000 <= v < 0x8000,
        0 <= off,
        off + 2 <= s.len(),
        s.subrange(off, off + 2) == bytes16(v),
    ensures
        signed(le16(s, off), 0x1_0000) == v,
{
    assert(s[off] == s.subrange(off, off + 2)[0]);
    assert(s[off + 1] == s.subrange(off, off + 2)[1]);
}

/// Reading the bytes of a 32-bit integer gives the integer back.
pub proof fn law_bytes32(s: Seq<u8>, off: int, v: int)
    requires
        -0x8000_0000 <= v < 0x8000_0000,
        0 <= off,
        off + 4 <= s.len(),
        s.subrange(off, off + 4) == bytes32(v),
    ensures
        signed(le32(s, off), 0x1_0000_0000) == v,
{
    let t = s.subrange(off, off + 4);
    assert(s[off] == t[0]);
    assert(s[off + 1] == t[1]);
    assert(s[off + 2] == t[2]);
    assert(s[off + 3] == t[3]);
}

/// Writing the 16-bit integer that was read gives the bytes back.
pub proof fn law_read16(s: Seq<u8>, off: int)
    requires
        0 <= off,
        off + 2 <= s.len(),
    ensures
        -0x8000 <= signed(le16(s, off), 0x1_0000) < 0x8000,
        bytes16(signed(le16(s, off), 0x1_0000)) == s.subrange(off, off + 2),
{
    assert(bytes16(signed(le16(s, off), 0x1_0000)) =~= s.subrange(off, off + 2));
}

/// Writing the 32-bit integer that was read gives the bytes back.
pub proof fn law_read32(s: Seq<u8>, off: int)
    requires
        0 <= off,
        off + 4 <= s.len(),
    ensures
        -0x8000_0000 <= signed(le32(s, off), 0x1_0000_0000) < 0x8000_0000,
        bytes32(signed(le32(s, off), 0x1_0000_0000)) == s.subrange(off, off + 4),
{
    assert(bytes32(signed(le32(s, off), 0x1_0000_0000)) =~= s.subrange(off, off + 4));
}

/// The low byte goes first: each byte counts 256 times the one before it, and the
/// highest bit counts against the rest.
pub proof fn law_low_byte_first(s: Seq<u8>, off: int)
    requires
        0 <= off,
        off + 4 <= s.len(),
    ensures
        le16(s, off) == s[off] + 256 * s[off + 1],
        le24(s, off) == s[off] + 256 * s[off + 1] + 65536 * s[off + 2],
        le32(s, off) == s[off] + 256 * s[off + 1] + 65536 * s[off + 2] + 16777216 * s[off + 3],
        signed(le16(s, off), 0x1_0000) == s[off] + 256 * s[off + 1] - (if s[off + 1] >= 128 {
            65536int
        } else {
            0
        }),
        signed(le24(s, off), 0x100_0000) == s[off] + 256 * s[off + 1] + 65536 * s[off + 2] - (if s[off
            + 2] >= 128 {
            16777216int
        } else {
            0
        }),
        signed(le32(s, off), 0x1_0000_0000) == s[off] + 256 * s[off + 1] + 65536 * s[off + 2]
            + 16777216 * s[off + 3] - (if s[off + 3] >= 128 {
            4294967296int
        } else {
            0
        }),
{
}

/// The bytes of an integer, low byte first.
pub proof fn law_bytes_of_integers(v: int)
    ensures
        -0x8000 <= v < 0x8000 ==> bytes16(v).len() == 2 && (bytes16(v)[0] + 256 * bytes16(v)[1] - v)
            % 65536 == 0,
        -0x8000_0000 <= v < 0x8000_0000 ==> bytes32(v).len() == 4 && (bytes32(v)[0] + 256
            * bytes32(v)[1] + 65536 * bytes32(v)[2] + 16777216 * bytes32(v)[3] - v) % 4294967296
            == 0,
{
}

} // verus!
