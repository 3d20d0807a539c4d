//! PCM samples in byte buffers: their formats, how they are read, and how they
//! are laid out for output.

use vstd::prelude::*;
use crate::le::{
    bytes16, bytes32, law_bytes16, law_bytes32, law_read16, law_read32, le16, le32, push_i16,
    push_i32, read_i16, read_i32, signed,
};

verus! {

/// Format tag of plain PCM.
pub const WAVE_FORMAT_PCM: u16 = 1;

/// Format tag of IEEE float samples.
pub const WAVE_FORMAT_IEEE_FLOAT: u16 = 0x0003;

/// Format tag of an extensible format.
pub const WAVE_FORMAT_EXTENSIBLE: u16 = 0xFFFE;

/// How a sample stands in a buffer.
#[derive(Clone, Copy, Debug, PartialEq, Eq, Structural)]
pub enum SampleKind {
    /// The word of a 32-bit IEEE float.
    Float32,
    /// A signed 16-bit integer.
    Int16,
    /// A signed 32-bit integer.
    Int32,
}

impl SampleKind {
    /// The number of bytes of a sample.
    pub open spec fn size(self) -> int {
        match self {
            SampleKind::Int16 => 2,
            _ => 4,
        }
    }

    /// `v` is a value of a sample.
    pub open spec fn holds(self, v: int) -> bool {
        match self {
            SampleKind::Int16 => -0x8000 <= v < 0x8000,
            _ => -0x8000_0000 <= v < 0x8000_0000,
        }
    }
}

/// The format of a shared stream.
#[derive(Clone, Copy, Debug, PartialEq, Eq, Structural)]
pub struct StreamFormat {
    pub bits: u16,
    pub channels: u16,
    pub is_float: bool,
}

impl StreamFormat {
    /// The format that is taken where none is known: 32-bit integer stereo.
    pub fn unknown() -> (r: Self)
        ensures
            r == (StreamFormat { bits: 32, channels: 2, is_float: false }),
    {
        StreamFormat { bits: 32, channels: 2, is_float: false }
    }

    /// The format of a mix: float if its samples have 32 bits or its tag says
    /// float or extensible.
    pub fn of_mix(bits: u16, channels: u16, tag: u16) -> (r: Self)
        ensures
            r == (StreamFormat {
                bits,
                channels,
                is_float: bits == 32 || tag == WAVE_FORMAT_IEEE_FLOAT || tag
                    == WAVE_FORMAT_EXTENSIBLE,
            }),
    {
        StreamFormat {
            bits,
            channels,
            is_float: bits == 32 || tag == WAVE_FORMAT_IEEE_FLOAT || tag == WAVE_FORMAT_EXTENSIBLE,
        }
    }

    /// How a sample of the format stands in a buffer.
    pub open spec fn kind_spec(self) -> SampleKind {
        if self.is_float {
            SampleKind::Float32
        } else if self.bits == 16 {
            SampleKind::Int16
        } else {
            SampleKind::Int32
        }
    }

    /// How a sample of the format stands in a buffer.
    pub fn kind(&self) -> (r: SampleKind)
        ensures
            r == self.kind_spec(),
    {
        if self.is_float {
            SampleKind::Float32
        } else if self.bits == 16 {
            SampleKind::Int16
        } else {
            SampleKind::Int32
        }
    }

    /// How many samples of a frame are used: one if the stream is mono, else two.
    pub open spec fn used(self) -> int {
        if self.channels == 1 {
            1
        } else {
            2
        }
    }

    /// The number of bytes of `frames` frames of silence.
    pub fn silence_bytes(&self, frames: usize) -> (r: usize)
        requires
            frames * self.channels * (if self.is_float {
                4
            } else {
                self.bits as int / 8
            }) <= usize::MAX,
            frames * self.channels <= usize::MAX,
        ensures
            r == frames * self.channels * (if self.is_float {
                4
            } else {
                self.bits as int / 8
            }),
    {
        let size: usize = if self.is_float {
            4
        } else {
            (self.bits / 8) as usize
        };
        frames * (self.channels as usize) * size
    }
}

// ---------------------------------------------------------------------------
// Reading
// ---------------------------------------------------------------------------

/// The sample with number `k` in a buffer.
pub open spec fn sample_at(kind: SampleKind, s: Seq<u8>, k: int) -> int {
    match kind {
        SampleKind::Int16 => signed(le16(s, 2 * k), 0x1_0000),
        _ => signed(le32(s, 4 * k), 0x1_0000_0000),
    }
}

/// Every `stride`-th of the samples in a buffer, from number `start` on.
pub open spec fn samples(
    kind: SampleKind,
    s: Seq<u8>,
    stride: int,
    start: int,
    n: nat,
) -> Seq<i32> {
    Seq::new(n, |i: int| sample_at(kind, s, stride * i + start) as i32)
}

/// Reads every `stride`-th of the samples in a buffer, from number `start` on.
pub fn read_samples(kind: SampleKind, data: &Vec<u8>, stride: usize, start: usize, n: usize) -> (r:
    Vec<i32>)
    requires
        1 <= stride <= 2,
        start < stride,
        n * stride * kind.size() <= data.len(),
    ensures
        r@ == samples(kind, data@, stride as int, start as int, n as nat),
{
    let mut r: Vec<i32> = Vec::new();
    let mut i: usize = 0;
    while i < n
        invariant
            i <= n,
            1 <= stride <= 2,
            start < stride,
            n * stride * kind.size() <= data.len(),
            r@ == samples(kind, data@, stride as int, start as int, i as nat),
        decreases n - i,
    {
        assert(stride * i + start + 1 <= n * stride && (stride * i + start + 1) * kind.size()
            <= data.len() && stride * i >= 0) by {
            assert(stride * i + start + 1 <= n * stride) by (nonlinear_arith)
                requires
                    i < n,
                    start < stride,
            ;
            assert((stride * i + start + 1) * kind.size() <= (n * stride) * kind.size())
                by (nonlinear_arith)
                requires
                    stride * i + start + 1 <= n * stride,
                    kind.size() >= 0,
            ;
            assert(stride * i >= 0) by (nonlinear_arith)
                requires
                    stride >= 1,
                    i >= 0,
            ;
        }
        let k: usize = stride * i + start;
        let v = match kind {
            SampleKind::Int16 => read_i16(data, 2 * k),
            _ => read_i32(data, 4 * k),
        };
        r.push(v);
        i += 1;
        assert(r@ =~= samples(kind, data@, stride as int, start as int, i as nat));
    }
    r
}

// ---------------------------------------------------------------------------
// Writing
// ---------------------------------------------------------------------------

/// The bytes of one sample.
pub open spec fn sample_bytes(kind: SampleKind, v: int) -> Seq<u8> {
    match kind {
        SampleKind::Int16 => bytes16(v),
        _ => bytes32(v),
    }
}

/// The bytes of a sequence of samples.
pub open spec fn packed(kind: SampleKind, s: Seq<i32>) -> Seq<u8>
    decreases s.len(),
{
    if s.len() == 0 {
        Seq::empty()
    } else {
        packed(kind, s.drop_last()) + sample_bytes(kind, s.last() as int)
    }
}

/// The samples of two channels, in turn.
pub open spec fn interleaved(left: Seq<i32>, right: Seq<i32>) -> Seq<i32> {
    Seq::new(
        2 * left.len(),
        |i: int|
            if i % 2 == 0 {
                left[i / 2]
            } else {
                right[i / 2]
            },
    )
}

fn push_sample(kind: SampleKind, buf: &mut Vec<u8>, v: i32)
    requires
        kind.holds(v as int),
    ensures
        final(buf)@ == old(buf)@ + sample_bytes(kind, v as int),
{
    match kind {
        SampleKind::Int16 => push_i16(buf, v),
        _ => push_i32(buf, v),
    }
}

/// The bytes of the samples of one channel.
pub fn pack_mono(kind: SampleKind, mono: &Vec<i32>) -> (r: Vec<u8>)
    requires
        forall|i: int| 0 <= i < mono.len() ==> kind.holds(#[trigger] mono@[i] as int),
    ensures
        r@ == packed(kind, mono@),
{
    let mut r: Vec<u8> = Vec::new();
    let mut i: usize = 0;
    while i < mono.len()
        invariant
            i <= mono.len(),
            forall|k: int| 0 <= k < mono.len() ==> kind.holds(#[trigger] mono@[k] as int),
            r@ == packed(kind, mono@.take(i as int)),
        decreases mono.len() - i,
    {
        assert(mono@.take(i + 1).drop_last() =~= mono@.take(i as int));
        push_sample(kind, &mut r, mono[i]);
        i += 1;
    }
    assert(mono@.take(mono@.len() as int) =~= mono@);
    r
}

/// The bytes of the samples of two channels, frame by frame.
pub fn pack_stereo(kind: SampleKind, left: &Vec<i32>, right: &Vec<i32>) -> (r: Vec<u8>)
    requires
        left.len() == right.len(),
        forall|i: int| 0 <= i < left.len() ==> kind.holds(#[trigger] left@[i] as int),
        forall|i: int| 0 <= i < right.len() ==> kind.holds(#[trigger] right@[i] as int),
    ensures
        r@ == packed(kind, interleaved(left@, right@)),
{
    let mut r: Vec<u8> = Vec::new();
    let mut i: usize = 0;
    let ghost all = interleaved(left@, right@);
    while i < left.len()
        invariant
            i <= left.len(),
            left.len() == right.len(),
            all == interleaved(left@, right@),
            forall|k: int| 0 <= k < left.len() ==> kind.holds(#[trigger] left@[k] as int),
            forall|k: int| 0 <= k < right.len() ==> kind.holds(#[trigger] right@[k] as int),
            r@ == packed(kind, all.take(2 * i as int)),
        decreases left.len() - i,
    {
        assert(all.take(2 * i + 1).drop_last() =~= all.take(2 * i as int));
        assert(all.take(2 * i + 2).drop_last() =~= all.take(2 * i + 1));
        assert(all.take(2 * i + 1).last() == left@[i as int]);
        assert(all.take(2 * i + 2).last() == right@[i as int]);
        push_sample(kind, &mut r, left[i]);
        assert(r@ == packed(kind, all.take(2 * i + 1)));
        push_sample(kind, &mut r, right[i]);
        assert(r@ == packed(kind, all.take(2 * i + 2)));
        i += 1;
    }
    assert(all.take(all.len() as int) =~= all);
    r
}

// ---------------------------------------------------------------------------
// Laws
// ---------------------------------------------------------------------------

proof fn lemma_packed_len(kind: SampleKind, s: Seq<i32>)
    ensures
        packed(kind, s).len() == kind.size() * s.len(),
    decreases s.len(),
{
    if s.len() > 0 {
        lemma_packed_len(kind, s.drop_last());
        assert(kind.size() * s.len() == kind.size() * (s.len() - 1) + kind.size())
            by (nonlinear_arith);
    } else {
        assert(kind.size() * 0 == 0) by (nonlinear_arith);
    }
}

proof fn lemma_packed_sample(kind: SampleKind, s: Seq<i32>, k: int)
    requires
        0 <= k < s.len(),
    ensures
        kind.size() * k + kind.size() <= packed(kind, s).len(),
        packed(kind, s).subrange(kind.size() * k, kind.size() * k + kind.size()) == sample_bytes(
            kind,
            s[k] as int,
        ),
    decreases s.len(),
{
    let t = s.drop_last();
    lemma_packed_len(kind, s);
    lemma_packed_len(kind, t);
    let p = packed(kind, s);
    let from = kind.size() * k;
    if k == s.len() - 1 {
        assert(p.subrange(from, from + kind.size()) =~= sample_bytes(kind, s.last() as int));
    } else {
        lemma_packed_sample(kind, t, k);
        assert(t[k] == s[k]);
        assert(p.subrange(from, from + kind.size()) =~= packed(kind, t).subrange(
            from,
            from + kind.size(),
        ));
    }
}

/// Reading packed samples gives the samples back.
pub proof fn law_unpack_mono(kind: SampleKind, s: Seq<i32>)
    requires
        forall|i: int| 0 <= i < s.len() ==> kind.holds(#[trigger] s[i] as int),
    ensures
        samples(kind, packed(kind, s), 1, 0, s.len()) == s,
{
    let p = packed(kind, s);
    assert forall|i: int| 0 <= i < s.len() implies #[trigger] sample_at(kind, p, i) == s[i] by {
        lemma_packed_sample(kind, s, i);
        assert(kind.holds(s[i] as int));
        match kind {
            SampleKind::Int16 => law_bytes16(p, 2 * i, s[i] as int),
            _ => law_bytes32(p, 4 * i, s[i] as int),
        }
    }
    assert(samples(kind, p, 1, 0, s.len()) =~= s);
}

/// Reading the packed samples of two channels gives both channels back.
pub proof fn law_unpack_stereo(kind: SampleKind, left: Seq<i32>, right: Seq<i32>)
    requires
        left.len() == right.len(),
        forall|i: int| 0 <= i < left.len() ==> kind.holds(#[trigger] left[i] as int),
        forall|i: int| 0 <= i < right.len() ==> kind.holds(#[trigger] right[i] as int),
    ensures
        samples(kind, packed(kind, interleaved(left, right)), 2, 0, left.len()) == left,
        samples(kind, packed(kind, interleaved(left, right)), 2, 1, right.len()) == right,
{
    let all = interleaved(left, right);
    let p = packed(kind, all);
    law_unpack_mono(kind, all);
    let whole = samples(kind, p, 1, 0, all.len());
    let l = samples(kind, p, 2, 0, left.len());
    let r = samples(kind, p, 2, 1, right.len());
    assert forall|i: int| 0 <= i < left.len() implies l[i] == left[i] && r[i] == right[i] by {
        assert(whole[2 * i] == all[2 * i]);
        assert(whole[2 * i + 1] == all[2 * i + 1]);
    }
    assert(l =~= left);
    assert(r =~= right);
}

/// Packing the samples that were read from a buffer gives the buffer back, byte
/// for byte.
pub proof fn law_repack_mono(kind: SampleKind, raw: Seq<u8>, n: nat)
    requires
        raw.len() == kind.size() * n,
    ensures
        packed(kind, samples(kind, raw, 1, 0, n)) == raw,
{
    let s = samples(kind, raw, 1, 0, n);
    let p = packed(kind, s);
    lemma_packed_len(kind, s);
    assert forall|j: int| 0 <= j < raw.len() implies p[j] == raw[j] by {
        match kind {
            SampleKind::Int16 => {
                let k = j / 2;
                law_read16(raw, 2 * k);
                lemma_packed_sample(kind, s, k);
                assert(p[j] == p.subrange(2 * k, 2 * k + 2)[j - 2 * k]);
                assert(raw[j] == raw.subrange(2 * k, 2 * k + 2)[j - 2 * k]);
            },
            _ => {
                let k = j / 4;
                law_read32(raw, 4 * k);
                lemma_packed_sample(kind, s, k);
                assert(p[j] == p.subrange(4 * k, 4 * k + 4)[j - 4 * k]);
                assert(raw[j] == raw.subrange(4 * k, 4 * k + 4)[j - 4 * k]);
            },
        }
    }
    assert(p =~= raw);
}

/// Packing both channels that were read from a buffer gives the buffer back, byte
/// for byte.
pub proof fn law_repack_stereo(kind: SampleKind, raw: Seq<u8>, n: nat)
    requires
        raw.len() == 2 * kind.size() * n,
    ensures
        packed(
            kind,
            interleaved(samples(kind, raw, 2, 0, n), samples(kind, raw, 2, 1, n)),
        ) == raw,
{
    let both = interleaved(samples(kind, raw, 2, 0, n), samples(kind, raw, 2, 1, n));
    let whole = samples(kind, raw, 1, 0, 2 * n);
    assert forall|i: int| 0 <= i < 2 * n implies both[i] == whole[i] by {
        if i % 2 == 0 {
            assert(2 * (i / 2) + 0 == i);
        } else {
            assert(2 * (i / 2) + 1 == i);
        }
    }
    assert(both =~= whole);
    assert(kind.size() * (2 * n) == 2 * kind.size() * n) by (nonlinear_arith);
    law_repack_mono(kind, raw, 2 * n);
}

/// How samples stand in a buffer: 16-bit ones in two bytes, all others in four,
/// low byte first, one after the other.
pub proof fn law_sample_layout(kind: SampleKind, s: Seq<u8>, k: int)
    requires
        0 <= k,
        kind.size() * (k + 1) <= s.len(),
    ensures
        kind.size() == (if kind == SampleKind::Int16 {
            2int
        } else {
            4int
        }),
        kind == SampleKind::Int16 ==> (sample_at(kind, s, k) - s[2 * k] - 256 * s[2 * k + 1]) % 65536
            == 0 && -32768 <= sample_at(kind, s, k) < 32768,
        kind != SampleKind::Int16 ==> (sample_at(kind, s, k) - s[4 * k] - 256 * s[4 * k + 1] - 65536
            * s[4 * k + 2] - 16777216 * s[4 * k + 3]) % 4294967296 == 0 && -2147483648 <= sample_at(
            kind,
            s,
            k,
        ) < 2147483648,
{
    if kind == SampleKind::Int16 {
        law_read16(s, 2 * k);
    } else {
        law_read32(s, 4 * k);
    }
}

/// The samples of a channel are every `stride`-th of those in the buffer.
pub proof fn law_samples_of_a_channel(
    kind: SampleKind,
    s: Seq<u8>,
    stride: int,
    start: int,
    n: nat,
    i: int,
)
    requires
        0 <= i < n,
    ensures
        samples(kind, s, stride, start, n).len() == n,
        samples(kind, s, stride, start, n)[i] == sample_at(kind, s, start + i * stride) as i32,
{
    assert(stride * i + start == start + i * stride) by (nonlinear_arith);
}

/// The kind of a format's samples: floats where the format says so, else 16-bit
/// integers for 16 bits and 32-bit ones for any other depth. Of a frame one sample
/// is used in mono and two otherwise.
pub proof fn law_kind_of_a_format(f: StreamFormat)
    ensures
        f.kind_spec() == SampleKind::Float32 <==> f.is_float,
        f.kind_spec() == SampleKind::Int16 <==> !f.is_float && f.bits == 16,
        f.kind_spec() == SampleKind::Int32 <==> !f.is_float && f.bits != 16,
        f.used() == (if f.channels == 1 {
            1int
        } else {
            2int
        }),
{
}

/// Two channels are laid out frame by frame, the left sample first.
pub proof fn law_left_before_right(left: Seq<i32>, right: Seq<i32>, i: int)
    requires
        left.len() == right.len(),
        0 <= i < left.len(),
    ensures
        interleaved(left, right).len() == left.len() + right.len(),
        interleaved(left, right)[2 * i] == left[i],
        interleaved(left, right)[2 * i + 1] == right[i],
{
}

/// The values that a sample can have.
pub proof fn law_range_of_samples(kind: SampleKind, v: int)
    ensures
        kind == SampleKind::Int16 ==> (kind.holds(v) <==> -32768 <= v <= 32767),
        kind != SampleKind::Int16 ==> (kind.holds(v) <==> -2147483648 <= v <= 2147483647),
{
}

} // verus!
