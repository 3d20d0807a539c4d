//! Direct capture from and render to a kernel-streaming pin, used where the
//! iRig USB has no audio endpoint.

use vstd::prelude::*;
use crate::buffer_manager::{overlay, silence, BufferIndex, BufferManager};
use crate::ks_property::{is_pending, pending};
use crate::le::{le16, le24, le32, read_i16, read_i24, read_i32, signed};
use crate::pcm::{interleaved, law_unpack_mono, pack_stereo, packed, SampleKind};

verus! {

/// The bit depth of captured samples; full scale is one half of its range.
#[derive(Clone, Copy, Debug, PartialEq, Eq, Structural)]
pub enum Depth {
    Bits16,
    Bits24,
    Bits32,
}

/// Captured mono samples.
#[derive(Debug)]
pub struct CaptureBlock {
    pub depth: Depth,
    pub samples: Vec<i32>,
}

/// What a look at the capture pin yields.
#[derive(Debug)]
pub enum Consumed {
    /// No read is under way.
    Idle,
    /// The read under way did not complete.
    Failed,
    /// The read completed without data; the next one is due.
    Empty,
    /// The read completed with these samples; the next one is due.
    Data(CaptureBlock),
}

/// The number of bytes of a sample, from the amount of data for `frames` frames:
/// two, unless there are three or more bytes for each frame.
pub open spec fn sample_width(data_bytes: int, frames: int) -> int {
    if data_bytes >= 3 * frames {
        data_bytes / frames
    } else {
        2
    }
}

/// The depth of samples of the given number of bytes.
pub open spec fn depth_of(width: int) -> Depth {
    if width == 2 {
        Depth::Bits16
    } else if width == 3 {
        Depth::Bits24
    } else {
        Depth::Bits32
    }
}

/// How many frames the data yields, at most `frames`.
pub open spec fn frames_in(data_bytes: int, frames: int) -> int {
    let n = data_bytes / sample_width(data_bytes, frames);
    if n < frames {
        n
    } else {
        frames
    }
}

/// The sample of frame `i`. Samples of more than three bytes are read as 32-bit
/// words in a row.
pub open spec fn captured_sample(depth: Depth, s: Seq<u8>, i: int) -> int {
    match depth {
        Depth::Bits16 => signed(le16(s, 2 * i), 0x1_0000),
        Depth::Bits24 => signed(le24(s, 3 * i), 0x100_0000),
        Depth::Bits32 => signed(le32(s, 4 * i), 0x1_0000_0000),
    }
}

/// The samples in a capture buffer that holds `data_bytes` bytes of data.
pub open spec fn captured(s: Seq<u8>, data_bytes: int, frames: int) -> Seq<i32> {
    let depth = depth_of(sample_width(data_bytes, frames));
    Seq::new(
        frames_in(data_bytes, frames) as nat,
        |i: int| captured_sample(depth, s, i) as i32,
    )
}

proof fn lemma_data_reaches(data_bytes: int, frames: int)
    requires
        0 < data_bytes,
        0 < frames,
    ensures
        sample_width(data_bytes, frames) >= 2,
        0 <= frames_in(data_bytes, frames) <= frames,
        frames_in(data_bytes, frames) * sample_width(data_bytes, frames) <= data_bytes,
{
    let w = sample_width(data_bytes, frames);
    if data_bytes >= 3 * frames {
        assert(data_bytes / frames >= 3) by (nonlinear_arith)
            requires
                data_bytes >= 3 * frames,
                frames > 0,
        ;
    }
    let n = data_bytes / w;
    assert(0 <= n && n * w <= data_bytes) by (nonlinear_arith)
        requires
            n == data_bytes / w,
            w >= 2,
            data_bytes > 0,
    ;
    let m = frames_in(data_bytes, frames);
    assert(m * w <= n * w) by (nonlinear_arith)
        requires
            m <= n,
            w >= 2,
    ;
}

fn read_block(buf: &Vec<u8>, data_bytes: usize, buf_frames: usize) -> (r: CaptureBlock)
    requires
        0 < data_bytes <= buf.len(),
        0 < buf_frames,
        3 * buf_frames <= usize::MAX,
    ensures
        r.depth == depth_of(sample_width(data_bytes as int, buf_frames as int)),
        r.samples@ == captured(buf@, data_bytes as int, buf_frames as int),
{
    proof {
        lemma_data_reaches(data_bytes as int, buf_frames as int);
    }
    let width: usize = if data_bytes >= buf_frames * 3 {
        data_bytes / buf_frames
    } else {
        2
    };
    let n = data_bytes / width;
    let frames: usize = if n < buf_frames {
        n
    } else {
        buf_frames
    };
    let depth = if width == 2 {
        Depth::Bits16
    } else if width == 3 {
        Depth::Bits24
    } else {
        Depth::Bits32
    };
    let ghost all = captured(buf@, data_bytes as int, buf_frames as int);
    let mut samples: Vec<i32> = Vec::new();
    let mut i: usize = 0;
    while i < frames
        invariant
            i <= frames,
            width >= 2,
            depth == depth_of(width as int),
            frames * width <= buf.len(),
            all.len() == frames,
            forall|k: int|
                0 <= k < frames ==> #[trigger] all[k] == captured_sample(depth, buf@, k) as i32,
            samples@ == all.take(i as int),
        decreases frames - i,
    {
        assert(4 * i + 4 <= buf.len() || width <= 3 && 3 * i + 3 <= buf.len() || width == 2 && 2 * i
            + 2 <= buf.len()) by (nonlinear_arith)
            requires
                i < frames,
                width >= 2,
                frames * width <= buf.len(),
        ;
        let v = match depth {
            Depth::Bits16 => read_i16(buf, 2 * i),
            Depth::Bits24 => read_i24(buf, 3 * i),
            Depth::Bits32 => read_i32(buf, 4 * i),
        };
        samples.push(v);
        assert(all[i as int] == v);
        i += 1;
        assert(samples@ =~= all.take(i as int));
    }
    assert(all.take(frames as int) =~= all);
    CaptureBlock { depth, samples }
}

/// Capture from a pin: the buffer that the device fills, and whether a read is
/// under way.
#[derive(Debug)]
pub struct KsCaptureState {
    pub buf: Vec<u8>,
    pub pending: bool,
}

/// `n` zero bytes.
pub open spec fn zero_bytes(n: nat) -> Seq<u8> {
    Seq::new(n, |i: int| 0u8)
}

fn make_bytes(n: usize) -> (r: Vec<u8>)
    ensures
        r@ == zero_bytes(n as nat),
{
    let mut r: Vec<u8> = Vec::new();
    let mut i: usize = 0;
    while i < n
        invariant
            i <= n,
            r@ == zero_bytes(i as nat),
        decreases n - i,
    {
        r.push(0);
        i += 1;
        assert(r@ =~= zero_bytes(i as nat));
    }
    r
}

impl KsCaptureState {
    /// Capture with the block alignment of a pin, at least two bytes per frame;
    /// no read is under way.
    pub fn try_open(block_align: u16, buf_frames: usize) -> (r: Self)
        requires
            buf_frames * (if block_align < 2 {
                2
            } else {
                block_align as int
            }) <= usize::MAX,
        ensures
            r.buf@ == zero_bytes(
                (buf_frames * (if block_align < 2 {
                    2
                } else {
                    block_align as int
                })) as nat,
            ),
            !r.pending,
    {
        let width: usize = if block_align < 2 {
            2
        } else {
            block_align as usize
        };
        KsCaptureState { buf: make_bytes(buf_frames * width), pending: false }
    }

    /// The size of the read that is asked for: the whole buffer.
    pub fn frame_extent(&self) -> (r: u32)
        requires
            self.buf.len() <= u32::MAX,
        ensures
            r == self.buf.len(),
    {
        self.buf.len() as u32
    }

    /// Takes note of the outcome of asking for a read: it is under way if the
    /// request succeeded or goes on in the background.
    pub fn submit_read(&mut self, outcome: &Result<(), i32>)
        ensures
            *final(self) == (KsCaptureState {
                pending: outcome is Ok || is_pending(*outcome),
                ..*old(self)
            }),
    {
        self.pending = match outcome {
            Ok(_) => true,
            Err(_) => pending(outcome),
        };
    }

    /// Looks at the read under way. `completed` says whether its result could be
    /// had, and `data_used` how many bytes the device put into the buffer.
    pub fn try_consume(&mut self, buf_frames: usize, completed: bool, data_used: u32) -> (r:
        Consumed)
        requires
            0 < buf_frames,
            3 * buf_frames <= usize::MAX,
            data_used <= old(self).buf.len(),
        ensures
            final(self).buf == old(self).buf,
            final(self).pending == (old(self).pending && !completed),
            if !old(self).pending {
                r is Idle
            } else if !completed {
                r is Failed
            } else if data_used == 0 {
                r is Empty
            } else {
                r matches Consumed::Data(block) && block.depth == depth_of(
                    sample_width(data_used as int, buf_frames as int),
                ) && block.samples@ == captured(
                    old(self).buf@,
                    data_used as int,
                    buf_frames as int,
                )
            },
    {
        if !self.pending {
            return Consumed::Idle;
        }
        if !completed {
            return Consumed::Failed;
        }
        self.pending = false;
        if data_used == 0 {
            return Consumed::Empty;
        }
        Consumed::Data(read_block(&self.buf, data_used as usize, buf_frames))
    }
}

/// The words followed by silence, up to `frames` words.
pub open spec fn padded(words: Seq<i32>, frames: nat) -> Seq<i32> {
    words + silence((frames - words.len()) as nat)
}

/// Puts captured mono words into one half of both input channels, with silence
/// behind them.
pub fn store_capture(buffers: &mut BufferManager, index: BufferIndex, words: &Vec<i32>)
    requires
        old(buffers).wf(),
        words.len() <= old(buffers).frames,
    ensures
        final(buffers).wf(),
        final(buffers).input(0, index) == padded(words@, old(buffers).frames as nat),
        final(buffers).input(1, index) == padded(words@, old(buffers).frames as nat),
        forall|c: int, other: BufferIndex|
            0 <= c < 2 && (other == 0) != (index == 0) ==> final(buffers).input(c, other) == old(
                buffers).input(c, other),
        *final(buffers) == (BufferManager {
            input_buffers: final(buffers).input_buffers,
            ..*old(buffers)
        }),
{
    let mut all: Vec<i32> = Vec::new();
    let mut i: usize = 0;
    while i < buffers.frames
        invariant
            i <= buffers.frames,
            words.len() <= buffers.frames,
            *buffers == *old(buffers),
            all@ == padded(words@, buffers.frames as nat).take(i as int),
        decreases buffers.frames - i,
    {
        let w: i32 = if i < words.len() {
            words[i]
        } else {
            0
        };
        all.push(w);
        i += 1;
        assert(all@ =~= padded(words@, buffers.frames as nat).take(i as int));
    }
    let ghost full = padded(words@, buffers.frames as nat);
    assert(full.take(buffers.frames as int) =~= full);
    assert(overlay(buffers.input(0, index), all@) =~= full);
    assert(overlay(buffers.input(1, index), all@) =~= full);
    buffers.store_input(index, &all, &all);
}

/// Render to a pin: the bytes under way, and whether a write is under way.
#[derive(Debug)]
pub struct KsRenderState {
    pub buf: Vec<u8>,
    pub pending: bool,
}

impl KsRenderState {
    /// Render with room for 16-bit stereo; no write is under way.
    pub fn try_open(buf_frames: usize) -> (r: Self)
        requires
            4 * buf_frames <= usize::MAX,
        ensures
            r.buf@ == zero_bytes((4 * buf_frames) as nat),
            !r.pending,
    {
        KsRenderState { buf: make_bytes(buf_frames * 4), pending: false }
    }

    /// Whether the write under way has to be waited for before the next one.
    pub fn must_wait(&self) -> (r: bool)
        ensures
            r == self.pending,
    {
        self.pending
    }

    /// Lays out 16-bit stereo samples for the next write, which is under way from
    /// then on, and returns its size in bytes.
    pub fn write_samples(&mut self, left: &Vec<i32>, right: &Vec<i32>) -> (r: u32)
        requires
            left.len() == right.len(),
            4 * left.len() <= u32::MAX,
            forall|i: int| 0 <= i < left.len() ==> -0x8000 <= #[trigger] left@[i] < 0x8000,
            forall|i: int| 0 <= i < right.len() ==> -0x8000 <= #[trigger] right@[i] < 0x8000,
        ensures
            final(self).buf@ == packed(SampleKind::Int16, interleaved(left@, right@)),
            final(self).pending,
            r == 4 * left.len(),
    {
        self.buf = pack_stereo(SampleKind::Int16, left, right);
        self.pending = true;
        (left.len() * 4) as u32
    }
}

/// How captured data is read: as 16-bit samples, unless there are three or more
/// bytes for each frame; then as 24-bit samples for three bytes and as 32-bit ones
/// from four on. As many samples are read as the data holds, at most one for each
/// frame, and each from its own bytes, low byte first.
pub proof fn law_captured(s: Seq<u8>, data_bytes: int, frames: int, i: int)
    requires
        0 < frames,
        0 < data_bytes <= s.len(),
        0 <= i < captured(s, data_bytes, frames).len(),
    ensures
        data_bytes < 3 * frames ==> {
            &&& captured(s, data_bytes, frames).len() == (if data_bytes / 2 < frames {
                data_bytes / 2
            } else {
                frames
            })
            &&& captured(s, data_bytes, frames)[i] == signed(le16(s, 2 * i), 65536)
        },
        3 * frames <= data_bytes < 4 * frames ==> {
            &&& captured(s, data_bytes, frames).len() == frames
            &&& captured(s, data_bytes, frames)[i] == signed(le24(s, 3 * i), 16777216)
        },
        4 * frames <= data_bytes ==> {
            &&& captured(s, data_bytes, frames).len() == frames
            &&& captured(s, data_bytes, frames)[i] == signed(le32(s, 4 * i), 4294967296)
        },
{
    lemma_width(data_bytes, frames);
    lemma_data_reaches(data_bytes, frames);
}

proof fn lemma_width(data_bytes: int, frames: int)
    requires
        0 < frames,
        0 < data_bytes,
    ensures
        data_bytes < 3 * frames ==> sample_width(data_bytes, frames) == 2,
        3 * frames <= data_bytes < 4 * frames ==> sample_width(data_bytes, frames) == 3,
        4 * frames <= data_bytes ==> sample_width(data_bytes, frames) >= 4,
        3 * frames <= data_bytes ==> data_bytes / sample_width(data_bytes, frames) >= frames,
{
    let w = data_bytes / frames;
    assert(frames * w <= data_bytes < frames * (w + 1)) by (nonlinear_arith)
        requires
            w == data_bytes / frames,
            frames > 0,
            data_bytes > 0,
    ;
    if 3 * frames <= data_bytes {
        assert(w >= 3) by (nonlinear_arith)
            requires
                data_bytes < frames * (w + 1),
                3 * frames <= data_bytes,
                frames > 0,
        ;
        if data_bytes < 4 * frames {
            assert(w < 4) by (nonlinear_arith)
                requires
                    frames * w <= data_bytes,
                    data_bytes < 4 * frames,
                    frames > 0,
            ;
        } else {
            assert(w >= 4) by (nonlinear_arith)
                requires
                    data_bytes < frames * (w + 1),
                    4 * frames <= data_bytes,
                    frames > 0,
            ;
        }
        assert(data_bytes / w >= frames) by (nonlinear_arith)
            requires
                frames * w <= data_bytes,
                w >= 3,
                frames > 0,
        ;
    }
}

/// The depth that goes with the data.
pub proof fn law_depth_of_captured_data(data_bytes: int, frames: int)
    requires
        0 < frames,
        0 < data_bytes,
    ensures
        ({
            let depth = depth_of(sample_width(data_bytes, frames));
            &&& depth == Depth::Bits16 <==> data_bytes < 3 * frames
            &&& depth == Depth::Bits24 <==> 3 * frames <= data_bytes < 4 * frames
            &&& depth == Depth::Bits32 <==> 4 * frames <= data_bytes
        }),
{
    lemma_width(data_bytes, frames);
}

/// What a device delivers is what it was given: 16-bit and 32-bit samples laid out
/// for one buffer come back from the capture as they are.
pub proof fn law_capture_of_packed_samples(samples: Seq<i32>)
    requires
        samples.len() > 0,
    ensures
        (forall|i: int|
            0 <= i < samples.len() ==> -0x8000 <= #[trigger] samples[i] < 0x8000) ==> captured(
            packed(SampleKind::Int16, samples),
            (2 * samples.len()) as int,
            samples.len() as int,
        ) == samples,
        captured(
            packed(SampleKind::Int32, samples),
            (4 * samples.len()) as int,
            samples.len() as int,
        ) == samples,
{
    let n = samples.len() as int;
    lemma_width(2 * n, n);
    lemma_width(4 * n, n);
    if forall|i: int| 0 <= i < samples.len() ==> -0x8000 <= #[trigger] samples[i] < 0x8000 {
        let p = packed(SampleKind::Int16, samples);
        law_unpack_mono(SampleKind::Int16, samples);
        let back = crate::pcm::samples(SampleKind::Int16, p, 1, 0, samples.len());
        let got = captured(p, 2 * n, n);
        assert forall|i: int| 0 <= i < n implies got[i] == samples[i] by {
            assert(back[i] == samples[i]);
        }
        assert(got =~= samples);
    }
    let p = packed(SampleKind::Int32, samples);
    law_unpack_mono(SampleKind::Int32, samples);
    let back = crate::pcm::samples(SampleKind::Int32, p, 1, 0, samples.len());
    let got = captured(p, 4 * n, n);
    assert forall|i: int| 0 <= i < n implies got[i] == samples[i] by {
        assert(back[i] == samples[i]);
    }
    assert(got =~= samples);
}

/// Captured words are followed by silence up to the end of the half.
pub proof fn law_padded(words: Seq<i32>, frames: nat, i: int)
    requires
        words.len() <= frames,
        0 <= i < frames,
    ensures
        padded(words, frames).len() == frames,
        padded(words, frames)[i] == (if i < words.len() {
            words[i]
        } else {
            0
        }),
{
}

/// A new buffer is zeros.
pub proof fn law_zero_bytes(n: nat, i: int)
    ensures
        zero_bytes(n).len() == n,
        0 <= i < n ==> zero_bytes(n)[i] == 0,
{
}

} // verus!
