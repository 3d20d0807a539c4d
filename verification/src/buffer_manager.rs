//! Double-buffer (ping-pong) manager for the ASIO audio callback loop.
//!
//! Every channel has two halves, A and B. While the host works on one half, the
//! streaming thread fills or drains the other; then they swap.

use vstd::prelude::*;
use crate::constants::{NUM_INPUT_CHANNELS, NUM_OUTPUT_CHANNELS};

verus! {

/// Index of a buffer half (0 or 1).
pub type BufferIndex = i32;

/// `n` words of silence.
pub open spec fn silence(n: nat) -> Seq<i32> {
    Seq::new(n, |i: int| 0i32)
}

/// One half of a double-buffer pair for a single channel.
#[derive(Debug)]
pub struct ChannelBuffer {
    /// The samples, one 32-bit word each.
    pub data: Vec<i32>,
}

impl ChannelBuffer {
    /// A half of `frames` words, all zero.
    pub fn new(frames: usize) -> (r: Self)
        ensures
            r.data@ == silence(frames as nat),
    {
        let mut data: Vec<i32> = Vec::new();
        let mut i: usize = 0;
        while i < frames
            invariant
                i <= frames,
                data@ == silence(i as nat),
            decreases frames - i,
        {
            data.push(0);
            i += 1;
            assert(data@ =~= silence(i as nat));
        }
        ChannelBuffer { data }
    }

    /// The words of the half.
    pub fn as_ptr(&self) -> (r: &Vec<i32>)
        ensures
            *r == self.data,
    {
        &self.data
    }

    /// The words of the half, to be written.
    pub fn as_mut_ptr(&mut self) -> (r: &mut Vec<i32>)
        ensures
            *r == old(self).data,
            final(self).data == *final(r),
    {
        &mut self.data
    }
}

/// Double-buffer pair for one channel (A + B).
#[derive(Debug)]
pub struct DoubleBuffer {
    pub a: ChannelBuffer,
    pub b: ChannelBuffer,
}

/// What a [`DoubleBuffer`] holds.
pub struct HalvesModel {
    pub a: Seq<i32>,
    pub b: Seq<i32>,
}

impl View for DoubleBuffer {
    type V = HalvesModel;

    open spec fn view(&self) -> HalvesModel {
        HalvesModel { a: self.a.data@, b: self.b.data@ }
    }
}

impl HalvesModel {
    /// The words of the half with the given index: A for 0, B for any other.
    pub open spec fn half(self, index: BufferIndex) -> Seq<i32> {
        if index == 0 {
            self.a
        } else {
            self.b
        }
    }

    /// The pair with other words in the half with the given index.
    pub open spec fn with_half(self, index: BufferIndex, words: Seq<i32>) -> HalvesModel {
        if index == 0 {
            HalvesModel { a: words, ..self }
        } else {
            HalvesModel { b: words, ..self }
        }
    }
}

impl DoubleBuffer {
    /// The words of the half with the given index: A for 0, B for any other.
    pub open spec fn half_spec(&self, index: BufferIndex) -> Seq<i32> {
        if index == 0 {
            self.a.data@
        } else {
            self.b.data@
        }
    }

    /// A pair of halves of `frames` words each, all zero.
    pub fn new(frames: usize) -> (r: Self)
        ensures
            r.a.data@ == silence(frames as nat),
            r.b.data@ == silence(frames as nat),
    {
        DoubleBuffer { a: ChannelBuffer::new(frames), b: ChannelBuffer::new(frames) }
    }

    /// The requested half, to be read or written.
    pub fn ptr(&mut self, index: BufferIndex) -> (r: &mut Vec<i32>)
        ensures
            r@ == old(self).half_spec(index),
            final(self).half_spec(index) == final(r)@,
            index == 0 ==> final(self).b == old(self).b,
            index != 0 ==> final(self).a == old(self).a,
    {
        match index {
            0 => self.a.as_mut_ptr(),
            _ => self.b.as_mut_ptr(),
        }
    }

    /// The requested half, to be read.
    pub fn half(&self, index: BufferIndex) -> (r: &Vec<i32>)
        ensures
            r@ == self.half_spec(index),
    {
        match index {
            0 => self.a.as_ptr(),
            _ => self.b.as_ptr(),
        }
    }
}

/// Manages all ASIO double-buffers.
#[derive(Debug)]
pub struct BufferManager {
    /// Number of frames per buffer.
    pub frames: usize,
    /// Input channel double-buffers (one per channel).
    pub input_buffers: Vec<DoubleBuffer>,
    /// Output channel double-buffers (one per channel).
    pub output_buffers: Vec<DoubleBuffer>,
    /// Which buffer index the host is currently processing (0 or 1).
    pub active_index: BufferIndex,
    /// Non-zero while streaming is active.
    pub running: u8,
}

/// What a [`BufferManager`] holds.
pub struct BuffersModel {
    pub frames: usize,
    pub input: Seq<HalvesModel>,
    pub output: Seq<HalvesModel>,
    pub active_index: BufferIndex,
    pub running: u8,
}

impl View for BufferManager {
    type V = BuffersModel;

    open spec fn view(&self) -> BuffersModel {
        BuffersModel {
            frames: self.frames,
            input: self.input_buffers@.map_values(|d: DoubleBuffer| d@),
            output: self.output_buffers@.map_values(|d: DoubleBuffer| d@),
            active_index: self.active_index,
            running: self.running,
        }
    }
}

impl BuffersModel {
    /// Two input channels, and an index that names a half.
    pub open spec fn wf(self) -> bool {
        &&& self.input.len() == NUM_INPUT_CHANNELS
        &&& self.active_index == 0 || self.active_index == 1
    }

    /// The buffers with the other half active.
    pub open spec fn swapped(self) -> BuffersModel {
        BuffersModel { active_index: (1 - self.active_index) as i32, ..self }
    }

    /// The buffers with silence in one half of every input channel.
    pub open spec fn silenced(self, index: BufferIndex) -> BuffersModel {
        BuffersModel {
            input: self.input.map_values(
                |h: HalvesModel| h.with_half(index, silence(self.frames as nat)),
            ),
            ..self
        }
    }

    /// One half of every input channel is silent.
    pub open spec fn is_silent(self, index: BufferIndex) -> bool {
        forall|c: int|
            0 <= c < self.input.len() ==> (#[trigger] self.input[c]).half(index) == silence(
                self.frames as nat,
            )
    }

    /// The buffers of a stream that has ended.
    pub open spec fn stopped(self) -> BuffersModel {
        BuffersModel { running: 0, ..self }
    }
}

/// Both halves of every channel have `frames` words.
pub open spec fn sized(s: Seq<DoubleBuffer>, frames: nat) -> bool {
    forall|c: int|
        0 <= c < s.len() ==> (#[trigger] s[c]).a.data@.len() == frames && s[c].b.data@.len()
            == frames
}

/// Every half of every channel is silent.
pub open spec fn silent(s: Seq<DoubleBuffer>, frames: nat) -> bool {
    forall|c: int|
        0 <= c < s.len() ==> (#[trigger] s[c]).a.data@ == silence(frames) && s[c].b.data@
            == silence(frames)
}

fn make_buffers(channels: usize, frames: usize) -> (r: Vec<DoubleBuffer>)
    ensures
        r.len() == channels,
        silent(r@, frames as nat),
{
    let mut r: Vec<DoubleBuffer> = Vec::new();
    let mut i: usize = 0;
    while i < channels
        invariant
            i <= channels,
            r.len() == i,
            silent(r@, frames as nat),
        decreases channels - i,
    {
        r.push(DoubleBuffer::new(frames));
        i += 1;
    }
    r
}

/// The words `new` over the beginning of `old`.
pub open spec fn overlay(old_words: Seq<i32>, new_words: Seq<i32>) -> Seq<i32> {
    new_words + old_words.skip(new_words.len() as int)
}

fn overwrite(dst: &mut Vec<i32>, words: &Vec<i32>)
    requires
        words.len() <= old(dst).len(),
    ensures
        final(dst)@ == overlay(old(dst)@, words@),
{
    let mut i: usize = 0;
    let ghost before = dst@;
    while i < words.len()
        invariant
            i <= words.len() <= before.len(),
            dst@ == overlay(before, words@.take(i as int)),
        decreases words.len() - i,
    {
        dst[i] = words[i];
        i += 1;
        assert(dst@ =~= overlay(before, words@.take(i as int)));
    }
    assert(words@.take(words@.len() as int) =~= words@);
}

impl BufferManager {
    /// Two input and two output channels of the same size, and an index that
    /// names a half.
    pub open spec fn wf(&self) -> bool {
        &&& self.input_buffers.len() == NUM_INPUT_CHANNELS
        &&& self.output_buffers.len() == NUM_OUTPUT_CHANNELS
        &&& sized(self.input_buffers@, self.frames as nat)
        &&& sized(self.output_buffers@, self.frames as nat)
        &&& self.active_index == 0 || self.active_index == 1
    }

    /// Valid silent buffers of the given size, the first half active, not
    /// running.
    pub open spec fn is_new(&self, frames: int) -> bool {
        &&& self.wf()
        &&& self.frames == frames
        &&& silent(self.input_buffers@, self.frames as nat)
        &&& silent(self.output_buffers@, self.frames as nat)
        &&& self.active_index == 0
        &&& self.running == 0
    }

    /// The manager with the other half active.
    pub open spec fn swapped(&self) -> BufferManager {
        BufferManager { active_index: (1 - self.active_index) as i32, ..*self }
    }

    /// Silent buffers for the requested frame count, not running.
    pub fn new(frames: usize) -> (r: Self)
        ensures
            r.is_new(frames as int),
    {
        BufferManager {
            frames,
            input_buffers: make_buffers(NUM_INPUT_CHANNELS as usize, frames),
            output_buffers: make_buffers(NUM_OUTPUT_CHANNELS as usize, frames),
            active_index: 0,
            running: 0,
        }
    }

    /// Current active buffer index.
    pub fn current_index(&self) -> (r: BufferIndex)
        ensures
            r == self.active_index,
    {
        self.active_index
    }

    /// Swaps the active buffer index (0 to 1 to 0 and so on) and returns it.
    pub fn swap_index(&mut self) -> (r: BufferIndex)
        requires
            old(self).wf(),
        ensures
            *final(self) == old(self).swapped(),
            r == final(self).active_index,
            final(self).wf(),
    {
        self.active_index = 1 - self.active_index;
        self.active_index
    }

    /// The requested half of input channel `ch`, to be read or written.
    pub fn input_ptr(&mut self, ch: usize, index: BufferIndex) -> (r: &mut Vec<i32>)
        requires
            ch < old(self).input_buffers.len(),
        ensures
            r@ == old(self).input_buffers@[ch as int].half_spec(index),
            final(self).input_buffers.len() == old(self).input_buffers.len(),
            final(self).input_buffers@[ch as int].half_spec(index) == final(r)@,
            index == 0 ==> final(self).input_buffers@[ch as int].b == old(self).input_buffers@[ch as int].b,
            index != 0 ==> final(self).input_buffers@[ch as int].a == old(self).input_buffers@[ch as int].a,
            forall|c: int|
                0 <= c < old(self).input_buffers.len() && c != ch ==> final(self).input_buffers@[c] == old(self).input_buffers@[c],
            *final(self) == (BufferManager {
                input_buffers: final(self).input_buffers,
                ..*old(self)
            }),
    {
        self.input_buffers[ch].ptr(index)
    }

    /// The requested half of output channel `ch`, to be read or written.
    pub fn output_ptr(&mut self, ch: usize, index: BufferIndex) -> (r: &mut Vec<i32>)
        requires
            ch < old(self).output_buffers.len(),
        ensures
            r@ == old(self).output_buffers@[ch as int].half_spec(index),
            final(self).output_buffers.len() == old(self).output_buffers.len(),
            final(self).output_buffers@[ch as int].half_spec(index) == final(r)@,
            index == 0 ==> final(self).output_buffers@[ch as int].b == old(self).output_buffers@[ch as int].b,
            index != 0 ==> final(self).output_buffers@[ch as int].a == old(self).output_buffers@[ch as int].a,
            forall|c: int|
                0 <= c < old(self).output_buffers.len() && c != ch ==> final(self).output_buffers@[c] == old(self).output_buffers@[c],
            *final(self) == (BufferManager {
                output_buffers: final(self).output_buffers,
                ..*old(self)
            }),
    {
        self.output_buffers[ch].ptr(index)
    }

    /// Marks streaming as active or not.
    pub fn set_running(&mut self, running: bool)
        ensures
            *final(self) == (BufferManager {
                running: if running {
                    1u8
                } else {
                    0u8
                },
                ..*old(self)
            }),
    {
        self.running = if running {
            1
        } else {
            0
        };
    }

    /// Whether streaming is active.
    pub fn is_running(&self) -> (r: bool)
        ensures
            r == (self.running != 0),
    {
        self.running != 0
    }

    /// The words of a half of an input channel.
    pub open spec fn input(&self, ch: int, index: BufferIndex) -> Seq<i32> {
        self.input_buffers@[ch].half_spec(index)
    }

    /// Puts captured words at the beginning of one half of both input channels.
    /// The rest of that half, the other half and the output channels stay.
    pub fn store_input(&mut self, index: BufferIndex, left: &Vec<i32>, right: &Vec<i32>)
        requires
            old(self).wf(),
            left.len() <= old(self).frames,
            right.len() <= old(self).frames,
        ensures
            final(self).wf(),
            final(self).input(0, index) == overlay(old(self).input(0, index), left@),
            final(self).input(1, index) == overlay(old(self).input(1, index), right@),
            forall|c: int, other: BufferIndex|
                0 <= c < 2 && (other == 0) != (index == 0) ==> final(self).input(c, other) == old(self).input(c, other),
            *final(self) == (BufferManager {
                input_buffers: final(self).input_buffers,
                ..*old(self)
            }),
    {
        overwrite(self.input_ptr(0, index), left);
        overwrite(self.input_ptr(1, index), right);
    }

    /// Puts silence into one half of both input channels.
    pub fn silence_input(&mut self, index: BufferIndex)
        requires
            old(self).wf(),
        ensures
            final(self).wf(),
            final(self)@ == old(self)@.silenced(index),
    {
        let zeros = ChannelBuffer::new(self.frames);
        let ghost before = self@;
        let ghost old_input = self.input_buffers@;
        assert(overlay(self.input(0, index), zeros.data@) =~= zeros.data@);
        assert(overlay(self.input(1, index), zeros.data@) =~= zeros.data@);
        self.store_input(index, &zeros.data, &zeros.data);
        proof {
            let other: BufferIndex = if index == 0 {
                1
            } else {
                0
            };
            assert forall|c: int| 0 <= c < 2 implies #[trigger] self@.input[c] == before.silenced(
                index,
            ).input[c] by {
                assert(self.input(c, other) == old(self).input(c, other));
                assert(self.input(c, index) == zeros.data@);
            }
            assert(self@.input =~= before.silenced(index).input);
        }
    }
}

/// What valid buffers hold is valid, and its halves are those of the channels.
pub proof fn law_model_of_buffers(m: BufferManager, ch: int, index: BufferIndex)
    requires
        m.wf(),
        0 <= ch < NUM_INPUT_CHANNELS,
    ensures
        m@.wf(),
        m@.input[ch].half(index) == m.input(ch, index),
        m@.swapped() == m.swapped()@,
        m@.frames == m.frames && m@.active_index == m.active_index && m@.running == m.running,
        m@.input.len() == 2 && m@.output.len() == 2,
        m@.output[ch].half(index) == m.output_buffers@[ch].half_spec(index),
        m.input(ch, index) == (if index == 0 {
            m.input_buffers@[ch].a.data@
        } else {
            m.input_buffers@[ch].b.data@
        }),
{
}

/// A half that was silenced is silent, and nothing else is changed.
pub proof fn law_silenced(m: BuffersModel, index: BufferIndex, other: BufferIndex)
    requires
        (other == 0) != (index == 0),
    ensures
        m.silenced(index).is_silent(index),
        m.silenced(index).input.len() == m.input.len(),
        forall|c: int|
            0 <= c < m.input.len() ==> (#[trigger] m.silenced(index).input[c]).half(other)
                == m.input[c].half(other),
        m.silenced(index).output == m.output,
{
}

/// Swapping keeps the manager well-formed, names the other half, and done twice
/// changes nothing.
pub proof fn law_swap(m: BufferManager)
    requires
        m.wf(),
    ensures
        m.swapped().wf(),
        m.swapped().active_index != m.active_index,
        m.swapped().swapped() == m,
{
}

/// Silence is zeros.
pub proof fn law_silence(n: nat, i: int)
    ensures
        silence(n).len() == n,
        0 <= i < n ==> silence(n)[i] == 0,
{
}

/// The half with index 0 is A and any other is B, in a pair as in its model, and
/// writing one leaves the other as it is.
pub proof fn law_halves(d: DoubleBuffer, h: HalvesModel, index: BufferIndex, words: Seq<i32>)
    ensures
        index == 0 ==> d.half_spec(index) == d.a.data@ && h.half(index) == h.a,
        index != 0 ==> d.half_spec(index) == d.b.data@ && h.half(index) == h.b,
        h.with_half(index, words).half(index) == words,
        index == 0 ==> h.with_half(index, words).b == h.b,
        index != 0 ==> h.with_half(index, words).a == h.a,
        d@.a == d.a.data@ && d@.b == d.b.data@,
{
}

/// New words go over the beginning and the rest stays.
pub proof fn law_overlay(old_words: Seq<i32>, new_words: Seq<i32>, i: int)
    requires
        new_words.len() <= old_words.len(),
        0 <= i < old_words.len(),
    ensures
        overlay(old_words, new_words).len() == old_words.len(),
        overlay(old_words, new_words)[i] == (if i < new_words.len() {
            new_words[i]
        } else {
            old_words[i]
        }),
{
}

/// New buffers have two channels each way, with two halves of zeros of the size
/// asked for; the first half is active and nothing runs.
pub proof fn law_new_buffers(m: BufferManager, frames: int, ch: int, i: int)
    requires
        m.is_new(frames),
        0 <= ch < 2,
        0 <= i < frames,
    ensures
        m.frames == frames,
        m.input_buffers.len() == 2 && m.output_buffers.len() == 2,
        m.input_buffers@[ch].a.data@.len() == frames && m.input_buffers@[ch].b.data@.len() == frames,
        m.output_buffers@[ch].a.data@.len() == frames && m.output_buffers@[ch].b.data@.len()
            == frames,
        m.input_buffers@[ch].a.data@[i] == 0 && m.input_buffers@[ch].b.data@[i] == 0,
        m.output_buffers@[ch].a.data@[i] == 0 && m.output_buffers@[ch].b.data@[i] == 0,
        m.active_index == 0 && m.running == 0,
{
}

// ---------------------------------------------------------------------------
// Counting rounds
// ---------------------------------------------------------------------------

/// The half of the `k`-th call of the host, where `first` was active at the start:
/// from call to call it is the other one.
pub open spec fn half_of_call(first: BufferIndex, k: nat) -> int {
    if k % 2 == 0 {
        first as int
    } else {
        1 - first
    }
}

/// The count of frames after this many calls of the host. It wraps around.
pub open spec fn count_after(start: u64, frames: int, calls: nat) -> int {
    (start + calls * frames) % 0x1_0000_0000_0000_0000
}

/// One more call counts one more buffer.
pub proof fn lemma_counted(start: u64, frames: int, k: nat)
    ensures
        count_after(start, frames, 0) == start,
        (count_after(start, frames, k) + frames) % 0x1_0000_0000_0000_0000 == count_after(
            start,
            frames,
            k + 1,
        ),
{
    assert((k + 1) * frames == k * frames + frames) by (nonlinear_arith);
    assert(0 * frames == 0) by (nonlinear_arith);
}

} // verus!
