//! Audio-driven frame pacing: when to step the core, given the audio queue depth and
//! the time since the last frame.
use vstd::prelude::*;
use crate::clock::{is_reading, nanos_of};

verus! {

/// Native GBA frame duration: 16.742706 ms (59.7275 Hz).
pub const NATIVE_GBA_FRAME_NANOS: u64 = 16_742_706;

/// Fast-forward frame duration at 2x speed: 8.371353 ms.
pub const FAST_FORWARD_FRAME_NANOS: u64 = 8_371_353;

/// Audio queue upper threshold (3.5 video frames = 2800 stereo frames at 48 kHz).
pub const AUDIO_SAFE_UPPER_THRESHOLD_FRAMES: usize = 2800;

/// Audio queue lower threshold (1.5 video frames = 1200 stereo frames at 48 kHz).
pub const AUDIO_SAFE_LOWER_THRESHOLD_FRAMES: usize = 1200;

/// Frame pacing decision.
#[derive(Debug, Clone, Copy, PartialEq, Eq, Structural)]
pub enum PacingDecision {
    /// Step the core now for this many frames.
    Step(usize),
    /// The audio queue is near capacity: hold back to let it drain.
    Throttle,
    /// Not yet time for the next frame.
    Wait,
    /// Emulation is paused.
    Paused,
}

/// What the pacer reads of the audio output: whether it is muted and how many stereo
/// frames are queued.
#[derive(Debug, Clone, Copy, PartialEq, Eq, Structural)]
pub struct AudioLevel {
    pub muted: bool,
    pub buffered_frames: usize,
}

/// Dynamic audio-driven frame pacer; times are nanoseconds on one clock.
#[derive(Debug, Clone, Copy)]
pub struct AudioDrivenPacer {
    pub last_frame_nanos: u64,
    pub target_frame_nanos: u64,
    pub fast_forward: bool,
    pub steps_per_frame: usize,
    pub upper_threshold_frames: usize,
    pub lower_threshold_frames: usize,
}

/// The pacer's decision and next frame baseline for a clock reading `now`.
pub open spec fn pace(p: AudioDrivenPacer, audio: Option<AudioLevel>, is_paused: bool, now: u64) -> (PacingDecision, u64) {
    let elapsed = if now >= p.last_frame_nanos { now - p.last_frame_nanos } else { 0 };
    if is_paused {
        (PacingDecision::Paused, p.last_frame_nanos)
    } else if audio is Some && !audio->0.muted && !p.fast_forward && audio->0.buffered_frames > p.upper_threshold_frames {
        (PacingDecision::Throttle, p.last_frame_nanos)
    } else if audio is Some && !audio->0.muted && !p.fast_forward && audio->0.buffered_frames < p.lower_threshold_frames {
        (PacingDecision::Step(p.steps_per_frame), now)
    } else if elapsed >= p.target_frame_nanos {
        (
            PacingDecision::Step(if p.fast_forward { p.steps_per_frame } else { 1 }),
            if elapsed > 2 * p.target_frame_nanos || p.last_frame_nanos + p.target_frame_nanos > u64::MAX {
                now
            } else {
                (p.last_frame_nanos + p.target_frame_nanos) as u64
            },
        )
    } else {
        (PacingDecision::Wait, p.last_frame_nanos)
    }
}

impl AudioDrivenPacer {
    /// A pacer at native speed whose baseline is the clock now.
    pub fn new() -> (p: Self)
        ensures
            p.target_frame_nanos == NATIVE_GBA_FRAME_NANOS,
            !p.fast_forward,
            p.steps_per_frame == 1,
            p.upper_threshold_frames == AUDIO_SAFE_UPPER_THRESHOLD_FRAMES,
            p.lower_threshold_frames == AUDIO_SAFE_LOWER_THRESHOLD_FRAMES,
            exists|t: Option<(u64, u32)>| is_reading(t) && p.last_frame_nanos == nanos_of(t),
    {
        AudioDrivenPacer {
            last_frame_nanos: crate::clock::unix_nanos(),
            target_frame_nanos: NATIVE_GBA_FRAME_NANOS,
            fast_forward: false,
            steps_per_frame: 1,
            upper_threshold_frames: AUDIO_SAFE_UPPER_THRESHOLD_FRAMES,
            lower_threshold_frames: AUDIO_SAFE_LOWER_THRESHOLD_FRAMES,
        }
    }

    /// Switches fast-forward on or off, with at least one step per frame.
    pub fn set_fast_forward(&mut self, enabled: bool, steps_per_frame: usize)
        ensures
            final(self).fast_forward == enabled,
            final(self).steps_per_frame == if steps_per_frame == 0 { 1 } else { steps_per_frame },
            final(self).target_frame_nanos == if enabled { FAST_FORWARD_FRAME_NANOS } else { NATIVE_GBA_FRAME_NANOS },
            final(self).last_frame_nanos == old(self).last_frame_nanos,
            final(self).upper_threshold_frames == old(self).upper_threshold_frames,
            final(self).lower_threshold_frames == old(self).lower_threshold_frames,
    {
        self.fast_forward = enabled;
        self.steps_per_frame = if steps_per_frame == 0 { 1 } else { steps_per_frame };
        self.target_frame_nanos = if enabled { FAST_FORWARD_FRAME_NANOS } else { NATIVE_GBA_FRAME_NANOS };
    }

    /// Fast-forward is on.
    pub fn is_fast_forward(&self) -> (b: bool)
        ensures
            b == self.fast_forward,
    {
        self.fast_forward
    }

    /// The active target frame duration, in nanoseconds.
    pub fn target_frame_duration(&self) -> (n: u64)
        ensures
            n == self.target_frame_nanos,
    {
        self.target_frame_nanos
    }

    /// Moves the baseline to the clock now.
    pub fn reset_timing(&mut self)
        ensures
            final(self).target_frame_nanos == old(self).target_frame_nanos,
            final(self).fast_forward == old(self).fast_forward,
            final(self).steps_per_frame == old(self).steps_per_frame,
            final(self).upper_threshold_frames == old(self).upper_threshold_frames,
            final(self).lower_threshold_frames == old(self).lower_threshold_frames,
            exists|t: Option<(u64, u32)>| is_reading(t) && final(self).last_frame_nanos == nanos_of(t),
    {
        self.last_frame_nanos = crate::clock::unix_nanos();
    }

    /// The pacing decision at clock reading `now` (see `pace`): paused, throttled while
    /// the audio queue holds more than the upper threshold, stepped at once while it holds
    /// fewer than the lower one, stepped when a frame
    /// interval has elapsed (the baseline jumps to `now` after more than two intervals),
    /// waiting otherwise.
    pub fn pace_at(&mut self, audio: Option<AudioLevel>, is_paused: bool, now: u64) -> (d: PacingDecision)
        ensures
            (d, final(self).last_frame_nanos) == pace(*old(self), audio, is_paused, now),
            final(self).target_frame_nanos == old(self).target_frame_nanos,
            final(self).fast_forward == old(self).fast_forward,
            final(self).steps_per_frame == old(self).steps_per_frame,
            final(self).upper_threshold_frames == old(self).upper_threshold_frames,
            final(self).lower_threshold_frames == old(self).lower_threshold_frames,
    {
        if is_paused {
            return PacingDecision::Paused;
        }
        let elapsed = if now >= self.last_frame_nanos { now - self.last_frame_nanos } else { 0 };
        if let Some(a) = audio {
            if !a.muted && !self.fast_forward {
                if a.buffered_frames > self.upper_threshold_frames {
                    return PacingDecision::Throttle;
                }
                if a.buffered_frames < self.lower_threshold_frames {
                    self.last_frame_nanos = now;
                    return PacingDecision::Step(self.steps_per_frame);
                }
            }
        }
        if elapsed >= self.target_frame_nanos {
            let doubled_over = self.target_frame_nanos <= u64::MAX / 2 && elapsed > 2 * self.target_frame_nanos;
            self.last_frame_nanos = if doubled_over || self.last_frame_nanos > u64::MAX - self.target_frame_nanos {
                now
            } else {
                self.last_frame_nanos + self.target_frame_nanos
            };
            PacingDecision::Step(if self.fast_forward { self.steps_per_frame } else { 1 })
        } else {
            PacingDecision::Wait
        }
    }

    /// The pacing decision now, on the system clock (see `pace_at`).
    pub fn evaluate_pacing(&mut self, audio: Option<AudioLevel>, is_paused: bool) -> (d: PacingDecision)
        ensures
            exists|t: Option<(u64, u32)>| is_reading(t)
                && (d, final(self).last_frame_nanos) == pace(*old(self), audio, is_paused, nanos_of(t)),
            final(self).target_frame_nanos == old(self).target_frame_nanos,
            final(self).fast_forward == old(self).fast_forward,
            final(self).steps_per_frame == old(self).steps_per_frame,
            final(self).upper_threshold_frames == old(self).upper_threshold_frames,
            final(self).lower_threshold_frames == old(self).lower_threshold_frames,
    {
        let now = crate::clock::unix_nanos();
        self.pace_at(audio, is_paused, now)
    }
}

impl Default for AudioDrivenPacer {
    fn default() -> (p: Self)
        ensures
            p.target_frame_nanos == NATIVE_GBA_FRAME_NANOS,
            !p.fast_forward,
            p.steps_per_frame == 1,
    {
        Self::new()
    }
}

/// A buffer resized to `n` bytes: cut short, or extended with zeros.
pub open spec fn resized(b: Seq<u8>, n: int) -> Seq<u8> {
    if n <= b.len() { b.take(n) } else { b + Seq::new((n - b.len()) as nat, |i: int| 0u8) }
}

/// `dst` with its first `min(dst.len(), src.len())` bytes taken from `src`.
pub open spec fn with_prefix(dst: Seq<u8>, src: Seq<u8>) -> Seq<u8> {
    Seq::new(dst.len(), |i: int| if i < src.len() { src[i] } else { dst[i] })
}

/// The first of 0, 1, 2 that is neither `a` nor `b`.
pub open spec fn third_index(a: int, b: int) -> int {
    if 0 != a && 0 != b { 0 } else if 1 != a && 1 != b { 1 } else { 2 }
}

/// The triple buffer as values: the three buffers, which one is shown (front) and which
/// one is written next (back), the count of published frames, and the frame size.
pub ghost struct FrameBufferView {
    pub buffers: Seq<Seq<u8>>,
    pub front: int,
    pub back: int,
    pub sequence: u64,
    pub width: u32,
    pub height: u32,
}

impl FrameBufferView {
    /// Front and back are distinct buffers among three, each holding one frame of RGBA.
    pub open spec fn wf(self) -> bool {
        &&& self.buffers.len() == 3
        &&& 0 <= self.front < 3 && 0 <= self.back < 3 && self.front != self.back
        &&& forall|i: int| 0 <= i < 3 ==> #[trigger] self.buffers[i].len() == self.width as int * self.height * 4
    }

    /// After publishing `src` as a `width` x `height` frame: on a size change every buffer
    /// is resized; the back buffer takes the frame's bytes and becomes the front; the
    /// buffer neither shown nor just written becomes the back; the count goes up by one
    /// (wrapping).
    pub open spec fn published(self, src: Seq<u8>, width: u32, height: u32) -> FrameBufferView {
        let n = width as int * height * 4;
        let bufs = if self.width != width || self.height != height {
            Seq::new(3, |i: int| resized(self.buffers[i], n))
        } else {
            self.buffers
        };
        FrameBufferView {
            buffers: bufs.update(self.back, with_prefix(bufs[self.back], src)),
            front: self.back,
            back: third_index(self.back, self.front),
            sequence: (if self.sequence == u64::MAX { 0 } else { self.sequence + 1 }) as u64,
            width: width,
            height: height,
        }
    }
}

/// Triple-buffered frame storage between the emulation and the display: the core
/// publishes into the back buffer while the display copies the front one.
#[derive(Debug)]
pub struct SharedFrameBuffer {
    buf0: Vec<u8>,
    buf1: Vec<u8>,
    buf2: Vec<u8>,
    front_index: usize,
    back_index: usize,
    frame_sequence: u64,
    width: u32,
    height: u32,
}

impl View for SharedFrameBuffer {
    type V = FrameBufferView;

    closed spec fn view(&self) -> FrameBufferView {
        FrameBufferView {
            buffers: seq![self.buf0@, self.buf1@, self.buf2@],
            front: self.front_index as int,
            back: self.back_index as int,
            sequence: self.frame_sequence,
            width: self.width,
            height: self.height,
        }
    }
}

/// `n` zero bytes.
fn zeroed(n: usize) -> (v: Vec<u8>)
    ensures
        v@ == Seq::new(n as nat, |i: int| 0u8),
{
    let mut v: Vec<u8> = Vec::new();
    let mut i: usize = 0;
    while i < n
        invariant
            i <= n,
            v@ == Seq::new(i as nat, |j: int| 0u8),
        decreases n - i,
    {
        v.push(0);
        i = i + 1;
        assert(v@ =~= Seq::new(i as nat, |j: int| 0u8));
    }
    v
}

/// Resizes a buffer to `n` bytes (see `resized`).
fn resize_buffer(b: &mut Vec<u8>, n: usize)
    ensures
        final(b)@ == resized(old(b)@, n as int),
{
    let len = b.len();
    if n <= len {
        b.truncate(n);
    } else {
        let mut i: usize = len;
        while i < n
            invariant
                len <= i <= n,
                b@ == old(b)@ + Seq::new((i - len) as nat, |j: int| 0u8),
            decreases n - i,
        {
            b.push(0);
            i = i + 1;
            assert(b@ =~= old(b)@ + Seq::new((i - len) as nat, |j: int| 0u8));
        }
    }
}

/// Copies the first `min(dst.len(), src.len())` bytes of `src` over `dst`.
fn copy_prefix(dst: &mut Vec<u8>, src: &[u8])
    ensures
        final(dst)@ == with_prefix(old(dst)@, src@),
{
    let n = if dst.len() < src.len() { dst.len() } else { src.len() };
    let mut i: usize = 0;
    while i < n
        invariant
            i <= n,
            n <= src@.len(),
            n == if old(dst)@.len() < src@.len() { old(dst)@.len() } else { src@.len() },
            dst@.len() == old(dst)@.len(),
            forall|j: int| 0 <= j < dst@.len() ==> #[trigger] dst@[j] == if j < i { src@[j] } else { old(dst)@[j] },
        decreases n - i,
    {
        dst.set(i, src[i]);
        i = i + 1;
    }
    assert(dst@ =~= with_prefix(old(dst)@, src@));
}

impl SharedFrameBuffer {
    /// Three zeroed buffers of `width * height * 4` bytes; buffer 0 is shown, buffer 1 is
    /// written next, no frame published.
    pub fn new(width: u32, height: u32) -> (fb: Self)
        requires
            width as int * height * 4 <= usize::MAX,
        ensures
            fb@.wf(),
            fb@.front == 0 && fb@.back == 1 && fb@.sequence == 0,
            fb@.width == width && fb@.height == height,
            forall|i: int| 0 <= i < 3 ==> #[trigger] fb@.buffers[i] == Seq::new((width as int * height * 4) as nat, |j: int| 0u8),
    {
        let byte_len = (width as usize) * (height as usize) * 4;
        SharedFrameBuffer {
            buf0: zeroed(byte_len),
            buf1: zeroed(byte_len),
            buf2: zeroed(byte_len),
            front_index: 0,
            back_index: 1,
            frame_sequence: 0,
            width,
            height,
        }
    }

    /// Writes a frame into the back buffer (resizing all buffers when the size changes)
    /// and makes it the front buffer (see `FrameBufferView::published`).
    pub fn publish_frame(&mut self, src: &[u8], width: u32, height: u32)
        requires
            old(self)@.wf(),
            width as int * height * 4 <= usize::MAX,
        ensures
            final(self)@ == old(self)@.published(src@, width, height),
            final(self)@.wf(),
    {
        if self.width != width || self.height != height {
            self.width = width;
            self.height = height;
            let byte_len = (width as usize) * (height as usize) * 4;
            resize_buffer(&mut self.buf0, byte_len);
            resize_buffer(&mut self.buf1, byte_len);
            resize_buffer(&mut self.buf2, byte_len);
        }
        let back_idx = self.back_index;
        if back_idx == 0 {
            copy_prefix(&mut self.buf0, src);
        } else if back_idx == 1 {
            copy_prefix(&mut self.buf1, src);
        } else {
            copy_prefix(&mut self.buf2, src);
        }
        let prev_front = self.front_index;
        self.front_index = back_idx;
        let next_back: usize = if 0 != back_idx && 0 != prev_front { 0 } else if 1 != back_idx && 1 != prev_front { 1 } else { 2 };
        self.back_index = next_back;
        self.frame_sequence = self.frame_sequence.wrapping_add(1);
        proof {
            let ov = old(self)@;
            let p = ov.published(src@, width, height);
            assert(self@.buffers =~= p.buffers);
        }
    }

    /// Copies the front buffer over the start of `dst` (as much as both hold); returns
    /// whether anything was copied.
    pub fn copy_front_to(&self, dst: &mut [u8]) -> (copied: bool)
        requires
            self@.wf(),
        ensures
            final(dst)@ == with_prefix(old(dst)@, self@.buffers[self@.front]),
            copied == (old(dst)@.len() > 0 && self@.buffers[self@.front].len() > 0),
    {
        let front = if self.front_index == 0 { &self.buf0 } else if self.front_index == 1 { &self.buf1 } else { &self.buf2 };
        let copy_len = if dst.len() < front.len() { dst.len() } else { front.len() };
        let mut i: usize = 0;
        while i < copy_len
            invariant
                i <= copy_len,
                copy_len == if old(dst)@.len() < front@.len() { old(dst)@.len() } else { front@.len() },
                front@ == self@.buffers[self@.front],
                dst@.len() == old(dst)@.len(),
                forall|j: int| 0 <= j < dst@.len() ==> #[trigger] dst@[j] == if j < i { front@[j] } else { old(dst)@[j] },
            decreases copy_len - i,
        {
            dst[i] = front[i];
            i = i + 1;
        }
        assert(dst@ =~= with_prefix(old(dst)@, front@));
        copy_len > 0
    }

    /// The frame size `(width, height)`.
    pub fn dimensions(&self) -> (r: (u32, u32))
        ensures
            r == (self@.width, self@.height),
    {
        (self.width, self.height)
    }

    /// How many frames have been published (wrapping).
    pub fn sequence(&self) -> (s: u64)
        ensures
            s == self@.sequence,
    {
        self.frame_sequence
    }
}

/// Publishing a `width` x `height` frame and then copying the front buffer into a
/// destination of one frame gives the frame's bytes (the copy reports success exactly
/// when the frame is not empty); the size becomes `width` x `height`, the count of frames
/// goes up by one, and the buffer stays well formed.
pub proof fn law_frame_read_after_publish(v: FrameBufferView, src: Seq<u8>, width: u32, height: u32, dst: Seq<u8>)
    requires
        v.wf(),
        src.len() >= width as int * height * 4,
        dst.len() == width as int * height * 4,
        v.sequence < u64::MAX,
    ensures
        ({
            let p = v.published(src, width, height);
            &&& with_prefix(dst, p.buffers[p.front]) == src.take(width as int * height * 4)
            &&& (dst.len() > 0 && p.buffers[p.front].len() > 0) == (width as int * height * 4 > 0)
            &&& p.width == width && p.height == height
            &&& p.sequence == v.sequence + 1
            &&& p.wf()
        }),
{
    let n = width as int * height * 4;
    let p = v.published(src, width, height);
    let bufs = if v.width != width || v.height != height {
        Seq::new(3, |i: int| resized(v.buffers[i], n))
    } else {
        v.buffers
    };
    assert forall|i: int| 0 <= i < 3 implies #[trigger] bufs[i].len() == n by {
        if v.width != width || v.height != height {
            assert(resized(v.buffers[i], n).len() == n);
        }
    }
    assert(p.buffers[p.front].len() == n);
    assert forall|i: int| 0 <= i < 3 implies #[trigger] p.buffers[i].len() == n by {
        if i != v.back {
            assert(p.buffers[i] == bufs[i]);
        }
    }
    assert(with_prefix(dst, p.buffers[p.front]) =~= src.take(n));
}

/// Publishing keeps front and back distinct, the new front is the buffer just written, and
/// the count of frames goes up by one.
pub proof fn law_publish_rotates_buffers(v: FrameBufferView, src: Seq<u8>, width: u32, height: u32)
    requires
        v.wf(),
        v.sequence < u64::MAX,
    ensures
        v.published(src, width, height).front == v.back,
        v.published(src, width, height).back != v.published(src, width, height).front,
        v.published(src, width, height).back != v.front,
        v.published(src, width, height).sequence == v.sequence + 1,
{
}

} // verus!
