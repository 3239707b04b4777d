//! Cutting audio into overlapping analysis frames.
//!
//! A frame is 480 samples (30 ms) and frames advance by 320 samples (20 ms). One
//! audio buffer is one hop: the last 160 samples of the previous hop are kept
//! and put in front of the new 320.

use vstd::prelude::*;

verus! {

/// Samples in one analysis frame (30 ms).
pub const FRAME_LEN: usize = 480;

/// Samples from the start of one frame to the start of the next (20 ms).
pub const FRAME_HOP: usize = 320;

/// Samples carried over from one hop to the next.
pub const TAIL: usize = FRAME_LEN - FRAME_HOP;

/// Samples of one frame.
pub type Frame = [i16; FRAME_LEN];

/// The `f`-th frame of a recording.
pub open spec fn framed(pcm: Seq<i16>, f: int) -> Seq<i16> {
    pcm.subrange(f * FRAME_HOP, f * FRAME_HOP + FRAME_LEN)
}

/// Samples carried between hops.
pub struct Framer {
    tail: [i16; TAIL],
}

impl Framer {
    /// The carried samples.
    pub closed spec fn view(&self) -> Seq<i16> {
        self.tail@
    }

    /// A framer before any audio: it carries silence.
    pub fn new() -> (framer: Framer)
        ensures
            framer@ == Seq::new(TAIL as nat, |i: int| 0i16),
    {
        Framer { tail: [0i16; TAIL] }
    }

    /// The frame that the hop `samples` completes; carries the hop's end over.
    pub fn next_frame(&mut self, samples: &[i16; FRAME_HOP]) -> (frame: Frame)
        ensures
            frame@ == old(self)@ + samples@,
            final(self)@ == samples@.skip(FRAME_HOP - TAIL),
    {
        let mut frame: Frame = [0i16; FRAME_LEN];
        for i in 0..TAIL
            invariant
                *self == *old(self),
                forall|k: int| 0 <= k < i ==> #[trigger] frame@[k] == self.tail@[k],
        {
            frame[i] = self.tail[i];
        }
        for i in 0..FRAME_HOP
            invariant
                *self == *old(self),
                forall|k: int| 0 <= k < TAIL ==> #[trigger] frame@[k] == self.tail@[k],
                forall|k: int| TAIL <= k < TAIL + i ==> #[trigger] frame@[k] == samples@[k - TAIL],
        {
            frame[TAIL + i] = samples[i];
        }
        for i in 0..TAIL
            invariant
                forall|k: int|
                    0 <= k < i ==> #[trigger] self.tail@[k] == samples@[FRAME_HOP - TAIL + k],
        {
            self.tail[i] = samples[FRAME_HOP - TAIL + i];
        }
        frame
    }
}

/// The `f`-th frame of a recorded clip.
pub fn clip_frame(pcm: &[i16], f: usize) -> (frame: Frame)
    requires
        f * FRAME_HOP + FRAME_LEN <= pcm@.len(),
    ensures
        frame@ == framed(pcm@, f as int),
{
    let len: usize = pcm.len();
    let start: usize = f * FRAME_HOP;
    let mut frame: Frame = [0i16; FRAME_LEN];
    for i in 0..FRAME_LEN
        invariant
            start == f * FRAME_HOP,
            start + FRAME_LEN <= len,
            len == pcm@.len(),
            forall|k: int| 0 <= k < i ==> #[trigger] frame@[k] == pcm@[start + k],
    {
        frame[i] = pcm[start + i];
    }
    frame
}

/// What a framer carries after a run of hops.
pub open spec fn carried(hops: Seq<Seq<i16>>) -> Seq<i16> {
    if hops.len() == 0 {
        Seq::new(TAIL as nat, |i: int| 0i16)
    } else {
        hops.last().skip(FRAME_HOP - TAIL)
    }
}

/// The audio of a run of hops, with silence in front of it for the first frame
/// to begin in.
pub open spec fn padded(hops: Seq<Seq<i16>>) -> Seq<i16>
    decreases hops.len(),
{
    if hops.len() == 0 {
        Seq::new(TAIL as nat, |i: int| 0i16)
    } else {
        padded(hops.drop_last()) + hops.last()
    }
}

/// Framing hop by hop gives the frames of the whole recording: whatever a framer
/// carries after `hops`, the next hop completes the frame that a clip of all the
/// audio, preceded by a tail of silence, has at that place.
pub proof fn law_streaming_frames_are_clip_frames(hops: Seq<Seq<i16>>, samples: Seq<i16>)
    requires
        samples.len() == FRAME_HOP,
        forall|i: int| 0 <= i < hops.len() ==> (#[trigger] hops[i]).len() == FRAME_HOP,
    ensures
        carried(hops) + samples == framed(padded(hops.push(samples)), hops.len() as int),
{
    lemma_padded_ends_with_carried(hops);
    assert(hops.push(samples).drop_last() =~= hops);
}

proof fn lemma_padded_ends_with_carried(hops: Seq<Seq<i16>>)
    requires
        forall|i: int| 0 <= i < hops.len() ==> (#[trigger] hops[i]).len() == FRAME_HOP,
    ensures
        padded(hops).len() == TAIL + hops.len() * FRAME_HOP,
        padded(hops).skip(hops.len() * FRAME_HOP) == carried(hops),
    decreases hops.len(),
{
    if hops.len() > 0 {
        lemma_padded_ends_with_carried(hops.drop_last());
    }
}

/// Consecutive frames of a recording overlap by the tail.
pub proof fn law_frames_overlap_by_the_tail(pcm: Seq<i16>, f: int)
    requires
        0 <= f,
        (f + 1) * FRAME_HOP + FRAME_LEN <= pcm.len(),
    ensures
        framed(pcm, f).skip(FRAME_HOP as int) == framed(pcm, f + 1).take(TAIL as int),
{
}

/// Frame `f` of a recording holds the 480 samples from sample `320 * f` on.
pub proof fn law_frames_hold_consecutive_samples(pcm: Seq<i16>, f: int, i: int)
    requires
        0 <= f,
        320 * f + 480 <= pcm.len(),
        0 <= i < 480,
    ensures
        framed(pcm, f).len() == 480,
        framed(pcm, f)[i] == pcm[320 * f + i],
{
}

/// What a stream's next frame begins with: the last 160 samples of the hop before,
/// or silence if there was none.
pub proof fn law_frames_begin_with_the_hop_before(hops: Seq<Seq<i16>>, i: int)
    requires
        0 <= i < 160,
        hops.len() > 0 ==> hops.last().len() == 320,
    ensures
        carried(hops).len() == 160,
        carried(hops)[i] == if hops.len() == 0 {
            0
        } else {
            hops[hops.len() - 1][160 + i]
        },
{
}

} // verus!
