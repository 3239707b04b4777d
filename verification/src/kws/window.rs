//! The sliding window of feature rows that one inference looks at.

use vstd::prelude::*;

use crate::quant::{clamped, quantize};
use crate::recent::remembered;

verus! {

/// Feature rows in one analysis window.
pub const NUM_FRAMES: usize = 49;

/// Cepstral coefficients in one feature row.
pub const NUM_MFCC: usize = 10;

/// Features in one analysis window.
pub const FEAT_LEN: usize = NUM_FRAMES * NUM_MFCC;

/// One feature row: each coefficient scaled to the model's input step and
/// rounded to an integer.
pub type Row = [i32; NUM_MFCC];

/// Rows laid out one after the other, as the model's input tensor wants them.
pub open spec fn flattened(rows: Seq<Row>) -> Seq<i32> {
    Seq::new(
        rows.len() * (NUM_MFCC as nat),
        |i: int| rows[i / (NUM_MFCC as int)]@[i % (NUM_MFCC as int)],
    )
}

/// A ring of the most recent feature rows; the oldest stands at `head` once
/// the ring is full.
pub struct Window {
    feats: [Row; NUM_FRAMES],
    head: usize,
    filled: usize,
}

impl Window {
    /// The ring's indices are in range, and rows are only skipped once the
    /// ring is full.
    pub closed spec fn wf(&self) -> bool {
        &&& self.head < NUM_FRAMES
        &&& self.filled <= NUM_FRAMES
        &&& self.filled < NUM_FRAMES ==> self.head == self.filled
    }

    /// The remembered rows, oldest first.
    pub closed spec fn view(&self) -> Seq<Row> {
        if self.filled < NUM_FRAMES {
            self.feats@.take(self.filled as int)
        } else {
            Seq::new(NUM_FRAMES as nat, |f: int| self.feats@[(self.head + f) % (NUM_FRAMES as int)])
        }
    }

    /// An empty window.
    pub fn new() -> (w: Window)
        ensures
            w.wf(),
            w@ == Seq::<Row>::empty(),
    {
        Window { feats: [[0i32; NUM_MFCC]; NUM_FRAMES], head: 0, filled: 0 }
    }

    /// Remembers `row`, forgetting the oldest row if the window was full.
    pub fn push(&mut self, row: Row)
        requires
            old(self).wf(),
        ensures
            final(self).wf(),
            final(self)@ == remembered(old(self)@, row, NUM_FRAMES as int),
    {
        self.feats[self.head] = row;
        self.head = (self.head + 1) % NUM_FRAMES;
        if self.filled < NUM_FRAMES {
            self.filled = self.filled + 1;
        }
    }

    /// Whether a whole window of rows has been seen.
    pub fn is_full(&self) -> (full: bool)
        requires
            self.wf(),
        ensures
            full == (self@.len() == NUM_FRAMES),
    {
        self.filled == NUM_FRAMES
    }

    /// The window's features in chronological order, oldest row first.
    pub fn assemble(&self) -> (features: [i32; FEAT_LEN])
        requires
            self.wf(),
            self@.len() == NUM_FRAMES,
        ensures
            features@ == flattened(self@),
    {
        let mut features: [i32; FEAT_LEN] = [0i32; FEAT_LEN];
        for f in 0..NUM_FRAMES
            invariant
                self.wf(),
                self@.len() == NUM_FRAMES,
                forall|i: int| 0 <= i < f * NUM_MFCC ==> #[trigger] features@[i] == flattened(self@)[i],
        {
            let row: &Row = &self.feats[(self.head + f) % NUM_FRAMES];
            for j in 0..NUM_MFCC
                invariant
                    self.wf(),
                    self@.len() == NUM_FRAMES,
                    f < NUM_FRAMES,
                    *row == self@[f as int],
                    forall|i: int|
                        0 <= i < f * NUM_MFCC + j ==> #[trigger] features@[i] == flattened(self@)[i],
            {
                features[f * NUM_MFCC + j] = row[j];
            }
        }
        features
    }
}

/// Features, each with the zero point added and clamped to a signed byte.
pub open spec fn quantized(features: Seq<i32>, zp: i32) -> Seq<i8> {
    Seq::new(features.len(), |i: int| clamped(features[i] + zp) as i8)
}

/// A whole window of features, quantized for the model's input.
pub fn quantize_features(features: &[i32; FEAT_LEN], zp: i32) -> (q: [i8; FEAT_LEN])
    ensures
        q@ == quantized(features@, zp),
        forall|i: int| 0 <= i < FEAT_LEN ==> #[trigger] q@[i] == clamped(features@[i] + zp),
{
    let mut q: [i8; FEAT_LEN] = [0i8; FEAT_LEN];
    for i in 0..FEAT_LEN
        invariant
            forall|k: int| 0 <= k < i ==> #[trigger] q@[k] == clamped(features@[k] + zp),
    {
        q[i] = quantize(features[i], zp);
    }
    q
}

/// Row after row, coefficient after coefficient.
pub proof fn law_rows_lie_one_after_the_other(rows: Seq<Row>, f: int, j: int)
    requires
        0 <= f < rows.len(),
        0 <= j < 10,
    ensures
        flattened(rows).len() == 10 * rows.len(),
        flattened(rows)[10 * f + j] == rows[f]@[j],
{
    assert((10 * f + j) / 10 == f);
    assert((10 * f + j) % 10 == j);
}

/// Every feature is shifted by the zero point where that gives a signed byte, and is
/// otherwise the byte at that end of the range.
pub proof fn law_features_are_shifted_and_clamped(features: Seq<i32>, zp: i32, i: int)
    requires
        0 <= i < features.len(),
    ensures
        quantized(features, zp).len() == features.len(),
        -128 <= features[i] + zp <= 127 ==> quantized(features, zp)[i] == features[i] + zp,
        features[i] + zp < -128 ==> quantized(features, zp)[i] == -128,
        features[i] + zp > 127 ==> quantized(features, zp)[i] == 127,
{
}

} // verus!
