//! Smoothing: the logits of the last few inferences, summed per class.

use vstd::prelude::*;

use crate::recent::remembered;

verus! {

/// Classes the model tells apart.
pub const NUM_CLASSES: usize = 12;

/// Inferences that are averaged (400 ms).
pub const SMOOTH: usize = 4;

/// The model's raw output for one inference.
pub type Logits = [i8; NUM_CLASSES];

/// The sum of one class's logits over several inferences.
pub open spec fn class_sum(past: Seq<Logits>, class: int) -> int
    decreases past.len(),
{
    if past.len() == 0 {
        0
    } else {
        class_sum(past.drop_last(), class) + past.last()@[class]
    }
}

/// A ring of the most recent logits.
pub struct History {
    hist: [Logits; SMOOTH],
    hist_n: usize,
    hist_i: usize,
}

impl History {
    /// The ring's indices are in range, and slots are only reused once the
    /// ring is full.
    pub closed spec fn wf(&self) -> bool {
        &&& self.hist_i < SMOOTH
        &&& self.hist_n <= SMOOTH
        &&& self.hist_n < SMOOTH ==> self.hist_i == self.hist_n
    }

    /// The remembered logits, oldest first.
    pub closed spec fn view(&self) -> Seq<Logits> {
        if self.hist_n < SMOOTH {
            self.hist@.take(self.hist_n as int)
        } else {
            Seq::new(SMOOTH as nat, |h: int| self.hist@[(self.hist_i + h) % (SMOOTH as int)])
        }
    }

    /// A well-formed history never remembers more than `SMOOTH` inferences.
    pub proof fn lemma_bounded(&self)
        requires
            self.wf(),
        ensures
            self@.len() <= SMOOTH,
    {
    }

    /// An empty history.
    pub fn new() -> (h: History)
        ensures
            h.wf(),
            h@ == Seq::<Logits>::empty(),
    {
        History { hist: [[0i8; NUM_CLASSES]; SMOOTH], hist_n: 0, hist_i: 0 }
    }

    /// Remembers `logits`, forgetting the oldest if the history was full.
    pub fn push(&mut self, logits: Logits)
        requires
            old(self).wf(),
        ensures
            final(self).wf(),
            final(self)@ == remembered(old(self)@, logits, SMOOTH as int),
    {
        self.hist[self.hist_i] = logits;
        self.hist_i = (self.hist_i + 1) % SMOOTH;
        if self.hist_n < SMOOTH {
            self.hist_n = self.hist_n + 1;
        }
    }

    /// How many inferences are remembered.
    pub fn len(&self) -> (n: usize)
        requires
            self.wf(),
        ensures
            n == self@.len(),
    {
        self.hist_n
    }

    /// The occupied slots add up, per class, to what the history remembers.
    proof fn lemma_slots_sum(&self, class: int)
        requires
            self.wf(),
        ensures
            class_sum(self.hist@.take(self.hist_n as int), class) == class_sum(self@, class),
    {
        if self.hist_n == SMOOTH {
            let slots = self.hist@.take(SMOOTH as int);
            let rows = self@;
            assert(class_sum(slots, class) == slots[0]@[class] + slots[1]@[class] + slots[2]@[class]
                + slots[3]@[class]) by {
                lemma_class_sum_of_four(slots, class);
            }
            assert(class_sum(rows, class) == rows[0]@[class] + rows[1]@[class] + rows[2]@[class]
                + rows[3]@[class]) by {
                lemma_class_sum_of_four(rows, class);
            }
        }
    }

    /// Each class's logits, summed over the remembered inferences.
    pub fn sums(&self) -> (sums: [i32; NUM_CLASSES])
        requires
            self.wf(),
        ensures
            forall|c: int|
                0 <= c < NUM_CLASSES ==> #[trigger] sums@[c] == class_sum(self@, c),
    {
        let mut sums: [i32; NUM_CLASSES] = [0i32; NUM_CLASSES];
        for h in 0..self.hist_n
            invariant
                self.wf(),
                forall|c: int|
                    0 <= c < NUM_CLASSES ==> #[trigger] sums@[c] == class_sum(
                        self.hist@.take(h as int),
                        c,
                    ),
                forall|c: int|
                    0 <= c < NUM_CLASSES ==> -128 * h <= #[trigger] sums@[c] <= 127 * h,
        {
            let ghost before = sums@;
            assert(self.hist@.take(h + 1).drop_last() =~= self.hist@.take(h as int));
            for c in 0..NUM_CLASSES
                invariant
                    self.wf(),
                    h < self.hist_n,
                    before.len() == NUM_CLASSES,
                    forall|k: int|
                        0 <= k < NUM_CLASSES ==> -128 * h <= #[trigger] before[k] <= 127 * h,
                    forall|k: int|
                        0 <= k < c ==> #[trigger] sums@[k] == before[k] + self.hist@[h as int]@[k],
                    forall|k: int| c <= k < NUM_CLASSES ==> #[trigger] sums@[k] == before[k],
            {
                sums[c] = sums[c] + self.hist[h][c] as i32;
            }
        }
        proof {
            assert forall|c: int| 0 <= c < NUM_CLASSES implies #[trigger] sums@[c] == class_sum(
                self@,
                c,
            ) by {
                self.lemma_slots_sum(c);
            }
        }
        sums
    }
}

proof fn lemma_class_sum_of_four(past: Seq<Logits>, class: int)
    requires
        past.len() == 4,
    ensures
        class_sum(past, class) == past[0]@[class] + past[1]@[class] + past[2]@[class]
            + past[3]@[class],
{
    reveal_with_fuel(class_sum, 5);
}

/// A class's sum over several inferences is its logits added up, one after the other.
pub proof fn law_class_sum_adds_the_logits(past: Seq<Logits>, class: int)
    ensures
        class_sum(past, class) == past.fold_left(
            0int,
            |sum: int, logits: Logits| sum + logits@[class],
        ),
    decreases past.len(),
{
    if past.len() > 0 {
        law_class_sum_adds_the_logits(past.drop_last(), class);
    }
}

/// One more inference adds its logit.
pub proof fn law_class_sum_grows_by_the_logit(past: Seq<Logits>, logits: Logits, class: int)
    ensures
        class_sum(past.push(logits), class) == class_sum(past, class) + logits@[class],
        class_sum(Seq::empty(), class) == 0,
{
    assert(past.push(logits).drop_last() =~= past);
}

} // verus!
