//! The keyword spotter's loop, as steps between the work that needs the device.
//!
//! The caller waits for audio, computes features, runs the engine and logs; each
//! step takes what came of that and says what is next.

use vstd::prelude::*;

use crate::kws::detector::{
    after_logits, after_row, at_start, infer_due, status_of, verdict, wrapped, Detection, Detector,
    Progress, Status,
};
use crate::kws::frame::{carried, Frame, Framer, FRAME_HOP, TAIL};
use crate::kws::history::{Logits, NUM_CLASSES};
use crate::kws::window::{flattened, quantize_features, quantized, Row, FEAT_LEN};

verus! {

/// What the caller has done.
pub enum Event {
    /// A hop of audio has come.
    Samples([i16; FRAME_HOP]),
    /// The frame's features, scaled to input steps and rounded, are these.
    Row(Row),
    /// The engine, running from one cycle count to the other, gave these logits.
    Inferred { logits: Logits, begun: u32, ended: u32 },
}

/// What the caller has to do.
pub enum Action {
    /// Compute the features of this frame.
    Analyse(Frame),
    /// Run the engine on this input.
    Infer([i8; FEAT_LEN]),
    /// Log a detection, if there is one, then a heartbeat, if one is due; then
    /// wait for the next hop of audio.
    Log { heard: Option<Detection>, status: Option<Status> },
}

/// The spotter's state.
pub struct Spotter {
    framer: Framer,
    detector: Detector,
    zp: i32,
}

impl Spotter {
    /// The detector is well formed.
    pub closed spec fn wf(&self) -> bool {
        self.detector.wf()
    }

    /// The samples carried into the next frame.
    pub closed spec fn tail(&self) -> Seq<i16> {
        self.framer@
    }

    /// What the detection loop remembers.
    pub closed spec fn progress(&self) -> Progress {
        self.detector@
    }

    /// The zero point of the model's input.
    pub closed spec fn zp(&self) -> i32 {
        self.zp
    }

    /// A spotter that has heard nothing yet, for a model whose input has the zero
    /// point `zp`.
    pub fn new(zp: i32) -> (s: Spotter)
        ensures
            s.zp() == zp,
            s.wf(),
            s.tail() == carried(Seq::empty()),
            s.progress() == at_start(),
    {
        Spotter { framer: Framer::new(), detector: Detector::new(), zp }
    }

    /// One step.
    pub fn step(&mut self, event: Event) -> (action: Action)
        requires
            old(self).wf(),
        ensures
            final(self).wf(),
            final(self).zp() == old(self).zp(),
            match event {
                Event::Samples(samples) => {
                    &&& action is Analyse
                    &&& action->Analyse_0@ == old(self).tail() + samples@
                    &&& final(self).tail() == samples@.skip(FRAME_HOP - TAIL)
                    &&& final(self).progress() == old(self).progress()
                },
                Event::Row(row) => {
                    &&& final(self).tail() == old(self).tail()
                    &&& final(self).progress() == after_row(old(self).progress(), row)
                    &&& if infer_due(final(self).progress()) {
                        &&& action is Infer
                        &&& action->Infer_0@ == quantized(
                            flattened(final(self).progress().rows),
                            old(self).zp(),
                        )
                    } else {
                        action == (Action::Log {
                            heard: None,
                            status: status_of(final(self).progress()),
                        })
                    }
                },
                Event::Inferred { logits, begun, ended } => {
                    &&& final(self).tail() == old(self).tail()
                    &&& final(self).progress() == after_logits(
                        old(self).progress(),
                        logits,
                        wrapped(ended - begun),
                    )
                    &&& action == (Action::Log {
                        heard: verdict(old(self).progress(), logits, wrapped(ended - begun)),
                        status: status_of(final(self).progress()),
                    })
                },
            },
            action matches Action::Log { heard: Some(heard), .. } ==> heard.class < NUM_CLASSES,
    {
        match event {
            Event::Samples(samples) => Action::Analyse(self.framer.next_frame(&samples)),
            Event::Row(row) => {
                if self.detector.on_row(row) {
                    Action::Infer(quantize_features(&self.detector.features(), self.zp))
                } else {
                    Action::Log { heard: None, status: self.detector.status() }
                }
            },
            Event::Inferred { logits, begun, ended } => {
                let heard = self.detector.on_logits(logits, begun, ended);
                Action::Log { heard, status: self.detector.status() }
            },
        }
    }
}

} // verus!
