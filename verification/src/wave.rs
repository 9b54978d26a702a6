//! The value objects a generation request is made of: the pulse template
//! that is repeated, and the description of one requested wave.

use crate::error::EngineError;
use crate::rat::Rat;
use vstd::prelude::*;

verus! {

/// One generation request: repeat the pulse at `frequency_hz` for
/// `duration_sec`, padding gaps with `filler`.  Immutable once constructed;
/// used both for ad-hoc manual entries and for stored presets.
#[derive(Clone, Copy, Debug)]
pub struct WaveDescription<T> {
    /// Pulse repetition frequency.  Zero means: no pulses at all, the whole
    /// segment is filler.
    pub frequency_hz: Rat,
    /// How long the generated segment should last.
    pub duration_sec: Rat,
    /// The sample value that pads the gaps between pulse repetitions.
    pub filler: T,
}

impl<T> WaveDescription<T> {
    /// Both rational fields are well-formed.
    pub open spec fn valid(self) -> bool {
        self.frequency_hz.valid() && self.duration_sec.valid()
    }

    /// Builds a description from its parts.
    pub fn new(frequency_hz: Rat, duration_sec: Rat, filler: T) -> (r: WaveDescription<T>)
        ensures
            r == (WaveDescription { frequency_hz, duration_sec, filler }),
    {
        WaveDescription { frequency_hz, duration_sec, filler }
    }
}

/// The fixed sample sequence that is repeated to build a waveform.
/// Invariant: never empty.  Loading enforces this, so generation never has
/// to fear a pad-only segment produced by accident.
#[derive(Clone, Debug)]
pub struct PulseTemplate<T> {
    samples: Vec<T>,
}

impl<T> PulseTemplate<T> {
    /// The sample sequence the template holds.
    pub closed spec fn view(self) -> Seq<T> {
        self.samples@
    }

    /// A well-formed template holds at least one sample.
    pub open spec fn wf(self) -> bool {
        self.view().len() >= 1
    }

    /// Accepts a non-empty sample sequence as a template; an empty one is
    /// rejected with `EmptyPulse` rather than silently producing pad-only
    /// output later.
    pub fn new(samples: Vec<T>) -> (r: Result<PulseTemplate<T>, EngineError>)
        ensures
            r is Ok <==> samples@.len() >= 1,
            r is Ok ==> r->Ok_0@ == samples@ && r->Ok_0.wf(),
            r is Err ==> r->Err_0 == EngineError::EmptyPulse,
    {
        if samples.len() >= 1 {
            Ok(PulseTemplate { samples })
        } else {
            Err(EngineError::EmptyPulse)
        }
    }

    /// How many samples the template holds.
    pub fn len(&self) -> (r: usize)
        ensures
            r == self@.len(),
    {
        self.samples.len()
    }

    /// The template's samples, in order.
    pub fn samples(&self) -> (r: &Vec<T>)
        ensures
            r@ == self@,
    {
        &self.samples
    }
}

} // verus!
