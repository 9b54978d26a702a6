//! The session state: the accumulated sample buffer and its parallel
//! history log.  The two are mutated together and only here — one history
//! entry per successful append, none on a refused one — so the history
//! length always equals the number of appends since the last clear.

use crate::assembler::{generate, generated, params_ok};
use crate::error::EngineError;
use crate::rat::Rat;
use crate::wave::{PulseTemplate, WaveDescription};
use vstd::prelude::*;

verus! {

/// Where an appended segment came from: a manual entry, or the preset with
/// the given catalog index.
#[derive(Clone, Copy, Debug, PartialEq, Eq, Structural)]
pub enum Source {
    /// Parameters typed in by hand.
    Manual,
    /// Parameters taken from the preset at this catalog index.
    Preset(usize),
}

/// One history record, describing one append operation: its source and the
/// full set of generation parameters.  Callers render it to text; the
/// session only stores it.
#[derive(Clone, Copy, Debug)]
pub struct HistoryEntry<T> {
    /// Whether the description was entered manually or taken from a preset.
    pub source: Source,
    /// The sample rate the segment was generated at.
    pub sample_rate_hz: Rat,
    /// The generation request itself.
    pub desc: WaveDescription<T>,
}

/// The waveform being built up over one run: an append-only sample buffer
/// and one history entry per append, cleared only together.
pub struct WaveformSession<T> {
    buffer: Vec<T>,
    history: Vec<HistoryEntry<T>>,
}

impl<T: Copy> WaveformSession<T> {
    /// The samples accumulated so far.
    pub closed spec fn buffer_model(self) -> Seq<T> {
        self.buffer@
    }

    /// The history entries recorded so far, one per append.
    pub closed spec fn history_model(self) -> Seq<HistoryEntry<T>> {
        self.history@
    }

    /// A fresh session: empty buffer, empty history.
    pub fn new() -> (r: WaveformSession<T>)
        ensures
            r.buffer_model() == Seq::<T>::empty(),
            r.history_model() == Seq::<HistoryEntry<T>>::empty(),
    {
        WaveformSession { buffer: Vec::new(), history: Vec::new() }
    }

    /// Read access to the accumulated samples.
    pub fn buffer(&self) -> (r: &Vec<T>)
        ensures
            r@ == self.buffer_model(),
    {
        &self.buffer
    }

    /// Read access to the history log.
    pub fn history(&self) -> (r: &Vec<HistoryEntry<T>>)
        ensures
            r@ == self.history_model(),
    {
        &self.history
    }

    /// Generates one segment and appends it to the buffer, recording one
    /// history entry — atomically: on `InvalidParameter` (exactly the
    /// inputs outside `params_ok`) neither collection changes.
    pub fn append(
        &mut self,
        pulse: &PulseTemplate<T>,
        sample_rate_hz: Rat,
        desc: &WaveDescription<T>,
        source: Source,
    ) -> (r: Result<(), EngineError>)
        requires
            pulse.wf(),
            sample_rate_hz.valid(),
            desc.valid(),
            params_ok(sample_rate_hz, desc.frequency_hz, desc.duration_sec) ==> old(
                self,
            ).buffer_model().len() + generated(pulse@, sample_rate_hz, *desc).len()
                <= usize::MAX,
        ensures
            r is Ok <==> params_ok(sample_rate_hz, desc.frequency_hz, desc.duration_sec),
            r is Ok ==> final(self).buffer_model() == old(self).buffer_model() + generated(
                pulse@,
                sample_rate_hz,
                *desc,
            ),
            r is Ok ==> final(self).history_model() == old(self).history_model().push(
                (HistoryEntry { source, sample_rate_hz, desc: *desc }),
            ),
            r is Err ==> *final(self) == *old(self) && r->Err_0
                == EngineError::InvalidParameter,
    {
        let mut seg: Vec<T> = match generate(pulse, sample_rate_hz, desc) {
            Ok(seg) => seg,
            Err(e) => {
                return Err(e);
            },
        };
        self.buffer.append(&mut seg);
        self.history.push(HistoryEntry { source, sample_rate_hz, desc: *desc });
        Ok(())
    }

    /// Empties both the buffer and the history.  Irreversible; callers are
    /// expected to gate it behind explicit confirmation.
    pub fn clear(&mut self)
        ensures
            final(self).buffer_model() == Seq::<T>::empty(),
            final(self).history_model() == Seq::<HistoryEntry<T>>::empty(),
    {
        self.buffer.clear();
        self.history.clear();
    }
}

/// Appending is associative with respect to buffer concatenation: appending
/// the segment of `a` and then the segment of `b` leaves the buffer equal
/// to the old buffer followed by the concatenation of the two generated
/// segments, and exactly two new history entries.
pub proof fn lemma_consecutive_appends_concatenate<T>(
    buffer0: Seq<T>,
    history0: Seq<HistoryEntry<T>>,
    pulse: Seq<T>,
    sample_rate_hz: Rat,
    a: WaveDescription<T>,
    b: WaveDescription<T>,
    entry_a: HistoryEntry<T>,
    entry_b: HistoryEntry<T>,
)
    ensures
        (buffer0 + generated(pulse, sample_rate_hz, a)) + generated(pulse, sample_rate_hz, b)
            == buffer0 + (generated(pulse, sample_rate_hz, a) + generated(
            pulse,
            sample_rate_hz,
            b,
        )),
        history0.push(entry_a).push(entry_b).len() == history0.len() + 2,
{
    assert((buffer0 + generated(pulse, sample_rate_hz, a)) + generated(pulse, sample_rate_hz, b)
        =~= buffer0 + (generated(pulse, sample_rate_hz, a) + generated(
        pulse,
        sample_rate_hz,
        b,
    )));
}

/// An append to a cleared session behaves as one to a fresh session: with
/// an empty buffer, the buffer after the append is exactly the generated
/// segment, and the history holds exactly the one new entry.
pub proof fn lemma_append_on_empty_is_fresh<T>(
    pulse: Seq<T>,
    sample_rate_hz: Rat,
    desc: WaveDescription<T>,
    entry: HistoryEntry<T>,
)
    ensures
        Seq::<T>::empty() + generated(pulse, sample_rate_hz, desc) == generated(
            pulse,
            sample_rate_hz,
            desc,
        ),
        Seq::<HistoryEntry<T>>::empty().push(entry) =~= seq![entry],
{
    assert(Seq::<T>::empty() + generated(pulse, sample_rate_hz, desc) =~= generated(
        pulse,
        sample_rate_hz,
        desc,
    ));
}

} // verus!
