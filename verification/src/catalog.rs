//! The ordered collection of stored wave descriptions (presets), and its
//! persisted shape: one (frequency, duration, filler) triple per preset,
//! order preserved in both directions.

use crate::error::EngineError;
use crate::rat::Rat;
use crate::wave::WaveDescription;
use vstd::prelude::*;

verus! {

/// The wave description a persisted triple stands for.
pub open spec fn desc_of_triple<T>(t: (Rat, Rat, T)) -> WaveDescription<T> {
    WaveDescription { frequency_hz: t.0, duration_sec: t.1, filler: t.2 }
}

/// The persisted triple a wave description is stored as.
pub open spec fn triple_of_desc<T>(d: WaveDescription<T>) -> (Rat, Rat, T) {
    (d.frequency_hz, d.duration_sec, d.filler)
}

/// An ordered catalog of presets, indexed from zero.
pub struct PresetCatalog<T> {
    entries: Vec<WaveDescription<T>>,
}

impl<T: Copy> PresetCatalog<T> {
    /// The stored descriptions, in catalog order.
    pub closed spec fn model(self) -> Seq<WaveDescription<T>> {
        self.entries@
    }

    /// An empty catalog.
    pub fn new() -> (r: PresetCatalog<T>)
        ensures
            r.model() == Seq::<WaveDescription<T>>::empty(),
    {
        PresetCatalog { entries: Vec::new() }
    }

    /// A catalog holding the given descriptions, in the given order.
    pub fn from_presets(entries: Vec<WaveDescription<T>>) -> (r: PresetCatalog<T>)
        ensures
            r.model() == entries@,
    {
        PresetCatalog { entries }
    }

    /// How many presets the catalog holds.
    pub fn len(&self) -> (r: usize)
        ensures
            r == self.model().len(),
    {
        self.entries.len()
    }

    /// The preset at `index`.  Returns `IndexOutOfRange`, and nothing else,
    /// exactly when `index` is at or past the end; valid indices always
    /// succeed.
    pub fn get(&self, index: usize) -> (r: Result<&WaveDescription<T>, EngineError>)
        ensures
            r is Ok <==> index < self.model().len(),
            r is Ok ==> *r->Ok_0 == self.model()[index as int],
            r is Err ==> r->Err_0 == EngineError::IndexOutOfRange,
    {
        if index < self.entries.len() {
            Ok(&self.entries[index])
        } else {
            Err(EngineError::IndexOutOfRange)
        }
    }

    /// All presets in order; a caller pairs each with its position to show
    /// an indexed listing.
    pub fn list(&self) -> (r: &Vec<WaveDescription<T>>)
        ensures
            r@ == self.model(),
    {
        &self.entries
    }

    /// Adds a preset at the end of the catalog.
    pub fn push(&mut self, desc: WaveDescription<T>)
        ensures
            final(self).model() == old(self).model().push(desc),
    {
        self.entries.push(desc);
    }

    /// Replaces the preset at `index`.  Returns `IndexOutOfRange`, and
    /// changes nothing, exactly when `index` is at or past the end.
    pub fn set(&mut self, index: usize, desc: WaveDescription<T>) -> (r: Result<
        (),
        EngineError,
    >)
        ensures
            r is Ok <==> index < old(self).model().len(),
            r is Ok ==> final(self).model() == old(self).model().update(index as int, desc),
            r is Err ==> *final(self) == *old(self) && r->Err_0 == EngineError::IndexOutOfRange,
    {
        if index < self.entries.len() {
            let removed = self.entries.remove(index);
            self.entries.insert(index, desc);
            proof {
                assert(self.entries@ =~= old(self).entries@.update(index as int, desc));
            }
            Ok(())
        } else {
            Err(EngineError::IndexOutOfRange)
        }
    }

    /// Removes and returns the preset at `index`, the rest closing the gap
    /// in order.  Returns `IndexOutOfRange`, and changes nothing, exactly
    /// when `index` is at or past the end.
    pub fn remove(&mut self, index: usize) -> (r: Result<WaveDescription<T>, EngineError>)
        ensures
            r is Ok <==> index < old(self).model().len(),
            r is Ok ==> r->Ok_0 == old(self).model()[index as int] && final(self).model() == old(
                self,
            ).model().remove(index as int),
            r is Err ==> *final(self) == *old(self) && r->Err_0 == EngineError::IndexOutOfRange,
    {
        if index < self.entries.len() {
            Ok(self.entries.remove(index))
        } else {
            Err(EngineError::IndexOutOfRange)
        }
    }

    /// The catalog as it is persisted in the settings: one triple per
    /// preset, order preserved.
    pub fn to_persisted_form(&self) -> (r: Vec<(Rat, Rat, T)>)
        ensures
            r@ == self.model().map_values(|d: WaveDescription<T>| triple_of_desc(d)),
    {
        let mut out: Vec<(Rat, Rat, T)> = Vec::new();
        let mut i: usize = 0;
        while i < self.entries.len()
            invariant
                0 <= i <= self.entries@.len(),
                out@.len() == i,
                forall|j: int| 0 <= j < i ==> out@[j] == triple_of_desc(self.entries@[j]),
            decreases self.entries@.len() - i,
        {
            let d = &self.entries[i];
            out.push((d.frequency_hz, d.duration_sec, d.filler));
            i = i + 1;
        }
        assert(out@ =~= self.model().map_values(|d: WaveDescription<T>| triple_of_desc(d)));
        out
    }

    /// Rebuilds a catalog from its persisted triples, order preserved.
    pub fn from_persisted_form(triples: &Vec<(Rat, Rat, T)>) -> (r: PresetCatalog<T>)
        ensures
            r.model() == triples@.map_values(|t: (Rat, Rat, T)| desc_of_triple(t)),
    {
        let mut entries: Vec<WaveDescription<T>> = Vec::new();
        let mut i: usize = 0;
        while i < triples.len()
            invariant
                0 <= i <= triples@.len(),
                entries@.len() == i,
                forall|j: int| 0 <= j < i ==> entries@[j] == desc_of_triple(triples@[j]),
            decreases triples@.len() - i,
        {
            let t = &triples[i];
            entries.push(WaveDescription { frequency_hz: t.0, duration_sec: t.1, filler: t.2 });
            i = i + 1;
        }
        assert(entries@ =~= triples@.map_values(|t: (Rat, Rat, T)| desc_of_triple(t)));
        PresetCatalog { entries }
    }
}

/// Persisting a catalog and reading it back reproduces the same presets in
/// the same order, and reading triples and persisting them again reproduces
/// the same triples: the two persisted-form maps are mutual inverses.
pub proof fn lemma_persisted_form_round_trip<T>(
    descs: Seq<WaveDescription<T>>,
    triples: Seq<(Rat, Rat, T)>,
)
    ensures
        descs.map_values(|d: WaveDescription<T>| triple_of_desc(d)).map_values(
            |t: (Rat, Rat, T)| desc_of_triple(t),
        ) == descs,
        triples.map_values(|t: (Rat, Rat, T)| desc_of_triple(t)).map_values(
            |d: WaveDescription<T>| triple_of_desc(d),
        ) == triples,
{
    assert(descs.map_values(|d: WaveDescription<T>| triple_of_desc(d)).map_values(
        |t: (Rat, Rat, T)| desc_of_triple(t),
    ) =~= descs);
    assert(triples.map_values(|t: (Rat, Rat, T)| desc_of_triple(t)).map_values(
        |d: WaveDescription<T>| triple_of_desc(d),
    ) =~= triples);
}

} // verus!
