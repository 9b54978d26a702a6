//! The persisted configuration: pulse file path, sample rate and the preset
//! catalog, loaded and saved as one unit by an outside store.  When loading
//! fails, callers substitute these documented defaults.

use crate::catalog::PresetCatalog;
use crate::rat::Rat;
use crate::wave::WaveDescription;
use vstd::prelude::*;

verus! {

/// Everything the program persists between runs.
pub struct Settings<T> {
    /// Where the pulse template is loaded from.
    pub pulse_path: String,
    /// The sample rate generation runs at.
    pub sample_rate_hz: Rat,
    /// The stored presets.
    pub presets: PresetCatalog<T>,
}

impl<T: Copy> Default for Settings<T> {
    /// The documented fallback when no settings can be loaded: pulse shape
    /// from `pulse.txt`, a sample rate of 100000 Hz, and no presets.
    fn default() -> (r: Settings<T>)
        ensures
            r.pulse_path@ == "pulse.txt"@,
            r.sample_rate_hz == (Rat { num: 100000, den: 1 }),
            r.sample_rate_hz.valid(),
            r.presets.model() == Seq::<WaveDescription<T>>::empty(),
    {
        Settings {
            pulse_path: "pulse.txt".to_owned(),
            sample_rate_hz: Rat { num: 100000, den: 1 },
            presets: PresetCatalog::new(),
        }
    }
}

} // verus!
