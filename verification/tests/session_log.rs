use wave2text::catalog::PresetCatalog;
use wave2text::error::EngineError;
use wave2text::rat::Rat;
use wave2text::session::{Source, WaveformSession};
use wave2text::wave::{PulseTemplate, WaveDescription};

fn rat(num: i32, den: u32) -> Rat {
    Rat::new(num, den).expect("denominator must be nonzero")
}

fn square_pulse() -> PulseTemplate<f64> {
    PulseTemplate::new(vec![1.0f64, -1.0]).unwrap()
}

#[test]
fn two_appends_concatenate_segments() {
    // The buffer after appending A then B equals the two generated
    // segments laid end to end, and the history holds exactly two entries.
    let pulse = square_pulse();
    let sr = rat(10, 1);
    let a = WaveDescription::new(rat(2, 1), rat(1, 1), 0.0f64);
    let b = WaveDescription::new(rat(0, 1), rat(1, 2), 5.0f64);
    let mut session: WaveformSession<f64> = WaveformSession::new();
    session.append(&pulse, sr, &a, Source::Manual).unwrap();
    session.append(&pulse, sr, &b, Source::Preset(0)).unwrap();

    let seg_a = wave2text::assembler::generate(&pulse, sr, &a).unwrap();
    let seg_b = wave2text::assembler::generate(&pulse, sr, &b).unwrap();
    let mut expected = seg_a.clone();
    expected.extend_from_slice(&seg_b);
    assert_eq!(session.buffer(), &expected);
    assert_eq!(session.history().len(), 2);
    assert_eq!(session.history()[0].source, Source::Manual);
    assert_eq!(session.history()[1].source, Source::Preset(0));
}

#[test]
fn history_records_the_parameters() {
    let pulse = square_pulse();
    let sr = rat(10, 1);
    let desc = WaveDescription::new(rat(2, 1), rat(1, 1), 0.5f64);
    let mut session: WaveformSession<f64> = WaveformSession::new();
    session.append(&pulse, sr, &desc, Source::Manual).unwrap();
    let entry = &session.history()[0];
    assert_eq!(entry.sample_rate_hz, sr);
    assert_eq!(entry.desc.frequency_hz, rat(2, 1));
    assert_eq!(entry.desc.duration_sec, rat(1, 1));
    assert_eq!(entry.desc.filler, 0.5);
}

#[test]
fn failed_append_changes_nothing() {
    let pulse = square_pulse();
    let sr = rat(10, 1);
    let good = WaveDescription::new(rat(2, 1), rat(1, 1), 0.0f64);
    let bad = WaveDescription::new(rat(-2, 1), rat(1, 1), 0.0f64);
    let mut session: WaveformSession<f64> = WaveformSession::new();
    session.append(&pulse, sr, &good, Source::Manual).unwrap();
    let buffer_before = session.buffer().clone();
    assert_eq!(
        session.append(&pulse, sr, &bad, Source::Manual),
        Err(EngineError::InvalidParameter)
    );
    assert_eq!(session.buffer(), &buffer_before);
    assert_eq!(session.history().len(), 1);
}

#[test]
fn clear_then_append_acts_like_fresh_session() {
    let pulse = square_pulse();
    let sr = rat(10, 1);
    let a = WaveDescription::new(rat(2, 1), rat(1, 1), 0.0f64);
    let b = WaveDescription::new(rat(5, 1), rat(2, 1), 1.0f64);

    let mut cleared: WaveformSession<f64> = WaveformSession::new();
    cleared.append(&pulse, sr, &a, Source::Manual).unwrap();
    cleared.clear();
    assert!(cleared.buffer().is_empty());
    assert!(cleared.history().is_empty());
    cleared.append(&pulse, sr, &b, Source::Manual).unwrap();

    let mut fresh: WaveformSession<f64> = WaveformSession::new();
    fresh.append(&pulse, sr, &b, Source::Manual).unwrap();

    assert_eq!(cleared.buffer(), fresh.buffer());
    assert_eq!(cleared.history().len(), fresh.history().len());
}

#[test]
fn out_of_range_preset_leaves_buffer_alone() {
    // Selecting preset index 5 from a 3-entry catalog fails with
    // IndexOutOfRange and the session buffer is untouched.
    let pulse = square_pulse();
    let sr = rat(10, 1);
    let entries = vec![
        WaveDescription::new(rat(1, 1), rat(1, 1), 0.0f64),
        WaveDescription::new(rat(2, 1), rat(1, 1), 0.0f64),
        WaveDescription::new(rat(3, 1), rat(1, 1), 0.0f64),
    ];
    let catalog = PresetCatalog::from_presets(entries);
    assert_eq!(catalog.len(), 3);

    let mut session: WaveformSession<f64> = WaveformSession::new();
    session
        .append(&pulse, sr, catalog.get(1).unwrap(), Source::Preset(1))
        .unwrap();
    let buffer_before = session.buffer().clone();

    match catalog.get(5) {
        Err(e) => assert_eq!(e, EngineError::IndexOutOfRange),
        Ok(_) => panic!("index 5 must be out of range in a 3-entry catalog"),
    }
    assert_eq!(session.buffer(), &buffer_before);
    assert_eq!(session.history().len(), 1);
}

#[test]
fn valid_preset_indices_in_a_batch_still_work() {
    // One bad index in a selection does not stop the good ones.
    let pulse = square_pulse();
    let sr = rat(10, 1);
    let entries = vec![
        WaveDescription::new(rat(0, 1), rat(1, 1), 1.0f64),
        WaveDescription::new(rat(0, 1), rat(1, 1), 2.0f64),
    ];
    let catalog = PresetCatalog::from_presets(entries);
    let mut session: WaveformSession<f64> = WaveformSession::new();
    let mut failures = 0;
    for index in [0usize, 7, 1] {
        match catalog.get(index) {
            Ok(desc) => {
                session
                    .append(&pulse, sr, desc, Source::Preset(index))
                    .unwrap();
            }
            Err(e) => {
                assert_eq!(e, EngineError::IndexOutOfRange);
                failures += 1;
            }
        }
    }
    assert_eq!(failures, 1);
    assert_eq!(session.history().len(), 2);
    let mut expected = vec![1.0f64; 10];
    expected.extend_from_slice(&vec![2.0f64; 10]);
    assert_eq!(session.buffer(), &expected);
}

#[test]
fn persisted_form_round_trips_in_order() {
    let entries = vec![
        WaveDescription::new(rat(1, 2), rat(3, 1), 0.0f64),
        WaveDescription::new(rat(0, 1), rat(1, 4), -1.5f64),
        WaveDescription::new(rat(7, 1), rat(2, 5), 2.0f64),
    ];
    let catalog = PresetCatalog::from_presets(entries.clone());
    let stored = catalog.to_persisted_form();
    assert_eq!(stored.len(), 3);
    assert_eq!(stored[0], (rat(1, 2), rat(3, 1), 0.0f64));
    let reloaded = PresetCatalog::from_persisted_form(&stored);
    assert_eq!(reloaded.len(), entries.len());
    for (i, d) in entries.iter().enumerate() {
        let got = reloaded.get(i).unwrap();
        assert_eq!(got.frequency_hz, d.frequency_hz);
        assert_eq!(got.duration_sec, d.duration_sec);
        assert_eq!(got.filler, d.filler);
    }
}

#[test]
fn catalog_edits_keep_order() {
    let mut catalog: PresetCatalog<f64> = PresetCatalog::new();
    catalog.push(WaveDescription::new(rat(1, 1), rat(1, 1), 0.0));
    catalog.push(WaveDescription::new(rat(2, 1), rat(1, 1), 0.0));
    catalog.push(WaveDescription::new(rat(3, 1), rat(1, 1), 0.0));
    catalog
        .set(1, WaveDescription::new(rat(9, 1), rat(1, 1), 0.5))
        .unwrap();
    let removed = catalog.remove(0).unwrap();
    assert_eq!(removed.frequency_hz, rat(1, 1));
    assert_eq!(catalog.len(), 2);
    assert_eq!(catalog.get(0).unwrap().frequency_hz, rat(9, 1));
    assert_eq!(catalog.get(1).unwrap().frequency_hz, rat(3, 1));
    assert_eq!(
        catalog.set(5, WaveDescription::new(rat(1, 1), rat(1, 1), 0.0)),
        Err(EngineError::IndexOutOfRange)
    );
    assert!(catalog.remove(9).is_err());
    assert_eq!(catalog.len(), 2);
}
