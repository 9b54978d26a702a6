use wave2text::assembler::generate;
use wave2text::error::EngineError;
use wave2text::rat::Rat;
use wave2text::wave::{PulseTemplate, WaveDescription};

fn rat(num: i32, den: u32) -> Rat {
    Rat::new(num, den).expect("denominator must be nonzero")
}

#[test]
fn rat_new_rejects_zero_denominator() {
    assert!(Rat::new(1, 0).is_none());
    assert!(Rat::new(3, 2).is_some());
    let r = Rat::from_int(7);
    assert_eq!(r.num, 7);
    assert_eq!(r.den, 1);
}

#[test]
fn example_pulse_train_matches_spec() {
    // Pulse [1, -1], 10 Hz sampling, 2 Hz repetition, 1 s, filler 0:
    // step targets 5 and 10, so two pulses each padded with three zeros.
    let pulse = PulseTemplate::new(vec![1.0f64, -1.0]).unwrap();
    let desc = WaveDescription::new(rat(2, 1), rat(1, 1), 0.0f64);
    let seg = generate(&pulse, rat(10, 1), &desc).unwrap();
    assert_eq!(seg, vec![1.0, -1.0, 0.0, 0.0, 0.0, 1.0, -1.0, 0.0, 0.0, 0.0]);
}

#[test]
fn example_zero_frequency_is_all_filler() {
    let pulse = PulseTemplate::new(vec![1.0f64, -1.0]).unwrap();
    let desc = WaveDescription::new(rat(0, 1), rat(1, 1), 0.0f64);
    let seg = generate(&pulse, rat(10, 1), &desc).unwrap();
    assert_eq!(seg, vec![0.0f64; 10]);
}

#[test]
fn zero_frequency_ignores_template_contents() {
    let pulse_a = PulseTemplate::new(vec![5.0f64]).unwrap();
    let pulse_b = PulseTemplate::new(vec![-3.0f64, 8.0, 9.0]).unwrap();
    let desc = WaveDescription::new(rat(0, 1), rat(1, 2), 7.5f64);
    let seg_a = generate(&pulse_a, rat(10, 1), &desc).unwrap();
    let seg_b = generate(&pulse_b, rat(10, 1), &desc).unwrap();
    assert_eq!(seg_a, vec![7.5f64; 5]);
    assert_eq!(seg_a, seg_b);
}

#[test]
fn fractional_rates_round_half_up() {
    // 3/2 Hz sampling for 1 s: target length round(1.5) = 2.
    let pulse = PulseTemplate::new(vec![1.0f64]).unwrap();
    let desc = WaveDescription::new(rat(0, 1), rat(1, 1), 0.25f64);
    let seg = generate(&pulse, rat(3, 2), &desc).unwrap();
    assert_eq!(seg, vec![0.25f64, 0.25]);
}

#[test]
fn long_template_overruns_but_never_truncates() {
    // Template longer than a period: each repetition overruns its step
    // target; the full template is kept and the length exceeds the target.
    let pulse = PulseTemplate::new(vec![9.0f64; 7]).unwrap();
    let desc = WaveDescription::new(rat(2, 1), rat(1, 1), 0.0f64);
    let seg = generate(&pulse, rat(10, 1), &desc).unwrap();
    // Target is 10; two repetitions of seven samples, no padding.
    assert_eq!(seg.len(), 14);
    assert!(seg.len() >= 10);
    assert_eq!(seg, vec![9.0f64; 14]);
}

#[test]
fn snug_template_hits_target_exactly() {
    // Template of four samples against step slots of five: padding fills
    // each slot, and the segment comes out at exactly the target.
    let pulse = PulseTemplate::new(vec![1.0f64, 2.0, 3.0, 4.0]).unwrap();
    let desc = WaveDescription::new(rat(2, 1), rat(1, 1), 0.0f64);
    let seg = generate(&pulse, rat(10, 1), &desc).unwrap();
    assert_eq!(
        seg,
        vec![1.0, 2.0, 3.0, 4.0, 0.0, 1.0, 2.0, 3.0, 4.0, 0.0]
    );
}

#[test]
fn zero_duration_gives_empty_segment() {
    let pulse = PulseTemplate::new(vec![1.0f64, -1.0]).unwrap();
    let desc = WaveDescription::new(rat(2, 1), rat(0, 1), 0.0f64);
    let seg = generate(&pulse, rat(10, 1), &desc).unwrap();
    assert!(seg.is_empty());
}

#[test]
fn non_positive_sample_rate_is_invalid() {
    let pulse = PulseTemplate::new(vec![1.0f64]).unwrap();
    let desc = WaveDescription::new(rat(2, 1), rat(1, 1), 0.0f64);
    assert_eq!(
        generate(&pulse, rat(0, 1), &desc),
        Err(EngineError::InvalidParameter)
    );
    assert_eq!(
        generate(&pulse, rat(-10, 1), &desc),
        Err(EngineError::InvalidParameter)
    );
}

#[test]
fn negative_frequency_or_duration_is_invalid() {
    let pulse = PulseTemplate::new(vec![1.0f64]).unwrap();
    let bad_freq = WaveDescription::new(rat(-2, 1), rat(1, 1), 0.0f64);
    let bad_dur = WaveDescription::new(rat(2, 1), rat(-1, 1), 0.0f64);
    assert_eq!(
        generate(&pulse, rat(10, 1), &bad_freq),
        Err(EngineError::InvalidParameter)
    );
    assert_eq!(
        generate(&pulse, rat(10, 1), &bad_dur),
        Err(EngineError::InvalidParameter)
    );
}

#[test]
fn empty_template_is_rejected_at_load() {
    let empty: Vec<f64> = Vec::new();
    match PulseTemplate::new(empty) {
        Err(e) => assert_eq!(e, EngineError::EmptyPulse),
        Ok(_) => panic!("an empty template must be rejected"),
    }
}

#[test]
fn error_descriptions_name_each_failure() {
    assert_eq!(EngineError::InvalidParameter.describe(), "invalid parameter");
    assert_eq!(EngineError::IndexOutOfRange.describe(), "index out of range");
    assert_eq!(EngineError::EmptyPulse.describe(), "empty pulse template");
}
