use wave2text::lines::{render_lines, split_lines};
use wave2text::rat::Rat;
use wave2text::settings::Settings;
use wave2text::shell::{command_from_menu_choice, is_affirmative, Command};

#[test]
fn render_joins_with_single_line_feeds() {
    let lines = vec![b"1".to_vec(), b"-0.5".to_vec(), b"0".to_vec()];
    let text = render_lines(&lines);
    assert_eq!(text, b"1\n-0.5\n0".to_vec());
}

#[test]
fn render_of_one_line_has_no_separator() {
    let lines = vec![b"42".to_vec()];
    assert_eq!(render_lines(&lines), b"42".to_vec());
    let none: Vec<Vec<u8>> = Vec::new();
    assert_eq!(render_lines(&none), Vec::<u8>::new());
}

#[test]
fn split_accepts_bare_line_feeds() {
    let parts = split_lines(&b"1.5\n-2\n0.25".to_vec());
    assert_eq!(parts, vec![b"1.5".to_vec(), b"-2".to_vec(), b"0.25".to_vec()]);
}

#[test]
fn split_accepts_two_byte_separators() {
    let parts = split_lines(&b"1.5\r\n-2\r\n0.25".to_vec());
    assert_eq!(parts, vec![b"1.5".to_vec(), b"-2".to_vec(), b"0.25".to_vec()]);
}

#[test]
fn split_of_empty_text_is_one_empty_line() {
    let parts = split_lines(&Vec::new());
    assert_eq!(parts, vec![Vec::<u8>::new()]);
}

#[test]
fn exported_buffer_reads_back_identically() {
    // Round trip to the serialization precision used: format each sample,
    // join, split, parse, and compare for exact equality.
    let samples = vec![1.0f64, -1.0, 0.0, 0.125, 100000.0, -2.5e-3];
    let lines: Vec<Vec<u8>> = samples
        .iter()
        .map(|x| x.to_string().into_bytes())
        .collect();
    let text = render_lines(&lines);
    let parts = split_lines(&text);
    let reread: Vec<f64> = parts
        .iter()
        .map(|p| String::from_utf8(p.clone()).unwrap().parse().unwrap())
        .collect();
    assert_eq!(reread, samples);
}

#[test]
fn crlf_export_reads_back_identically_too() {
    let samples = vec![0.5f64, -3.25];
    let mut text = Vec::new();
    for (i, x) in samples.iter().enumerate() {
        if i > 0 {
            text.extend_from_slice(b"\r\n");
        }
        text.extend_from_slice(x.to_string().as_bytes());
    }
    let parts = split_lines(&text);
    let reread: Vec<f64> = parts
        .iter()
        .map(|p| String::from_utf8(p.clone()).unwrap().parse().unwrap())
        .collect();
    assert_eq!(reread, samples);
}

#[test]
fn menu_numbers_map_to_their_commands() {
    assert_eq!(command_from_menu_choice(1), Some(Command::AddManual));
    assert_eq!(command_from_menu_choice(2), Some(Command::AddPresets));
    assert_eq!(command_from_menu_choice(3), Some(Command::ViewHistory));
    assert_eq!(command_from_menu_choice(4), Some(Command::Clear));
    assert_eq!(command_from_menu_choice(5), Some(Command::Export));
    assert_eq!(command_from_menu_choice(6), Some(Command::EditPresets));
    assert_eq!(command_from_menu_choice(7), Some(Command::EditSampleRate));
    assert_eq!(command_from_menu_choice(8), Some(Command::Exit));
    assert_eq!(command_from_menu_choice(0), None);
    assert_eq!(command_from_menu_choice(9), None);
    assert_eq!(command_from_menu_choice(255), None);
}

#[test]
fn confirmations_accept_y_and_yes_any_case() {
    assert!(is_affirmative(&b"y".to_vec()));
    assert!(is_affirmative(&b"Y\n".to_vec()));
    assert!(is_affirmative(&b"yes".to_vec()));
    assert!(is_affirmative(&b" YeS \r\n".to_vec()));
    assert!(!is_affirmative(&b"no".to_vec()));
    assert!(!is_affirmative(&b"".to_vec()));
    assert!(!is_affirmative(&b"  \n".to_vec()));
    assert!(!is_affirmative(&b"yess".to_vec()));
    assert!(!is_affirmative(&b"ye".to_vec()));
}

#[test]
fn default_settings_match_the_documented_fallback() {
    let settings: Settings<f64> = Settings::default();
    assert_eq!(settings.pulse_path, "pulse.txt");
    assert_eq!(settings.sample_rate_hz, Rat::from_int(100000));
    assert_eq!(settings.presets.len(), 0);
}
