use earworm::note_macro::{checked_parse_note, parse_note, parse_note_at, parse_pitch, pitch_to_midi};
use earworm::pitch::Pitch;

#[test]
fn test_parse_pitch() {
    assert!(matches!(parse_pitch("C"), Ok(Pitch::C)));
    assert!(matches!(parse_pitch("C#"), Ok(Pitch::CSharp)));
    assert!(matches!(parse_pitch("Db"), Ok(Pitch::CSharp)));
    assert!(parse_pitch("H").is_err());
}

#[test]
fn test_parse_note() {
    let (pitch, octave) = parse_note("C4").unwrap();
    assert!(matches!(pitch, Pitch::C));
    assert_eq!(octave, 4);

    let (pitch, octave) = parse_note("C").unwrap();
    assert!(matches!(pitch, Pitch::C));
    assert_eq!(octave, 4); // default

    let (pitch, octave) = parse_note("F#5").unwrap();
    assert!(matches!(pitch, Pitch::FSharp));
    assert_eq!(octave, 5);

    assert!(parse_note("").is_err());
    assert!(parse_note("4").is_err());
    assert!(parse_note("C10").is_err());
}

#[test]
fn macro_midi_numbers() {
    assert_eq!(pitch_to_midi(Pitch::C, 4), 60);
    assert_eq!(pitch_to_midi(Pitch::A, 4), 69);
    assert_eq!(pitch_to_midi(Pitch::G, 9), 127);
    assert_eq!(pitch_to_midi(Pitch::B, 9), 127);
}

#[test]
fn macro_error_messages() {
    assert_eq!(parse_pitch("h"), Err("invalid pitch 'H'".to_string()));
    assert_eq!(parse_note(""), Err("empty string".to_string()));
    assert_eq!(parse_note("4"), Err("string starts with number".to_string()));
    assert_eq!(parse_note("C10"), Err("octave 10 out of range (-1 to 9)".to_string()));
    assert_eq!(parse_note("C-2"), Err("octave -2 out of range (-1 to 9)".to_string()));
    assert_eq!(parse_note("C-128"), Err("octave -128 out of range (-1 to 9)".to_string()));
    assert_eq!(parse_note("C127"), Err("octave 127 out of range (-1 to 9)".to_string()));
    assert_eq!(parse_note("C128"), Err("invalid octave '128'".to_string()));
    assert_eq!(parse_note("Cx4"), Err("invalid pitch 'CX'".to_string()));
    assert_eq!(parse_note("C4.5"), Err("invalid octave '4.5'".to_string()));
}

#[test]
fn macro_split_positions() {
    assert_eq!(parse_note_at("Bb-1", Some(2)), Ok((Pitch::ASharp, -1)));
    assert_eq!(parse_note_at("Bb", None), Ok((Pitch::ASharp, 4)));
    assert_eq!(checked_parse_note("É4"), None);
    assert_eq!(checked_parse_note("eb2"), Some(Ok((Pitch::DSharp, 2))));
}
