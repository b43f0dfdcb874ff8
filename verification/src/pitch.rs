//! Pitch names of the chromatic scale, MIDI note numbers, and the parsing of
//! note names such as `C#4`, `Bb` or `C-1`.

use vstd::prelude::*;
use crate::text::{
    all_ascii, ascii_octave_start, ascii_uppercase, byte_range_chars, encode_utf8_len,
    find_octave_start, is_boundary, lemma_ascii_split, octave_start, parse_i8, parse_i8_spec, split_at_byte, to_uppercase, uppercase,
};

verus! {

/// Musical note names in the chromatic scale, in sharp notation.
#[derive(Debug, Clone, Copy, PartialEq, Eq, Structural)]
pub enum Pitch {
    C,
    CSharp,
    D,
    DSharp,
    E,
    F,
    FSharp,
    G,
    GSharp,
    A,
    ASharp,
    B,
}

/// Error type for parsing musical notes from strings.
#[derive(Debug, Clone, PartialEq, Eq)]
pub enum ParseError {
    /// The input string was empty
    Empty,
    /// The pitch name was invalid or unrecognized
    InvalidPitch(String),
    /// The octave was invalid or out of range
    InvalidOctave(String),
    /// The input format was invalid
    InvalidFormat(String),
}

/// The mathematical content of a `ParseError`.
pub enum ParseErrorView {
    Empty,
    InvalidPitch(Seq<char>),
    InvalidOctave(Seq<char>),
    InvalidFormat(Seq<char>),
}

impl View for ParseError {
    type V = ParseErrorView;

    open spec fn view(&self) -> ParseErrorView {
        match self {
            ParseError::Empty => ParseErrorView::Empty,
            ParseError::InvalidPitch(s) => ParseErrorView::InvalidPitch(s@),
            ParseError::InvalidOctave(s) => ParseErrorView::InvalidOctave(s@),
            ParseError::InvalidFormat(s) => ParseErrorView::InvalidFormat(s@),
        }
    }
}

/// A parse result with its error taken by its view.
pub open spec fn view_result<T>(r: Result<T, ParseError>) -> Result<T, ParseErrorView> {
    match r {
        Ok(v) => Ok(v),
        Err(e) => Err(e@),
    }
}

/// The human-readable message of a parse error.
pub open spec fn error_message(e: ParseErrorView) -> Seq<char> {
    match e {
        ParseErrorView::Empty => "input string is empty"@,
        ParseErrorView::InvalidPitch(s) => "invalid pitch name: '"@ + s + "'"@,
        ParseErrorView::InvalidOctave(s) => "invalid octave: '"@ + s + "'"@,
        ParseErrorView::InvalidFormat(s) => "invalid note format: '"@ + s + "'"@,
    }
}

fn quoted(prefix: &str, body: &String) -> (r: String)
    ensures
        r@ == prefix@ + body@ + "'"@,
{
    let mut out = prefix.to_owned();
    out.append(body.as_str());
    out.append("'");
    out
}

impl ParseError {
    /// The message that this error displays.
    pub fn message(&self) -> (r: String)
        ensures
            r@ == error_message(self@),
    {
        match self {
            ParseError::Empty => "input string is empty".to_owned(),
            ParseError::InvalidPitch(s) => quoted("invalid pitch name: '", s),
            ParseError::InvalidOctave(s) => quoted("invalid octave: '", s),
            ParseError::InvalidFormat(s) => quoted("invalid note format: '", s),
        }
    }
}

/// The semitone offset of a pitch above C.
pub open spec fn semitone(p: Pitch) -> nat {
    match p {
        Pitch::C => 0,
        Pitch::CSharp => 1,
        Pitch::D => 2,
        Pitch::DSharp => 3,
        Pitch::E => 4,
        Pitch::F => 5,
        Pitch::FSharp => 6,
        Pitch::G => 7,
        Pitch::GSharp => 8,
        Pitch::A => 9,
        Pitch::ASharp => 10,
        Pitch::B => 11,
    }
}

/// The MIDI number of a pitch in an octave, before clamping: C-1 is 0, C4 is 60.
pub open spec fn midi_number(p: Pitch, octave: int) -> int {
    (octave + 1) * 12 + semitone(p)
}

/// The octaves in which the MIDI number of `p` is computed without overflow
/// of the unsigned byte arithmetic.
pub open spec fn midi_in_range(p: Pitch, octave: int) -> bool {
    -1 <= octave && midi_number(p, octave) <= 255
}

/// The clamped MIDI note number of `p` in `octave`.
pub open spec fn midi_note_spec(p: Pitch, octave: int) -> int {
    if midi_number(p, octave) > 127 {
        127
    } else {
        midi_number(p, octave)
    }
}

/// The pitch that an uppercase name denotes: a letter, optionally followed by
/// `#` (sharp) or `B` (flat). `B#` is not a name.
pub open spec fn pitch_of_name(u: Seq<char>) -> Option<Pitch> {
    if u.len() == 1 {
        match u[0] {
            'C' => Some(Pitch::C),
            'D' => Some(Pitch::D),
            'E' => Some(Pitch::E),
            'F' => Some(Pitch::F),
            'G' => Some(Pitch::G),
            'A' => Some(Pitch::A),
            'B' => Some(Pitch::B),
            _ => None,
        }
    } else if u.len() == 2 && u[1] == '#' {
        match u[0] {
            'C' => Some(Pitch::CSharp),
            'D' => Some(Pitch::DSharp),
            'E' => Some(Pitch::F),
            'F' => Some(Pitch::FSharp),
            'G' => Some(Pitch::GSharp),
            'A' => Some(Pitch::ASharp),
            _ => None,
        }
    } else if u.len() == 2 && u[1] == 'B' {
        match u[0] {
            'C' => Some(Pitch::B),
            'D' => Some(Pitch::CSharp),
            'E' => Some(Pitch::DSharp),
            'F' => Some(Pitch::E),
            'G' => Some(Pitch::FSharp),
            'A' => Some(Pitch::GSharp),
            'B' => Some(Pitch::ASharp),
            _ => None,
        }
    } else {
        None
    }
}

/// The result of parsing an uppercased pitch name.
pub open spec fn pitch_parse_spec(u: Seq<char>) -> Result<Pitch, ParseErrorView> {
    match pitch_of_name(u) {
        Some(p) => Ok(p),
        None => Err(ParseErrorView::InvalidPitch(u)),
    }
}

/// Looks up an uppercase pitch name.
pub fn pitch_from_name(u: &str) -> (r: Option<Pitch>)
    ensures
        r == pitch_of_name(u@),
{
    let n = u.unicode_len();
    if n == 1 {
        match u.get_char(0) {
            'C' => Some(Pitch::C),
            'D' => Some(Pitch::D),
            'E' => Some(Pitch::E),
            'F' => Some(Pitch::F),
            'G' => Some(Pitch::G),
            'A' => Some(Pitch::A),
            'B' => Some(Pitch::B),
            _ => None,
        }
    } else if n == 2 {
        let c0 = u.get_char(0);
        let c1 = u.get_char(1);
        if c1 == '#' {
            match c0 {
                'C' => Some(Pitch::CSharp),
                'D' => Some(Pitch::DSharp),
                'E' => Some(Pitch::F),
                'F' => Some(Pitch::FSharp),
                'G' => Some(Pitch::GSharp),
                'A' => Some(Pitch::ASharp),
                _ => None,
            }
        } else if c1 == 'B' {
            match c0 {
                'C' => Some(Pitch::B),
                'D' => Some(Pitch::CSharp),
                'E' => Some(Pitch::DSharp),
                'F' => Some(Pitch::E),
                'G' => Some(Pitch::FSharp),
                'A' => Some(Pitch::GSharp),
                'B' => Some(Pitch::ASharp),
                _ => None,
            }
        } else {
            None
        }
    } else {
        None
    }
}

impl Pitch {
    /// Returns the semitone offset from C (0-11) for this note.
    pub fn semitone_offset(&self) -> (r: u8)
        ensures
            r as nat == semitone(*self),
    {
        match self {
            Pitch::C => 0,
            Pitch::CSharp => 1,
            Pitch::D => 2,
            Pitch::DSharp => 3,
            Pitch::E => 4,
            Pitch::F => 5,
            Pitch::FSharp => 6,
            Pitch::G => 7,
            Pitch::GSharp => 8,
            Pitch::A => 9,
            Pitch::ASharp => 10,
            Pitch::B => 11,
        }
    }

    /// Converts a note name and octave to a MIDI note number, clamped to 127.
    pub fn to_midi_note(&self, octave: i8) -> (r: u8)
        requires
            midi_in_range(*self, octave as int),
        ensures
            r as int == midi_note_spec(*self, octave as int),
    {
        let base = (octave + 1) as u8;
        let v = base * 12 + self.semitone_offset();
        if v > 127 {
            127
        } else {
            v
        }
    }

    /// Parses an already uppercased pitch name; its error carries the name.
    pub fn from_uppercase(u: String) -> (r: Result<Pitch, ParseError>)
        ensures
            view_result(r) == pitch_parse_spec(u@),
    {
        match pitch_from_name(u.as_str()) {
            Some(p) => Ok(p),
            None => Err(ParseError::InvalidPitch(u)),
        }
    }

    /// Parses a pitch from a string, case-insensitively, in sharp (`C#`) or
    /// flat (`Db`) notation.
    pub fn from_str(s: &str) -> (r: Result<Pitch, ParseError>)
        ensures
            view_result(r) == pitch_parse_spec(uppercase(s@)),
            all_ascii(s@) ==> view_result(r) == pitch_parse_spec(ascii_uppercase(s@)),
    {
        Pitch::from_uppercase(to_uppercase(s))
    }
}

impl std::str::FromStr for Pitch {
    type Err = ParseError;

    fn from_str(s: &str) -> (r: Result<Pitch, ParseError>)
        ensures
            view_result(r) == pitch_parse_spec(uppercase(s@)),
            all_ascii(s@) ==> view_result(r) == pitch_parse_spec(ascii_uppercase(s@)),
    {
        Pitch::from_str(s)
    }
}

/// Whether the octave part of `s` starts at a character boundary, so that the
/// name can be split there.
pub open spec fn note_name_splittable(s: Seq<char>) -> bool {
    match octave_start(s) {
        Some(p) => is_boundary(s, p),
        None => true,
    }
}

/// The parse of a pitch name with a known octave.
pub open spec fn with_octave(pitch_text: Seq<char>, octave: i8) -> Result<(Pitch, i8), ParseErrorView> {
    match pitch_parse_spec(uppercase(pitch_text)) {
        Ok(p) => Ok((p, octave)),
        Err(e) => Err(e),
    }
}

/// The parse of a note name whose octave part starts at character index
/// `start` (which the text is split at as a byte index); the octave defaults
/// to 4 when there is none and must lie in -1..=9.
pub open spec fn note_name_at_spec(s: Seq<char>, start: Option<int>) -> Result<(Pitch, i8), ParseErrorView> {
    if s.len() == 0 {
        Err(ParseErrorView::Empty)
    } else {
        match start {
            Some(p) => if p == 0 {
                Err(ParseErrorView::InvalidPitch(Seq::empty()))
            } else {
                let pitch_text = byte_range_chars(s, 0, p);
                let octave_text = byte_range_chars(s, p, encode_utf8_len(s));
                match parse_i8_spec(octave_text) {
                    Some(o) => if -1 <= o <= 9 {
                        with_octave(pitch_text, o)
                    } else {
                        Err(ParseErrorView::InvalidOctave(octave_text))
                    },
                    None => Err(ParseErrorView::InvalidOctave(octave_text)),
                }
            },
            None => with_octave(s, 4),
        }
    }
}

/// The parse of a note name such as `C#4`, `Bb` or `C-1`.
pub open spec fn note_name_spec(s: Seq<char>) -> Result<(Pitch, i8), ParseErrorView> {
    note_name_at_spec(s, octave_start(s))
}

/// The parse of an ASCII pitch name with a known octave: the name is
/// uppercased letter by letter.
pub open spec fn ascii_with_octave(pitch_text: Seq<char>, octave: i8) -> Result<(Pitch, i8), ParseErrorView> {
    match pitch_parse_spec(ascii_uppercase(pitch_text)) {
        Ok(p) => Ok((p, octave)),
        Err(e) => Err(e),
    }
}

/// The parse of an ASCII note name whose octave part starts at character
/// index `start`: as `note_name_at_spec`, with each byte one character.
pub open spec fn ascii_note_name_at_spec(s: Seq<char>, start: Option<int>) -> Result<(Pitch, i8), ParseErrorView> {
    if s.len() == 0 {
        Err(ParseErrorView::Empty)
    } else {
        match start {
            Some(p) => if p == 0 {
                Err(ParseErrorView::InvalidPitch(Seq::empty()))
            } else {
                let pitch_text = s.subrange(0, p);
                let octave_text = s.subrange(p, s.len() as int);
                match parse_i8_spec(octave_text) {
                    Some(o) => if -1 <= o <= 9 {
                        ascii_with_octave(pitch_text, o)
                    } else {
                        Err(ParseErrorView::InvalidOctave(octave_text))
                    },
                    None => Err(ParseErrorView::InvalidOctave(octave_text)),
                }
            },
            None => ascii_with_octave(s, 4),
        }
    }
}

/// The parse of an ASCII note name: its octave starts at the first digit or
/// minus sign.
pub open spec fn ascii_note_name_spec(s: Seq<char>) -> Result<(Pitch, i8), ParseErrorView> {
    ascii_note_name_at_spec(s, ascii_octave_start(s))
}

/// An optional index taken as an integer.
pub open spec fn opt_index(r: Option<usize>) -> Option<int> {
    match r {
        Some(p) => Some(p as int),
        None => None,
    }
}

/// Parses a note name whose octave part begins at character index `start`,
/// splitting the text there as a byte index.
pub fn parse_note_name_at(s: &str, start: Option<usize>) -> (r: Result<(Pitch, i8), ParseError>)
    requires
        start matches Some(p) ==> is_boundary(s@, p as int),
    ensures
        view_result(r) == note_name_at_spec(s@, opt_index(start)),
        all_ascii(s@) ==> view_result(r) == ascii_note_name_at_spec(s@, opt_index(start)),
{
    if s.is_empty() {
        return Err(ParseError::Empty);
    }
    let (pitch_text, octave) = match start {
        Some(pos) => {
            if pos == 0 {
                return Err(ParseError::InvalidPitch(String::new()));
            }
            let (pitch_text, octave_text) = split_at_byte(s, pos);
            proof {
                if all_ascii(s@) {
                    lemma_ascii_split(s@, pos as int);
                }
            }
            match parse_i8(octave_text) {
                Some(o) => {
                    if !(-1 <= o && o <= 9) {
                        return Err(ParseError::InvalidOctave(octave_text.to_owned()));
                    }
                    (pitch_text, o)
                },
                None => {
                    return Err(ParseError::InvalidOctave(octave_text.to_owned()));
                },
            }
        },
        None => (s, 4i8),
    };
    proof {
        if all_ascii(s@) {
            assert(all_ascii(pitch_text@));
        }
    }
    match Pitch::from_str(pitch_text) {
        Ok(p) => Ok((p, octave)),
        Err(e) => Err(e),
    }
}

/// Parses a note name: a pitch (case-insensitive, `#` or `b` accidentals)
/// and an optional octave from -1 to 9, which defaults to 4.
pub fn parse_note_name(s: &str) -> (r: Result<(Pitch, i8), ParseError>)
    requires
        note_name_splittable(s@),
    ensures
        view_result(r) == note_name_spec(s@),
        all_ascii(s@) ==> view_result(r) == ascii_note_name_spec(s@),
{
    let start = find_octave_start(s);
    parse_note_name_at(s, start)
}

/// Parses a note name as `parse_note_name` does, and returns `None` for a
/// name that cannot be split where its octave begins.
pub fn checked_parse_note_name(s: &str) -> (r: Option<Result<(Pitch, i8), ParseError>>)
    ensures
        r is Some <==> note_name_splittable(s@),
        r matches Some(x) ==> view_result(x) == note_name_spec(s@),
        all_ascii(s@) ==> (r matches Some(x) && view_result(x) == ascii_note_name_spec(s@)),
{
    let start = find_octave_start(s);
    proof {
        if all_ascii(s@) {
            if let Some(pos) = start {
                lemma_ascii_split(s@, pos as int);
            }
        }
    }
    match start {
        Some(pos) => {
            if !s.is_char_boundary(pos) {
                return None;
            }
        },
        None => {},
    }
    Some(parse_note_name_at(s, start))
}

/// The pitch a single letter names.
pub open spec fn natural(c: char) -> Option<Pitch> {
    pitch_of_name(seq![c])
}

/// A sharp names the pitch one semitone above its letter and a flat the
/// pitch one semitone below, around the octave.
pub proof fn law_accidentals(c: char)
    ensures
        pitch_of_name(seq![c, '#']) matches Some(q) ==> (natural(c) matches Some(p) && semitone(q)
            == (semitone(p) + 1) % 12),
        pitch_of_name(seq![c, 'B']) matches Some(q) ==> (natural(c) matches Some(p) && semitone(q)
            == (semitone(p) + 11) % 12),
{
    let sharp = seq![c, '#'];
    let flat = seq![c, 'B'];
    assert(sharp.len() == 2 && sharp[0] == c && sharp[1] == '#');
    assert(flat.len() == 2 && flat[0] == c && flat[1] == 'B');
    assert(seq![c].len() == 1 && seq![c][0] == c);
}

/// Every pitch has a name (its letter, with `#` for the sharps) that parses
/// back to it.
pub proof fn law_every_pitch_named(p: Pitch)
    ensures
        exists|u: Seq<char>| pitch_of_name(u) == Some(p),
{
    let u = match p {
        Pitch::C => seq!['C'],
        Pitch::CSharp => seq!['C', '#'],
        Pitch::D => seq!['D'],
        Pitch::DSharp => seq!['D', '#'],
        Pitch::E => seq!['E'],
        Pitch::F => seq!['F'],
        Pitch::FSharp => seq!['F', '#'],
        Pitch::G => seq!['G'],
        Pitch::GSharp => seq!['G', '#'],
        Pitch::A => seq!['A'],
        Pitch::ASharp => seq!['A', '#'],
        Pitch::B => seq!['B'],
    };
    assert(pitch_of_name(u) == Some(p));
}

/// One octave up is twelve MIDI numbers up, until the range is clamped at
/// 127; MIDI numbers never fall as the octave rises.
pub proof fn law_octave_is_twelve_semitones(p: Pitch, octave: int)
    ensures
        midi_number(p, octave + 1) == midi_number(p, octave) + 12,
        midi_number(p, octave + 1) <= 127 ==> midi_note_spec(p, octave + 1) == midi_note_spec(p, octave) + 12,
        midi_note_spec(p, octave) <= midi_note_spec(p, octave + 1),
{
}

/// Within an octave, the MIDI number follows the semitone offset: C-1 is 0
/// and each pitch of an octave sits its offset above that octave's C.
pub proof fn law_midi_follows_semitones(p: Pitch, octave: int)
    ensures
        midi_number(p, octave) == midi_number(Pitch::C, octave) + semitone(p),
        midi_number(Pitch::C, -1) == 0,
{
}

/// A parsed note has an octave from -1 to 9 (4 when the name gives none), and
/// its MIDI number is computed without overflow.
pub proof fn law_parsed_octave_in_range(s: Seq<char>)
    ensures
        note_name_spec(s) matches Ok((p, o)) ==> -1 <= o <= 9 && midi_in_range(p, o as int),
        s.len() > 0 && octave_start(s) is None ==> note_name_spec(s) == with_octave(s, 4),
{
    if let Ok((p, o)) = note_name_spec(s) {
        assert(-1 <= o <= 9);
        assert(semitone(p) <= 11);
    }
}

/// The twelve pitches sit on twelve different semitones of the octave,
/// starting from C at 0.
pub proof fn law_semitones_distinct(p: Pitch, q: Pitch)
    ensures
        semitone(p) < 12,
        semitone(Pitch::C) == 0,
        p != q ==> semitone(p) != semitone(q),
{
}

/// The seven letters name the white keys: from C at semitone 0 they rise by
/// whole steps, except for the half steps E to F and B to C.
pub proof fn law_natural_letters()
    ensures
        natural('C') matches Some(c) && semitone(c) == 0,
        natural('D') matches Some(d) && semitone(d) == 2,
        natural('E') matches Some(e) && semitone(e) == 4,
        natural('F') matches Some(f) && semitone(f) == 5,
        natural('G') matches Some(g) && semitone(g) == 7,
        natural('A') matches Some(a) && semitone(a) == 9,
        natural('B') matches Some(b) && semitone(b) == 11,
{
    assert(seq!['C'].len() == 1 && seq!['C'][0] == 'C');
    assert(seq!['D'].len() == 1 && seq!['D'][0] == 'D');
    assert(seq!['E'].len() == 1 && seq!['E'][0] == 'E');
    assert(seq!['F'].len() == 1 && seq!['F'][0] == 'F');
    assert(seq!['G'].len() == 1 && seq!['G'][0] == 'G');
    assert(seq!['A'].len() == 1 && seq!['A'][0] == 'A');
    assert(seq!['B'].len() == 1 && seq!['B'][0] == 'B');
}

/// Every letter has a flat spelling, and every letter but B a sharp one
/// (`E#` names F); with `law_accidentals` these name the pitch a semitone
/// below or above the letter.
pub proof fn law_accidentals_named(c: char)
    requires
        natural(c) is Some,
    ensures
        pitch_of_name(seq![c, 'B']) is Some,
        c != 'B' ==> pitch_of_name(seq![c, '#']) is Some,
{
    assert(seq![c].len() == 1 && seq![c][0] == c);
    assert(seq![c, 'B'].len() == 2 && seq![c, 'B'][0] == c && seq![c, 'B'][1] == 'B');
    assert(seq![c, '#'].len() == 2 && seq![c, '#'][0] == c && seq![c, '#'][1] == '#');
}

/// The MIDI note number of a pitch is twelve per octave above C-1 plus the
/// pitch's semitone, clamped at 127.
pub proof fn law_midi_note_number(p: Pitch, octave: int)
    ensures
        midi_note_spec(p, octave) == if (octave + 1) * 12 + semitone(p) > 127 {
            127
        } else {
            (octave + 1) * 12 + semitone(p)
        },
{
}

/// A parsed note carries the pitch its pitch text names, and the octave it
/// was given: the pitch part (the whole name when it has no octave) is
/// uppercased and looked up, and a name the table lacks is an invalid pitch.
pub proof fn law_note_carries_named_pitch(t: Seq<char>, octave: i8, s: Seq<char>, p: Pitch, o: i8)
    ensures
        with_octave(t, octave) == Ok::<(Pitch, i8), ParseErrorView>((p, o)) <==> (pitch_of_name(
            uppercase(t),
        ) == Some(p) && o == octave),
        with_octave(t, octave) is Err <==> pitch_of_name(uppercase(t)) is None,
        ascii_with_octave(t, octave) == Ok::<(Pitch, i8), ParseErrorView>((p, o)) <==> (
        pitch_of_name(ascii_uppercase(t)) == Some(p) && o == octave),
        note_name_spec(s) == Ok::<(Pitch, i8), ParseErrorView>((p, o)) ==> pitch_of_name(
            uppercase(
                match octave_start(s) {
                    Some(k) => byte_range_chars(s, 0, k),
                    None => s,
                },
            ),
        ) == Some(p),
        ascii_note_name_spec(s) == Ok::<(Pitch, i8), ParseErrorView>((p, o)) ==> pitch_of_name(
            ascii_uppercase(
                match ascii_octave_start(s) {
                    Some(k) => s.subrange(0, k),
                    None => s,
                },
            ),
        ) == Some(p),
{
}

} // verus!
