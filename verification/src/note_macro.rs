//! The compile-time side of the `note!` macro: parsing a note literal into a
//! pitch and octave, with error messages meant for a compiler diagnostic, and
//! the MIDI number that the macro turns into a frequency.

use vstd::prelude::*;
use crate::pitch::{
    ascii_note_name_spec, midi_in_range, midi_note_spec, note_name_spec, pitch_from_name,
    pitch_of_name, ParseErrorView, Pitch,
};
use crate::text::{
    all_ascii, ascii_octave_start, ascii_uppercase, byte_range_chars, encode_utf8_len,
    find_octave_start, i8_to_decimal, lemma_ascii_split, int_decimal, is_boundary,
    octave_start, parse_i8, parse_i8_spec, split_at_byte, to_uppercase, uppercase,
};

verus! {

/// A result whose error message is taken by its characters.
pub open spec fn message_result<T>(r: Result<T, String>) -> Result<T, Seq<char>> {
    match r {
        Ok(v) => Ok(v),
        Err(e) => Err(e@),
    }
}

/// The macro's parse of an uppercased pitch name: it must name a pitch.
pub open spec fn macro_pitch_of_upper(u: Seq<char>) -> Result<Pitch, Seq<char>> {
    match pitch_of_name(u) {
        Some(p) => Ok(p),
        None => Err("invalid pitch '"@ + u + "'"@),
    }
}

/// The macro's parse of a pitch name: the uppercased text must name a pitch.
pub open spec fn macro_pitch_spec(s: Seq<char>) -> Result<Pitch, Seq<char>> {
    macro_pitch_of_upper(uppercase(s))
}

/// The macro's parse of a note literal whose octave begins at character
/// index `start`.
pub open spec fn macro_note_at_spec(s: Seq<char>, start: Option<int>) -> Result<(Pitch, i8), Seq<char>> {
    if s.len() == 0 {
        Err("empty string"@)
    } else {
        match start {
            Some(p) => if p == 0 {
                Err("string starts with number"@)
            } else {
                let pitch_text = byte_range_chars(s, 0, p);
                let octave_text = byte_range_chars(s, p, encode_utf8_len(s));
                match parse_i8_spec(octave_text) {
                    Some(o) => if -1 <= o <= 9 {
                        macro_with_octave(pitch_text, o)
                    } else {
                        Err("octave "@ + int_decimal(o as int) + " out of range (-1 to 9)"@)
                    },
                    None => Err("invalid octave '"@ + octave_text + "'"@),
                }
            },
            None => macro_with_octave(s, 4),
        }
    }
}

/// The macro's parse of a pitch name with a known octave.
pub open spec fn macro_with_octave(pitch_text: Seq<char>, octave: i8) -> Result<(Pitch, i8), Seq<char>> {
    match macro_pitch_spec(pitch_text) {
        Ok(p) => Ok((p, octave)),
        Err(e) => Err(e),
    }
}

/// The macro's parse of a note literal.
pub open spec fn macro_note_spec(s: Seq<char>) -> Result<(Pitch, i8), Seq<char>> {
    macro_note_at_spec(s, octave_start(s))
}

/// The macro's parse of an ASCII pitch name with a known octave: the name is
/// uppercased letter by letter.
pub open spec fn ascii_macro_with_octave(pitch_text: Seq<char>, octave: i8) -> Result<(Pitch, i8), Seq<char>> {
    match macro_pitch_of_upper(ascii_uppercase(pitch_text)) {
        Ok(p) => Ok((p, octave)),
        Err(e) => Err(e),
    }
}

/// The macro's parse of an ASCII note literal whose octave begins at
/// character index `start`: as `macro_note_at_spec`, with each byte one
/// character.
pub open spec fn ascii_macro_note_at_spec(s: Seq<char>, start: Option<int>) -> Result<(Pitch, i8), Seq<char>> {
    if s.len() == 0 {
        Err("empty string"@)
    } else {
        match start {
            Some(p) => if p == 0 {
                Err("string starts with number"@)
            } else {
                let pitch_text = s.subrange(0, p);
                let octave_text = s.subrange(p, s.len() as int);
                match parse_i8_spec(octave_text) {
                    Some(o) => if -1 <= o <= 9 {
                        ascii_macro_with_octave(pitch_text, o)
                    } else {
                        Err("octave "@ + int_decimal(o as int) + " out of range (-1 to 9)"@)
                    },
                    None => Err("invalid octave '"@ + octave_text + "'"@),
                }
            },
            None => ascii_macro_with_octave(s, 4),
        }
    }
}

/// The macro's parse of an ASCII note literal: its octave begins at the
/// first digit or minus sign.
pub open spec fn ascii_macro_note_spec(s: Seq<char>) -> Result<(Pitch, i8), Seq<char>> {
    ascii_macro_note_at_spec(s, ascii_octave_start(s))
}

/// Whether the octave of a note literal starts at a character boundary.
pub open spec fn macro_note_splittable(s: Seq<char>) -> bool {
    match octave_start(s) {
        Some(p) => is_boundary(s, p),
        None => true,
    }
}

fn wrap(prefix: &str, body: &str, suffix: &str) -> (r: String)
    ensures
        r@ == prefix@ + body@ + suffix@,
{
    let mut out = prefix.to_owned();
    out.append(body);
    out.append(suffix);
    out
}

/// Parses a pitch name for the macro (case-insensitive, `#` or `b`).
pub fn parse_pitch(s: &str) -> (r: Result<Pitch, String>)
    ensures
        message_result(r) == macro_pitch_spec(s@),
        all_ascii(s@) ==> message_result(r) == macro_pitch_of_upper(ascii_uppercase(s@)),
{
    let u = to_uppercase(s);
    match pitch_from_name(u.as_str()) {
        Some(p) => Ok(p),
        None => Err(wrap("invalid pitch '", u.as_str(), "'")),
    }
}

/// Parses a note literal whose octave begins at character index `start`,
/// splitting the text there as a byte index.
pub fn parse_note_at(s: &str, start: Option<usize>) -> (r: Result<(Pitch, i8), String>)
    requires
        start matches Some(p) ==> is_boundary(s@, p as int),
    ensures
        message_result(r) == macro_note_at_spec(
            s@,
            match start {
                Some(p) => Some(p as int),
                None => None,
            },
        ),
        all_ascii(s@) ==> message_result(r) == ascii_macro_note_at_spec(
            s@,
            match start {
                Some(p) => Some(p as int),
                None => None,
            },
        ),
{
    if s.is_empty() {
        return Err("empty string".to_owned());
    }
    let (pitch_text, octave) = match start {
        Some(pos) => {
            if pos == 0 {
                return Err("string starts with number".to_owned());
            }
            let (pitch_text, octave_text) = split_at_byte(s, pos);
            proof {
                if all_ascii(s@) {
                    lemma_ascii_split(s@, pos as int);
                }
            }
            match parse_i8(octave_text) {
                Some(o) => {
                    if !(-1 <= o && o <= 9) {
                        let digits = i8_to_decimal(o);
                        return Err(wrap("octave ", digits.as_str(), " out of range (-1 to 9)"));
                    }
                    (pitch_text, o)
                },
                None => {
                    return Err(wrap("invalid octave '", octave_text, "'"));
                },
            }
        },
        None => (s, 4i8),
    };
    proof {
        if all_ascii(s@) {
            assert(all_ascii(pitch_text@));
        }
    }
    match parse_pitch(pitch_text) {
        Ok(p) => Ok((p, octave)),
        Err(e) => Err(e),
    }
}

/// Parses a note literal: a pitch and an optional octave from -1 to 9, which
/// defaults to 4.
pub fn parse_note(s: &str) -> (r: Result<(Pitch, i8), String>)
    requires
        macro_note_splittable(s@),
    ensures
        message_result(r) == macro_note_spec(s@),
        all_ascii(s@) ==> message_result(r) == ascii_macro_note_spec(s@),
{
    let start = find_octave_start(s);
    parse_note_at(s, start)
}

/// Parses a note literal as `parse_note` does, and returns `None` for a
/// literal that cannot be split where its octave begins.
pub fn checked_parse_note(s: &str) -> (r: Option<Result<(Pitch, i8), String>>)
    ensures
        r is Some <==> macro_note_splittable(s@),
        r matches Some(x) ==> message_result(x) == macro_note_spec(s@),
        all_ascii(s@) ==> (r matches Some(x) && message_result(x) == ascii_macro_note_spec(s@)),
{
    let start = find_octave_start(s);
    proof {
        if all_ascii(s@) {
            if let Some(pos) = start {
                lemma_ascii_split(s@, pos as int);
            }
        }
    }
    match start {
        Some(pos) => {
            if !s.is_char_boundary(pos) {
                return None;
            }
        },
        None => {},
    }
    Some(parse_note_at(s, start))
}

/// The MIDI note number of a pitch in an octave, clamped to 127.
pub fn pitch_to_midi(pitch: Pitch, octave: i8) -> (r: u8)
    requires
        midi_in_range(pitch, octave as int),
    ensures
        r as int == midi_note_spec(pitch, octave as int),
{
    pitch.to_midi_note(octave)
}

/// The macro names pitches by the same table as the note parser: an
/// uppercased pitch text is accepted exactly when it names a pitch, and then
/// gives that pitch (so a flat is the pitch a semitone below its letter).
pub proof fn law_macro_pitch_is_the_table(u: Seq<char>, p: Pitch)
    ensures
        macro_pitch_of_upper(u) == Ok::<Pitch, Seq<char>>(p) <==> pitch_of_name(u) == Some(p),
        macro_pitch_of_upper(u) is Err <==> pitch_of_name(u) is None,
{
}

/// The macro accepts exactly the note names that the note parser accepts,
/// with the same pitch and octave; only the error messages differ.
pub proof fn law_macro_agrees_with_note_parser(s: Seq<char>, p: Pitch, o: i8)
    ensures
        macro_note_spec(s) == Ok::<(Pitch, i8), Seq<char>>((p, o)) <==> note_name_spec(s) == Ok::<
            (Pitch, i8),
            ParseErrorView,
        >((p, o)),
        ascii_macro_note_spec(s) == Ok::<(Pitch, i8), Seq<char>>((p, o)) <==> ascii_note_name_spec(
            s,
        ) == Ok::<(Pitch, i8), ParseErrorView>((p, o)),
{
}

} // verus!
