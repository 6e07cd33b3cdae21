//! Comparing a detected key with an expected one, on the Camelot wheel.
use vstd::prelude::*;
use vstd::string::StringExecFns;

use crate::analysis::types::{MusicalKey, MusicalMode};
use crate::text::{decimal, push_decimal};

verus! {

/// The Camelot wheel position (1..=12) of a major key by pitch class.
pub open spec fn camelot_major(pitch_class: int) -> int {
    if pitch_class == 0 { 8 }
    else if pitch_class == 1 { 3 }
    else if pitch_class == 2 { 10 }
    else if pitch_class == 3 { 5 }
    else if pitch_class == 4 { 12 }
    else if pitch_class == 5 { 7 }
    else if pitch_class == 6 { 2 }
    else if pitch_class == 7 { 9 }
    else if pitch_class == 8 { 4 }
    else if pitch_class == 9 { 11 }
    else if pitch_class == 10 { 6 }
    else { 1 }
}

/// The Camelot wheel position (1..=12) of a minor key by pitch class.
pub open spec fn camelot_minor(pitch_class: int) -> int {
    if pitch_class == 0 { 5 }
    else if pitch_class == 1 { 12 }
    else if pitch_class == 2 { 7 }
    else if pitch_class == 3 { 2 }
    else if pitch_class == 4 { 9 }
    else if pitch_class == 5 { 4 }
    else if pitch_class == 6 { 11 }
    else if pitch_class == 7 { 6 }
    else if pitch_class == 8 { 1 }
    else if pitch_class == 9 { 8 }
    else if pitch_class == 10 { 3 }
    else { 10 }
}

pub open spec fn camelot_of(key: MusicalKey) -> int {
    match key.mode {
        MusicalMode::Major => camelot_major(key.pitch_class as int),
        MusicalMode::Minor => camelot_minor(key.pitch_class as int),
    }
}

/// Steps between two wheel positions, the shorter way round.
pub open spec fn wheel_distance(a: int, b: int) -> int {
    let d = if a >= b { a - b } else { b - a };
    if d <= 12 - d { d } else { 12 - d }
}

/// A major key and the minor key three semitones below it share their notes.
pub open spec fn relative_keys(left: MusicalKey, right: MusicalKey) -> bool {
    match (left.mode, right.mode) {
        (MusicalMode::Major, MusicalMode::Minor) => right.pitch_class == (left.pitch_class + 9) % 12,
        (MusicalMode::Minor, MusicalMode::Major) => right.pitch_class == (left.pitch_class + 3) % 12,
        _ => false,
    }
}

pub fn camelot_number(key: MusicalKey) -> (number: u8)
    requires
        key.pitch_class < 12,
    ensures
        number == camelot_of(key),
        1 <= number <= 12,
{
    let p = key.pitch_class;
    match key.mode {
        MusicalMode::Major => {
            if p == 0 { 8 } else if p == 1 { 3 } else if p == 2 { 10 } else if p == 3 { 5 }
            else if p == 4 { 12 } else if p == 5 { 7 } else if p == 6 { 2 } else if p == 7 { 9 }
            else if p == 8 { 4 } else if p == 9 { 11 } else if p == 10 { 6 } else { 1 }
        },
        MusicalMode::Minor => {
            if p == 0 { 5 } else if p == 1 { 12 } else if p == 2 { 7 } else if p == 3 { 2 }
            else if p == 4 { 9 } else if p == 5 { 4 } else if p == 6 { 11 } else if p == 7 { 6 }
            else if p == 8 { 1 } else if p == 9 { 8 } else if p == 10 { 3 } else { 10 }
        },
    }
}

pub fn camelot_distance(left: MusicalKey, right: MusicalKey) -> (distance: u8)
    requires
        left.pitch_class < 12,
        right.pitch_class < 12,
    ensures
        distance == wheel_distance(camelot_of(left), camelot_of(right)),
{
    let l = camelot_number(left);
    let r = camelot_number(right);
    let d = if l >= r { l - r } else { r - l };
    if d <= 12 - d { d } else { 12 - d }
}

pub fn is_relative(left: MusicalKey, right: MusicalKey) -> (relative: bool)
    requires
        left.pitch_class < 12,
        right.pitch_class < 12,
    ensures
        relative == relative_keys(left, right),
{
    match (left.mode, right.mode) {
        (MusicalMode::Major, MusicalMode::Minor) => right.pitch_class == (left.pitch_class + 9) % 12,
        (MusicalMode::Minor, MusicalMode::Major) => right.pitch_class == (left.pitch_class + 3) % 12,
        _ => false,
    }
}

/// How close a detected key is to the expected one.
pub open spec fn classification(expected: MusicalKey, measured: Option<MusicalKey>) -> Seq<char> {
    match measured {
        None => "incorrect"@,
        Some(m) => if m == expected {
            "exact"@
        } else if m.pitch_class == expected.pitch_class || relative_keys(expected, m) {
            "relative-or-parallel"@
        } else if wheel_distance(camelot_of(expected), camelot_of(m)) == 1 {
            "neighboring-camelot"@
        } else {
            "incorrect"@
        },
    }
}

pub fn classify(expected: MusicalKey, measured: Option<MusicalKey>) -> (class: &'static str)
    requires
        expected.pitch_class < 12,
        measured matches Some(m) ==> m.pitch_class < 12,
    ensures
        class@ == classification(expected, measured),
{
    match measured {
        None => "incorrect",
        Some(m) => {
            if m == expected {
                "exact"
            } else if m.pitch_class == expected.pitch_class || is_relative(expected, m) {
                "relative-or-parallel"
            } else if camelot_distance(expected, m) == 1 {
                "neighboring-camelot"
            } else {
                "incorrect"
            }
        },
    }
}

/// The wheel distance does not depend on which key comes first, and is at
/// most half the wheel.
pub proof fn lemma_camelot_distance_symmetric(left: MusicalKey, right: MusicalKey)
    ensures
        wheel_distance(camelot_of(left), camelot_of(right)) == wheel_distance(
            camelot_of(right),
            camelot_of(left),
        ),
        left.pitch_class < 12 && right.pitch_class < 12 ==> 0 <= wheel_distance(
            camelot_of(left),
            camelot_of(right),
        ) <= 6,
{
}

/// The wheel follows the circle of fifths: C major stands at 8 and A minor
/// at 8; a key a fifth above another of the same mode stands one step further
/// round (12 is followed by 1); and a major key shares its number with its
/// relative minor, three semitones below.
pub proof fn lemma_camelot_circle_of_fifths(key: MusicalKey)
    requires
        key.pitch_class < 12,
    ensures
        camelot_of(MusicalKey { pitch_class: 0, mode: MusicalMode::Major }) == 8,
        camelot_of(MusicalKey { pitch_class: 9, mode: MusicalMode::Minor }) == 8,
        camelot_of(MusicalKey { pitch_class: ((key.pitch_class + 7) % 12) as u8, mode: key.mode })
            == camelot_of(key) % 12 + 1,
        key.mode == MusicalMode::Major ==> camelot_of(
            MusicalKey { pitch_class: ((key.pitch_class + 9) % 12) as u8, mode: MusicalMode::Minor },
        ) == camelot_of(key),
{
}

/// Being relative keys does not depend on which key comes first.
pub proof fn lemma_relative_symmetric(left: MusicalKey, right: MusicalKey)
    requires
        left.pitch_class < 12,
        right.pitch_class < 12,
    ensures
        relative_keys(left, right) == relative_keys(right, left),
{
}

/// The label under which a key is stored: pitch class, a colon, the mode.
pub open spec fn key_label_text(key: MusicalKey) -> Seq<char> {
    decimal(key.pitch_class as nat) + ":"@ + match key.mode {
        MusicalMode::Major => "major"@,
        MusicalMode::Minor => "minor"@,
    }
}

pub fn label(key: MusicalKey) -> (text: String)
    ensures
        text@ == key_label_text(key),
{
    let mut text = String::new();
    push_decimal(&mut text, key.pitch_class as u64);
    text.append(":");
    match key.mode {
        MusicalMode::Major => text.append("major"),
        MusicalMode::Minor => text.append("minor"),
    }
    text
}

} // verus!
