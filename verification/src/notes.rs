//! Maps a MIDI pitch number to one of the 21 playable keys: the pitch is
//! first transposed by whole octaves into the playable window, then looked
//! up in the fixed pitch-to-character table; a chromatic pitch that has no
//! entry of its own is quantized to the diatonic key one semitone above.

use vstd::prelude::*;

verus! {

/// Lowest pitch of the playable window.
pub const MIN_NOTE: u8 = 48;

/// Highest pitch of the playable window.
pub const MAX_NOTE: u8 = 83;

/// Semitones in one octave.
pub const TRANSPOSE_OCTAVE: u8 = 12;

/// Raises a pitch by octaves until it is at least `MIN_NOTE`.
pub open spec fn raise_into_range(n: int) -> int
    decreases (59 - n) / 12,
{
    if n < 48 {
        raise_into_range(n + 12)
    } else {
        n
    }
}

/// Lowers a pitch by octaves until it is at most `MAX_NOTE`.
pub open spec fn lower_into_range(n: int) -> int
    decreases n,
{
    if n > 83 {
        lower_into_range(n - 12)
    } else {
        n
    }
}

/// The pitch folded into the playable window `[MIN_NOTE, MAX_NOTE]`.
pub open spec fn transpose_spec(n: int) -> int {
    lower_into_range(raise_into_range(n))
}

/// The fixed table from diatonic pitches of the playable window to the 21
/// output characters; chromatic pitches have no entry.
pub open spec fn char_for_note(n: int) -> Option<char> {
    if n == 48 { Some('z') }
    else if n == 50 { Some('x') }
    else if n == 52 { Some('c') }
    else if n == 53 { Some('v') }
    else if n == 55 { Some('b') }
    else if n == 57 { Some('n') }
    else if n == 59 { Some('m') }
    else if n == 60 { Some('a') }
    else if n == 62 { Some('s') }
    else if n == 64 { Some('d') }
    else if n == 65 { Some('f') }
    else if n == 67 { Some('g') }
    else if n == 69 { Some('h') }
    else if n == 71 { Some('j') }
    else if n == 72 { Some('q') }
    else if n == 74 { Some('w') }
    else if n == 76 { Some('e') }
    else if n == 77 { Some('r') }
    else if n == 79 { Some('t') }
    else if n == 81 { Some('y') }
    else if n == 83 { Some('u') }
    else { None }
}

/// Whether a character belongs to the fixed 21-character output set.
pub open spec fn is_playable_key(c: char) -> bool {
    c == 'z' || c == 'x' || c == 'c' || c == 'v' || c == 'b' || c == 'n' || c == 'm'
        || c == 'a' || c == 's' || c == 'd' || c == 'f' || c == 'g' || c == 'h' || c == 'j'
        || c == 'q' || c == 'w' || c == 'e' || c == 'r' || c == 't' || c == 'y' || c == 'u'
}

/// The character a pitch plays as: the table entry of the transposed pitch,
/// or the entry one semitone above when the pitch fell on a chromatic gap.
pub open spec fn map_note_spec(n: int) -> char {
    let t = transpose_spec(n);
    match char_for_note(t) {
        Some(c) => c,
        None => match char_for_note(t + 1) {
            Some(c) => c,
            None => ' ',
        },
    }
}

pub proof fn lemma_raise_bounds(n: int)
    requires
        n >= 0,
    ensures
        raise_into_range(n) >= 48,
        n >= 48 ==> raise_into_range(n) == n,
        n < 48 ==> raise_into_range(n) <= 59,
    decreases (59 - n) / 12,
{
    if n < 48 {
        lemma_raise_bounds(n + 12);
    }
}

pub proof fn lemma_lower_bounds(n: int)
    requires
        n >= 48,
    ensures
        48 <= lower_into_range(n) <= 83,
        n <= 83 ==> lower_into_range(n) == n,
    decreases n,
{
    if n > 83 {
        lemma_lower_bounds(n - 12);
    }
}

/// Transposition always lands in the playable window.
pub proof fn lemma_transpose_bounds(n: int)
    requires
        n >= 0,
    ensures
        48 <= transpose_spec(n) <= 83,
{
    lemma_raise_bounds(n);
    lemma_lower_bounds(raise_into_range(n));
}

/// Every pitch maps to a member of the fixed 21-character output set.
pub proof fn lemma_map_always_playable(n: u8)
    ensures
        is_playable_key(map_note_spec(n as int)),
{
    lemma_transpose_bounds(n as int);
}

/// Folds a pitch into the playable window by whole-octave steps.
pub fn transpose_note(note: u8) -> (r: u8)
    ensures
        r as int == transpose_spec(note as int),
        MIN_NOTE <= r <= MAX_NOTE,
{
    let mut n = note;
    while n < MIN_NOTE
        invariant
            raise_into_range(n as int) == raise_into_range(note as int),
        decreases (59 - n as int) / 12,
    {
        n = n + TRANSPOSE_OCTAVE;
    }
    proof {
        lemma_raise_bounds(note as int);
    }
    while n > MAX_NOTE
        invariant
            n >= MIN_NOTE,
            lower_into_range(n as int) == transpose_spec(note as int),
        decreases n,
    {
        n = n - TRANSPOSE_OCTAVE;
    }
    n
}

/// Looks a transposed pitch up in the fixed table; `None` on a chromatic gap.
pub fn try_map_note_to_char(note: u8) -> (r: Option<char>)
    ensures
        r == char_for_note(note as int),
{
    match note {
        48 => Some('z'),
        50 => Some('x'),
        52 => Some('c'),
        53 => Some('v'),
        55 => Some('b'),
        57 => Some('n'),
        59 => Some('m'),
        60 => Some('a'),
        62 => Some('s'),
        64 => Some('d'),
        65 => Some('f'),
        67 => Some('g'),
        69 => Some('h'),
        71 => Some('j'),
        72 => Some('q'),
        74 => Some('w'),
        76 => Some('e'),
        77 => Some('r'),
        79 => Some('t'),
        81 => Some('y'),
        83 => Some('u'),
        _ => None,
    }
}

/// Maps any pitch to its playable key; a pitch on a chromatic gap plays the
/// diatonic key one semitone above.
pub fn map_note_to_char(note: u8) -> (r: char)
    ensures
        r == map_note_spec(note as int),
        is_playable_key(r),
{
    let transposed = transpose_note(note);
    match try_map_note_to_char(transposed) {
        Some(c) => c,
        None => {
            let next = try_map_note_to_char(transposed + 1);
            next.unwrap()
        },
    }
}

} // verus!
