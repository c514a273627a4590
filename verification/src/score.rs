//! The data model of a parsed score: raw per-track events with delta times,
//! the file's track-organization format, absolute-time notes, and the
//! playback instructions compiled from them.

use vstd::prelude::*;

verus! {

/// One raw track event, reduced to what playback needs: how many ticks after
/// the previous event it fires, and its kind.
#[derive(Clone, Copy, PartialEq, Eq, Debug)]
pub struct RawEvent {
    pub delta_ticks: u32,
    pub kind: RawEventKind,
}

/// The kinds of track events that affect playback; everything else is
/// `Other`, which keeps its delta but changes no state.
#[derive(Clone, Copy, PartialEq, Eq, Debug)]
pub enum RawEventKind {
    NoteOn { key: u8, vel: u8 },
    NoteOff,
    Tempo { beat_duration_us: u32 },
    Other,
}

/// How the file's tracks are organized for playback.
#[derive(Clone, Copy, PartialEq, Eq, Debug)]
pub enum ScoreFormat {
    SingleTrack,
    Parallel,
    Sequential,
}

/// A parsed score: format, tick granularity, and the raw events of each track.
pub struct Score {
    pub format: ScoreFormat,
    pub ticks_per_beat: u32,
    pub tracks: Vec<Vec<RawEvent>>,
}

impl Score {
    /// A tick must subdivide a beat: zero ticks per beat is meaningless.
    pub open spec fn wf(&self) -> bool {
        self.ticks_per_beat > 0
    }
}

/// One note to play: absolute time in microseconds and the key it presses.
#[derive(Clone, Copy, PartialEq, Eq, Debug)]
pub struct TimedNote {
    pub time_us: u64,
    pub pitch_key: char,
}

/// One playback instruction: press a key now, or wait this many microseconds.
#[derive(Clone, Copy, PartialEq, Eq, Debug)]
pub enum KeyPressEvent {
    PressKey(char),
    WaitUs(u64),
}

/// Why a file could not be turned into a score.
#[derive(Clone, Copy, PartialEq, Eq, Debug)]
pub enum MidiError {
    /// The bytes are not a well-formed MIDI file (or declare zero ticks per beat).
    MalformedFile,
    /// The file uses timecode-based timing, which playback does not support.
    UnsupportedTiming,
}

/// The per-track event sequences of a score.
pub open spec fn tracks_view(tracks: Seq<Vec<RawEvent>>) -> Seq<Seq<RawEvent>> {
    tracks.map_values(|t: Vec<RawEvent>| t@)
}

/// The per-track note sequences of assembled groups.
pub open spec fn note_track_views(tracks: Seq<Vec<TimedNote>>) -> Seq<Seq<TimedNote>> {
    tracks.map_values(|t: Vec<TimedNote>| t@)
}

/// Note times never decrease along the sequence.
pub open spec fn time_sorted(s: Seq<TimedNote>) -> bool {
    forall|i: int, j: int| 0 <= i <= j < s.len() ==> s[i].time_us <= s[j].time_us
}

} // verus!
