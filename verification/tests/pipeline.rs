use midi_keys::midi::{events_from_bytes, parse_score, score_to_keypresses};
use midi_keys::score::{KeyPressEvent, MidiError, RawEvent, RawEventKind, Score, ScoreFormat};

/// A Standard MIDI File from header fields and raw track chunks.
fn smf(format: u16, division: [u8; 2], tracks: &[Vec<u8>]) -> Vec<u8> {
    let mut bytes = vec![0x4D, 0x54, 0x68, 0x64, 0, 0, 0, 6];
    bytes.extend_from_slice(&format.to_be_bytes());
    bytes.extend_from_slice(&(tracks.len() as u16).to_be_bytes());
    bytes.extend_from_slice(&division);
    for track in tracks {
        bytes.extend_from_slice(&[0x4D, 0x54, 0x72, 0x6B]);
        bytes.extend_from_slice(&(track.len() as u32).to_be_bytes());
        bytes.extend_from_slice(track);
    }
    bytes
}

const END_OF_TRACK: [u8; 4] = [0x00, 0xFF, 0x2F, 0x00];

#[test]
fn two_note_file_compiles_to_press_wait_press() {
    // Note-on 60 at tick 0, note-on 64 at tick 480, 480 ticks per beat,
    // default tempo: press 'a', wait half a second, press 'd'.
    let mut track = vec![0x00, 0x90, 0x3C, 0x64];
    track.extend_from_slice(&[0x83, 0x60, 0x90, 0x40, 0x64]);
    track.extend_from_slice(&END_OF_TRACK);
    let bytes = smf(0, [0x01, 0xE0], &[track]);
    let instrs = events_from_bytes(&bytes).unwrap();
    assert_eq!(
        instrs,
        vec![
            KeyPressEvent::PressKey('a'),
            KeyPressEvent::WaitUs(500_000),
            KeyPressEvent::PressKey('d'),
        ]
    );
}

#[test]
fn tempo_meta_event_is_honoured_from_bytes() {
    // Set tempo to 1,000,000 us per beat, then a note one beat in.
    let mut track = vec![0x00, 0xFF, 0x51, 0x03, 0x0F, 0x42, 0x40];
    track.extend_from_slice(&[0x83, 0x60, 0x90, 0x3C, 0x64]);
    track.extend_from_slice(&END_OF_TRACK);
    let bytes = smf(0, [0x01, 0xE0], &[track]);
    let instrs = events_from_bytes(&bytes).unwrap();
    assert_eq!(
        instrs,
        vec![KeyPressEvent::WaitUs(1_000_000), KeyPressEvent::PressKey('a')]
    );
}

#[test]
fn malformed_bytes_are_a_parse_error() {
    let result = events_from_bytes(b"not a midi file at all");
    assert_eq!(result, Err(MidiError::MalformedFile));
}

#[test]
fn timecode_timing_fails_fast() {
    // Division with the high bit set declares SMPTE timecode (25 fps here).
    let bytes = smf(0, [0xE7, 0x28], &[END_OF_TRACK.to_vec()]);
    let result = events_from_bytes(&bytes);
    assert_eq!(result, Err(MidiError::UnsupportedTiming));
}

#[test]
fn parse_score_reads_format_and_events() {
    let mut track = vec![0x00, 0x90, 0x3C, 0x64];
    track.extend_from_slice(&END_OF_TRACK);
    let bytes = smf(0, [0x01, 0xE0], &[track]);
    let score = parse_score(&bytes).unwrap();
    assert_eq!(score.format, ScoreFormat::SingleTrack);
    assert_eq!(score.ticks_per_beat, 480);
    assert_eq!(score.tracks.len(), 1);
    assert!(score.tracks[0].contains(&RawEvent {
        delta_ticks: 0,
        kind: RawEventKind::NoteOn { key: 60, vel: 100 },
    }));
}

#[test]
fn sequential_score_concatenates_per_track_streams() {
    let score = Score {
        format: ScoreFormat::Sequential,
        ticks_per_beat: 480,
        tracks: vec![
            vec![RawEvent { delta_ticks: 480, kind: RawEventKind::NoteOn { key: 60, vel: 99 } }],
            vec![RawEvent { delta_ticks: 0, kind: RawEventKind::NoteOn { key: 64, vel: 99 } }],
        ],
    };
    let instrs = score_to_keypresses(&score);
    assert_eq!(
        instrs,
        vec![
            KeyPressEvent::WaitUs(500_000),
            KeyPressEvent::PressKey('a'),
            KeyPressEvent::PressKey('d'),
        ]
    );
}

#[test]
fn merged_score_interleaves_tracks_by_time() {
    let score = Score {
        format: ScoreFormat::Parallel,
        ticks_per_beat: 480,
        tracks: vec![
            vec![RawEvent { delta_ticks: 480, kind: RawEventKind::NoteOn { key: 60, vel: 99 } }],
            vec![RawEvent { delta_ticks: 240, kind: RawEventKind::NoteOn { key: 64, vel: 99 } }],
        ],
    };
    let instrs = score_to_keypresses(&score);
    assert_eq!(
        instrs,
        vec![
            KeyPressEvent::WaitUs(250_000),
            KeyPressEvent::PressKey('d'),
            KeyPressEvent::WaitUs(250_000),
            KeyPressEvent::PressKey('a'),
        ]
    );
}

#[test]
fn sequential_format_file_plays_tracks_in_order() {
    let mut first = vec![0x83, 0x60, 0x90, 0x3C, 0x64];
    first.extend_from_slice(&END_OF_TRACK);
    let mut second = vec![0x00, 0x90, 0x40, 0x64];
    second.extend_from_slice(&END_OF_TRACK);
    let bytes = smf(2, [0x01, 0xE0], &[first, second]);
    let score = parse_score(&bytes).unwrap();
    assert_eq!(score.format, ScoreFormat::Sequential);
    let instrs = events_from_bytes(&bytes).unwrap();
    assert_eq!(
        instrs,
        vec![
            KeyPressEvent::WaitUs(500_000),
            KeyPressEvent::PressKey('a'),
            KeyPressEvent::PressKey('d'),
        ]
    );
}
