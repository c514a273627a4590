use midi_keys::extract::{extract_events, get_beat_duration};
use midi_keys::score::{RawEvent, RawEventKind, Score, ScoreFormat};

fn note_on(delta: u32, key: u8, vel: u8) -> RawEvent {
    RawEvent { delta_ticks: delta, kind: RawEventKind::NoteOn { key, vel } }
}

fn note_off(delta: u32) -> RawEvent {
    RawEvent { delta_ticks: delta, kind: RawEventKind::NoteOff }
}

fn tempo(delta: u32, beat_duration_us: u32) -> RawEvent {
    RawEvent { delta_ticks: delta, kind: RawEventKind::Tempo { beat_duration_us } }
}

fn other(delta: u32) -> RawEvent {
    RawEvent { delta_ticks: delta, kind: RawEventKind::Other }
}

#[test]
fn tempo_change_rescales_subsequent_ticks() {
    // One beat at 500,000 us/beat, then half a beat at 1,000,000 us/beat:
    // the second note must land exactly at 1,000,000 us.
    let track = vec![
        note_on(480, 60, 100),
        tempo(0, 1_000_000),
        note_on(240, 64, 100),
    ];
    let notes = extract_events(&track, 480, 500_000);
    assert_eq!(notes.len(), 2);
    assert_eq!(notes[0].time_us, 500_000);
    assert_eq!(notes[0].pitch_key, 'a');
    assert_eq!(notes[1].time_us, 1_000_000);
    assert_eq!(notes[1].pitch_key, 'd');
}

#[test]
fn times_never_decrease() {
    let track = vec![
        other(5),
        note_on(0, 60, 100),
        note_off(100),
        note_on(20, 64, 100),
        tempo(7, 250_000),
        note_on(480, 67, 100),
        note_on(0, 72, 100),
    ];
    let notes = extract_events(&track, 480, 500_000);
    for pair in notes.windows(2) {
        assert!(pair[0].time_us <= pair[1].time_us);
    }
}

#[test]
fn only_note_deltas_advance_the_clock() {
    // The delta on a meta event is dropped; the next note only counts its own.
    let track = vec![other(1000), note_on(480, 60, 100)];
    let notes = extract_events(&track, 480, 500_000);
    assert_eq!(notes[0].time_us, 500_000);
}

#[test]
fn zero_velocity_note_on_emits_nothing() {
    let track = vec![note_on(0, 60, 0), note_on(10, 62, 100), note_off(5)];
    let notes = extract_events(&track, 480, 500_000);
    assert_eq!(notes.len(), 1);
    assert_eq!(notes[0].pitch_key, 's');
}

#[test]
fn beat_duration_defaults_without_tempo_event() {
    let score = Score {
        format: ScoreFormat::SingleTrack,
        ticks_per_beat: 480,
        tracks: vec![vec![note_on(0, 60, 100)]],
    };
    assert_eq!(get_beat_duration(&score), 500_000);
}

#[test]
fn beat_duration_takes_first_tempo_in_track_order() {
    let score = Score {
        format: ScoreFormat::Parallel,
        ticks_per_beat: 480,
        tracks: vec![
            vec![note_on(0, 60, 100)],
            vec![other(0), tempo(0, 750_000), tempo(0, 250_000)],
            vec![tempo(0, 125_000)],
        ],
    };
    assert_eq!(get_beat_duration(&score), 750_000);
}
