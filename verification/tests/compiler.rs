use midi_keys::compile::events_to_keypresses;
use midi_keys::score::{KeyPressEvent, TimedNote};

fn note(time_us: u64, pitch_key: char) -> TimedNote {
    TimedNote { time_us, pitch_key }
}

#[test]
fn compile_inserts_waits_for_positive_gaps_only() {
    let notes = vec![note(0, 'a'), note(500_000, 'd'), note(500_000, 'x'), note(700_000, 'z')];
    let instrs = events_to_keypresses(notes);
    assert_eq!(
        instrs,
        vec![
            KeyPressEvent::PressKey('a'),
            KeyPressEvent::WaitUs(500_000),
            KeyPressEvent::PressKey('d'),
            KeyPressEvent::PressKey('x'),
            KeyPressEvent::WaitUs(200_000),
            KeyPressEvent::PressKey('z'),
        ]
    );
}

#[test]
fn compile_never_emits_zero_waits() {
    let notes = vec![note(0, 'a'), note(0, 'b'), note(3, 'c'), note(3, 'd')];
    let instrs = events_to_keypresses(notes);
    for instr in &instrs {
        if let KeyPressEvent::WaitUs(w) = instr {
            assert!(*w > 0);
        }
    }
    assert_eq!(instrs.len(), 5);
}

#[test]
fn compile_round_trips_absolute_times() {
    // Summing the waits before each press reconstructs each note's timestamp.
    let times: [u64; 5] = [10, 10, 250, 1_000, 1_000];
    let notes: Vec<TimedNote> = times.iter().map(|t| note(*t, 'a')).collect();
    let instrs = events_to_keypresses(notes);
    let mut cumulative: u64 = 0;
    let mut press_index = 0;
    for instr in &instrs {
        match instr {
            KeyPressEvent::WaitUs(w) => cumulative += w,
            KeyPressEvent::PressKey(_) => {
                assert_eq!(cumulative, times[press_index]);
                press_index += 1;
            }
        }
    }
    assert_eq!(press_index, times.len());
}

#[test]
fn compile_of_nothing_is_nothing() {
    let instrs = events_to_keypresses(Vec::new());
    assert!(instrs.is_empty());
}

#[test]
fn leading_gap_waits_before_first_press() {
    let instrs = events_to_keypresses(vec![note(42, 'q')]);
    assert_eq!(instrs, vec![KeyPressEvent::WaitUs(42), KeyPressEvent::PressKey('q')]);
}
