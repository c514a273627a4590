use midi_keys::notes::{map_note_to_char, transpose_note, try_map_note_to_char};

const PLAYABLE: [char; 21] = [
    'z', 'x', 'c', 'v', 'b', 'n', 'm', 'a', 's', 'd', 'f', 'g', 'h', 'j', 'q', 'w', 'e', 'r',
    't', 'y', 'u',
];

#[test]
fn map_every_pitch_is_playable() {
    for pitch in 0u8..=127u8 {
        let c = map_note_to_char(pitch);
        assert!(PLAYABLE.contains(&c), "pitch {} mapped to {:?}", pitch, c);
    }
}

#[test]
fn map_every_byte_is_playable() {
    for pitch in 0u8..=255u8 {
        let c = map_note_to_char(pitch);
        assert!(PLAYABLE.contains(&c));
    }
}

#[test]
fn octave_below_transposes_up() {
    assert_eq!(transpose_note(36), 48);
    assert_eq!(map_note_to_char(36), map_note_to_char(48));
    assert_eq!(map_note_to_char(36), 'z');
}

#[test]
fn octave_above_transposes_down() {
    assert_eq!(transpose_note(95), 83);
    assert_eq!(map_note_to_char(95), map_note_to_char(83));
    assert_eq!(map_note_to_char(95), 'u');
}

#[test]
fn in_range_pitch_is_untouched() {
    assert_eq!(transpose_note(60), 60);
    assert_eq!(map_note_to_char(60), 'a');
    assert_eq!(map_note_to_char(64), 'd');
    assert_eq!(map_note_to_char(83), 'u');
}

#[test]
fn chromatic_pitch_falls_up_one_semitone() {
    assert_eq!(try_map_note_to_char(49), None);
    assert_eq!(map_note_to_char(49), 'x');
    assert_eq!(try_map_note_to_char(61), None);
    assert_eq!(map_note_to_char(61), 's');
}

#[test]
fn table_has_exactly_the_diatonic_entries() {
    let diatonic = [
        48u8, 50, 52, 53, 55, 57, 59, 60, 62, 64, 65, 67, 69, 71, 72, 74, 76, 77, 79, 81, 83,
    ];
    let mut found = 0;
    for pitch in 48u8..=83u8 {
        let entry = try_map_note_to_char(pitch);
        if diatonic.contains(&pitch) {
            assert!(entry.is_some());
            found += 1;
        } else {
            assert_eq!(entry, None);
        }
    }
    assert_eq!(found, 21);
}
