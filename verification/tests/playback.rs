use midi_keys::hotkey::HotkeyManager;
use midi_keys::player::{Player, PlayerAction, POLLING_RATE_MILLIS, SETTLE_MILLIS};
use midi_keys::score::KeyPressEvent;

fn stream() -> Vec<KeyPressEvent> {
    vec![
        KeyPressEvent::PressKey('a'),
        KeyPressEvent::WaitUs(10),
        KeyPressEvent::PressKey('b'),
    ]
}

#[test]
fn waits_for_the_start_signal_then_settles() {
    let mut player = Player::new(stream());
    assert_eq!(player.step(false), PlayerAction::Poll);
    assert_eq!(player.step(false), PlayerAction::Poll);
    assert_eq!(player.step(true), PlayerAction::Settle);
    assert_eq!(player.step(true), PlayerAction::Press('a'));
}

#[test]
fn pause_blocks_presses_and_resume_plays_the_exact_next_one() {
    let mut player = Player::new(stream());
    assert_eq!(player.step(true), PlayerAction::Settle);
    assert_eq!(player.step(true), PlayerAction::Press('a'));
    // An in-flight wait completes even with the flag down.
    assert_eq!(player.step(false), PlayerAction::Wait(10));
    // The pending press is blocked indefinitely, never consumed or skipped.
    for _ in 0..50 {
        assert_eq!(player.step(false), PlayerAction::Poll);
    }
    // Resuming issues exactly the press that was pending.
    assert_eq!(player.step(true), PlayerAction::Press('b'));
    assert_eq!(player.step(true), PlayerAction::Done);
    assert_eq!(player.step(true), PlayerAction::Done);
}

#[test]
fn exhaustion_is_terminal() {
    let mut player = Player::new(Vec::new());
    assert_eq!(player.step(true), PlayerAction::Settle);
    assert_eq!(player.step(false), PlayerAction::Done);
    assert_eq!(player.step(true), PlayerAction::Done);
}

#[test]
fn polling_and_settling_delays_are_the_design_defaults() {
    assert_eq!(POLLING_RATE_MILLIS, 100);
    assert_eq!(SETTLE_MILLIS, 500);
}

#[test]
fn unregister_delivers_the_stop_message_once() {
    let (tx, rx) = std::sync::mpsc::channel();
    let manager = HotkeyManager::new(tx);
    manager.unregister();
    assert_eq!(rx.recv(), Ok(()));
    assert!(rx.try_recv().is_err());
}
