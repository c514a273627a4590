//! The real-time playback state machine. It owns the compiled instruction
//! stream and is driven by repeated steps, each given the current value of
//! the shared playing flag; every step returns the action the caller must
//! perform (poll, settle, wait, press, or nothing once finished). Pausing is
//! checked only before a press, never mid-wait, so a pause always lands
//! between notes; resuming issues the exact pending press.

use vstd::prelude::*;
use crate::score::KeyPressEvent;

verus! {

/// How long to sleep between polls of the playing flag, in milliseconds.
pub const POLLING_RATE_MILLIS: u64 = 100;

/// The settling delay after the first start signal, in milliseconds: the
/// very first injected key event is unreliable if issued immediately after
/// the transition, so playback deliberately waits once before it begins.
pub const SETTLE_MILLIS: u64 = 500;

/// The phase of playback.
#[derive(Clone, Copy, PartialEq, Eq, Debug)]
pub enum PlayerPhase {
    /// Waiting for the first start signal.
    WaitingToStart,
    /// Consuming instructions.
    Playing,
    /// Stopped just before a press until the flag turns true again.
    Paused,
    /// The instruction stream is exhausted.
    Finished,
}

/// What the caller must do after a step.
#[derive(Clone, Copy, PartialEq, Eq, Debug)]
pub enum PlayerAction {
    /// Sleep one polling interval, then step again.
    Poll,
    /// Sleep the settling delay once, then step again.
    Settle,
    /// Press this key now.
    Press(char),
    /// Wait this many microseconds.
    Wait(u64),
    /// Playback is over; stop stepping.
    Done,
}

/// One transition of the playback machine: from position, phase and the
/// flag's value to the new position, new phase and the action to perform.
pub open spec fn next_state(
    instrs: Seq<KeyPressEvent>,
    pos: int,
    phase: PlayerPhase,
    playing: bool,
) -> (int, PlayerPhase, PlayerAction) {
    match phase {
        PlayerPhase::WaitingToStart => if playing {
            (pos, PlayerPhase::Playing, PlayerAction::Settle)
        } else {
            (pos, PlayerPhase::WaitingToStart, PlayerAction::Poll)
        },
        PlayerPhase::Playing => if pos >= instrs.len() {
            (pos, PlayerPhase::Finished, PlayerAction::Done)
        } else {
            match instrs[pos] {
                KeyPressEvent::WaitUs(t) => (pos + 1, PlayerPhase::Playing, PlayerAction::Wait(t)),
                KeyPressEvent::PressKey(c) => if playing {
                    (pos + 1, PlayerPhase::Playing, PlayerAction::Press(c))
                } else {
                    (pos, PlayerPhase::Paused, PlayerAction::Poll)
                },
            }
        },
        PlayerPhase::Paused => if playing {
            if 0 <= pos < instrs.len() && instrs[pos] is PressKey {
                (pos + 1, PlayerPhase::Playing, PlayerAction::Press(instrs[pos]->PressKey_0))
            } else {
                (pos, PlayerPhase::Playing, PlayerAction::Poll)
            }
        } else {
            (pos, PlayerPhase::Paused, PlayerAction::Poll)
        },
        PlayerPhase::Finished => (pos, PlayerPhase::Finished, PlayerAction::Done),
    }
}

/// The playback machine: the compiled instructions, the position of the
/// next unplayed instruction, and the current phase.
pub struct Player {
    instructions: Vec<KeyPressEvent>,
    position: usize,
    phase: PlayerPhase,
}

impl Player {
    /// The instruction stream, immutable once the player owns it.
    pub closed spec fn instructions_view(&self) -> Seq<KeyPressEvent> {
        self.instructions@
    }

    /// The position of the next unplayed instruction.
    pub closed spec fn position_view(&self) -> int {
        self.position as int
    }

    /// The current phase.
    pub closed spec fn phase_view(&self) -> PlayerPhase {
        self.phase
    }

    /// The machine's invariant: the position stays within the stream, a
    /// pause always sits on a pending press, and a finished player has
    /// consumed everything.
    pub closed spec fn wf(&self) -> bool {
        &&& self.position <= self.instructions@.len()
        &&& self.phase is Paused ==> self.position < self.instructions@.len()
            && self.instructions@[self.position as int] is PressKey
        &&& self.phase is Finished ==> self.position == self.instructions@.len()
    }

    /// Takes ownership of a compiled instruction stream, ready to start.
    pub fn new(instructions: Vec<KeyPressEvent>) -> (p: Player)
        ensures
            p.wf(),
            p.instructions_view() == instructions@,
            p.position_view() == 0,
            p.phase_view() is WaitingToStart,
    {
        Player { instructions, position: 0, phase: PlayerPhase::WaitingToStart }
    }

    /// Performs one transition given the current value of the playing flag,
    /// and returns the action the caller must perform.
    pub fn step(&mut self, playing: bool) -> (action: PlayerAction)
        requires
            old(self).wf(),
        ensures
            final(self).wf(),
            final(self).instructions_view() == old(self).instructions_view(),
            (final(self).position_view(), final(self).phase_view(), action) == next_state(
                old(self).instructions_view(),
                old(self).position_view(),
                old(self).phase_view(),
                playing,
            ),
    {
        match self.phase {
            PlayerPhase::WaitingToStart => {
                if playing {
                    self.phase = PlayerPhase::Playing;
                    PlayerAction::Settle
                } else {
                    PlayerAction::Poll
                }
            },
            PlayerPhase::Playing => {
                if self.position >= self.instructions.len() {
                    self.phase = PlayerPhase::Finished;
                    PlayerAction::Done
                } else {
                    match self.instructions[self.position] {
                        KeyPressEvent::WaitUs(t) => {
                            self.position = self.position + 1;
                            PlayerAction::Wait(t)
                        },
                        KeyPressEvent::PressKey(c) => {
                            if playing {
                                self.position = self.position + 1;
                                PlayerAction::Press(c)
                            } else {
                                self.phase = PlayerPhase::Paused;
                                PlayerAction::Poll
                            }
                        },
                    }
                }
            },
            PlayerPhase::Paused => {
                if playing {
                    if self.position < self.instructions.len() {
                        match self.instructions[self.position] {
                            KeyPressEvent::PressKey(c) => {
                                self.position = self.position + 1;
                                self.phase = PlayerPhase::Playing;
                                PlayerAction::Press(c)
                            },
                            KeyPressEvent::WaitUs(_) => {
                                self.phase = PlayerPhase::Playing;
                                PlayerAction::Poll
                            },
                        }
                    } else {
                        self.phase = PlayerPhase::Playing;
                        PlayerAction::Poll
                    }
                } else {
                    PlayerAction::Poll
                }
            },
            PlayerPhase::Finished => PlayerAction::Done,
        }
    }
}

/// While the flag stays false, a step never presses a key, and a pending
/// press is never consumed or skipped: a paused player, stepped any number
/// of times with the flag false, polls every time and stays exactly where
/// it is.
pub proof fn lemma_pause_blocks_press(instrs: Seq<KeyPressEvent>, pos: int, phase: PlayerPhase)
    ensures
        !(next_state(instrs, pos, phase, false).2 is Press),
        phase is Playing && 0 <= pos < instrs.len() && instrs[pos] is PressKey ==> next_state(
            instrs,
            pos,
            phase,
            false,
        ) == (pos, PlayerPhase::Paused, PlayerAction::Poll),
        phase is Paused ==> next_state(instrs, pos, phase, false) == (
            pos,
            PlayerPhase::Paused,
            PlayerAction::Poll,
        ),
{
}

/// Resuming presses exactly the pending instruction: a paused player,
/// stepped with the flag true, issues the press it stopped in front of and
/// moves to the next unplayed instruction.
pub proof fn lemma_resume_presses_pending(instrs: Seq<KeyPressEvent>, pos: int, c: char)
    requires
        0 <= pos < instrs.len(),
        instrs[pos] == KeyPressEvent::PressKey(c),
    ensures
        next_state(instrs, pos, PlayerPhase::Paused, true) == (
            pos + 1,
            PlayerPhase::Playing,
            PlayerAction::Press(c),
        ),
{
}

} // verus!
