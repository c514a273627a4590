//! Compiles an ordered sequence of timed notes into playback instructions:
//! a strictly positive wait for each gap between consecutive notes, and one
//! key press per note. Zero-length gaps emit no wait instruction.

use vstd::prelude::*;
use crate::score::{KeyPressEvent, TimedNote, time_sorted};

verus! {

/// The instructions compiled from notes, with the cursor at `prev`:
/// a wait for each strictly positive gap, then the press.
pub open spec fn compile_spec(notes: Seq<TimedNote>, prev: u64) -> Seq<KeyPressEvent>
    decreases notes.len(),
{
    if notes.len() == 0 {
        Seq::empty()
    } else {
        let n = notes[0];
        let rest = compile_spec(notes.skip(1), n.time_us);
        if n.time_us > prev {
            seq![
                KeyPressEvent::WaitUs((n.time_us - prev) as u64),
                KeyPressEvent::PressKey(n.pitch_key),
            ] + rest
        } else {
            seq![KeyPressEvent::PressKey(n.pitch_key)] + rest
        }
    }
}

/// The total waiting time before the `k`-th key press of an instruction
/// sequence (presses counted from zero).
pub open spec fn waits_before_press(instrs: Seq<KeyPressEvent>, k: int) -> int
    decreases instrs.len(),
{
    if instrs.len() == 0 {
        0
    } else {
        match instrs[0] {
            KeyPressEvent::WaitUs(w) => w + waits_before_press(instrs.skip(1), k),
            KeyPressEvent::PressKey(_) => if k <= 0 {
                0
            } else {
                waits_before_press(instrs.skip(1), k - 1)
            },
        }
    }
}

/// Round trip: summing the waits before the `k`-th press of the compiled
/// stream, on top of the starting cursor, reconstructs the `k`-th note's
/// absolute timestamp exactly.
pub proof fn lemma_compile_round_trip(notes: Seq<TimedNote>, prev: u64, k: int)
    requires
        time_sorted(notes),
        0 <= k < notes.len(),
        prev <= notes[0].time_us,
    ensures
        prev + waits_before_press(compile_spec(notes, prev), k) == notes[k].time_us,
    decreases notes.len(),
{
    let n = notes[0];
    let rest = compile_spec(notes.skip(1), n.time_us);
    let all = compile_spec(notes, prev);
    if n.time_us > prev {
        let w = KeyPressEvent::WaitUs((n.time_us - prev) as u64);
        assert(all == seq![w, KeyPressEvent::PressKey(n.pitch_key)] + rest);
        assert(all[0] == w);
        assert(all.skip(1) =~= seq![KeyPressEvent::PressKey(n.pitch_key)] + rest);
    } else {
        assert(all == seq![KeyPressEvent::PressKey(n.pitch_key)] + rest);
    }
    let pressed = seq![KeyPressEvent::PressKey(n.pitch_key)] + rest;
    assert(pressed[0] == KeyPressEvent::PressKey(n.pitch_key));
    assert(pressed.skip(1) =~= rest);
    if k == 0 {
        assert(waits_before_press(pressed, 0) == 0);
    } else {
        assert(notes.skip(1)[0] == notes[1]);
        assert(forall|m: int|
            0 <= m < notes.skip(1).len() ==> (#[trigger] notes.skip(1)[m]) == notes[m + 1]);
        lemma_compile_round_trip(notes.skip(1), n.time_us, k - 1);
        assert(waits_before_press(pressed, k) == waits_before_press(rest, k - 1));
    }
}

/// Turns ordered notes into playback instructions: for each note, a wait
/// for its strictly positive gap from the previous note (none for a zero
/// gap), then its key press.
pub fn events_to_keypresses(events: Vec<TimedNote>) -> (r: Vec<KeyPressEvent>)
    requires
        time_sorted(events@),
    ensures
        r@ == compile_spec(events@, 0),
{
    let ghost nv = events@;
    let mut result: Vec<KeyPressEvent> = Vec::new();
    let mut previous_time: u64 = 0;
    let mut i: usize = 0;
    proof {
        assert(nv.skip(0) =~= nv);
        assert(Seq::<KeyPressEvent>::empty() + compile_spec(nv, 0) =~= compile_spec(nv, 0));
    }
    while i < events.len()
        invariant
            i <= events.len(),
            nv == events@,
            time_sorted(nv),
            i == 0 ==> previous_time == 0,
            i > 0 ==> previous_time == nv[i as int - 1].time_us,
            i < events.len() ==> previous_time <= events[i as int].time_us,
            compile_spec(nv, 0) == result@ + compile_spec(nv.skip(i as int), previous_time),
        decreases events.len() - i,
    {
        let ghost prev_result = result@;
        let ghost pt: u64 = previous_time;
        let event = events[i];
        proof {
            assert(nv.skip(i as int)[0] == nv[i as int]);
            assert(nv.skip(i as int).skip(1) =~= nv.skip(i as int + 1));
        }
        let wait_time = event.time_us - previous_time;
        if wait_time > 0 {
            result.push(KeyPressEvent::WaitUs(wait_time));
        }
        result.push(KeyPressEvent::PressKey(event.pitch_key));
        previous_time = event.time_us;
        proof {
            let rest = compile_spec(nv.skip(i as int + 1), event.time_us);
            let step = compile_spec(nv.skip(i as int), pt);
            if event.time_us > pt {
                assert(step == seq![
                    KeyPressEvent::WaitUs((event.time_us - pt) as u64),
                    KeyPressEvent::PressKey(event.pitch_key),
                ] + rest);
                assert(result@ =~= prev_result + seq![
                    KeyPressEvent::WaitUs((event.time_us - pt) as u64),
                    KeyPressEvent::PressKey(event.pitch_key),
                ]);
            } else {
                assert(step == seq![KeyPressEvent::PressKey(event.pitch_key)] + rest);
                assert(result@ =~= prev_result + seq![KeyPressEvent::PressKey(event.pitch_key)]);
            }
            assert(prev_result + step =~= result@ + rest);
            if i as int + 1 < nv.len() {
                assert(nv[i as int].time_us <= nv[i as int + 1].time_us);
            }
        }
        i = i + 1;
    }
    result
}

} // verus!
