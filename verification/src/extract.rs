//! Walks one track's delta-time events and produces its absolute-time notes.
//! A running beat duration is re-set by every tempo meta-event; only the
//! delta times of note-on and note-off events advance the running clock, by
//! ticks times the beat duration over ticks-per-beat, and each note-on with
//! positive velocity emits one timed note.

use vstd::prelude::*;
use crate::notes::map_note_spec;
use crate::notes::map_note_to_char;
use crate::score::{RawEvent, RawEventKind, Score, TimedNote, time_sorted, tracks_view};

verus! {

/// Beat duration used when no tempo meta-event exists anywhere in the file
/// (the 120 BPM equivalent).
pub const DEFAULT_BEAT_DURATION_US: u32 = 500_000;

/// The beat duration in force after an event: re-set by a tempo
/// meta-event, unchanged by every other kind.
pub open spec fn next_tempo(e: RawEvent, tempo: u32) -> u32 {
    match e.kind {
        RawEventKind::Tempo { beat_duration_us } => beat_duration_us,
        _ => tempo,
    }
}

/// Microseconds that a delta of this many ticks lasts under the given beat
/// duration: ticks times microseconds-per-beat, divided by ticks-per-beat.
pub open spec fn delta_us(delta_ticks: u32, tempo: u32, tpb: u32) -> int {
    (delta_ticks * tempo) as int / tpb as int
}

/// Addition clamped at the largest representable time.
pub open spec fn sat_add_u64(now: int, inc: int) -> int {
    if now + inc > u64::MAX { u64::MAX as int } else { now + inc }
}

/// The running clock after an event: only note-on and note-off deltas
/// advance it, clamped at the largest representable time.
pub open spec fn next_clock(e: RawEvent, tempo: u32, tpb: u32, now: int) -> int {
    match e.kind {
        RawEventKind::NoteOn { .. } | RawEventKind::NoteOff => sat_add_u64(
            now,
            delta_us(e.delta_ticks, tempo, tpb),
        ),
        _ => now,
    }
}

/// The notes a track emits, given the tick granularity, the current tick
/// duration and the clock so far: one timed note per note-on with
/// positive velocity.
pub open spec fn extract_spec(track: Seq<RawEvent>, tpb: u32, tempo: u32, now: int) -> Seq<
    TimedNote,
>
    decreases track.len(),
{
    if track.len() == 0 {
        Seq::empty()
    } else {
        let e = track[0];
        let tempo2 = next_tempo(e, tempo);
        let now2 = next_clock(e, tempo2, tpb, now);
        let rest = extract_spec(track.skip(1), tpb, tempo2, now2);
        match e.kind {
            RawEventKind::NoteOn { key, vel } => if vel > 0 {
                seq![
                    TimedNote { time_us: now2 as u64, pitch_key: map_note_spec(key as int) },
                ] + rest
            } else {
                rest
            },
            _ => rest,
        }
    }
}

/// Extraction is monotonic: every emitted time lies between the clock at
/// entry and the largest representable time, and the times never decrease.
pub proof fn lemma_extract_monotonic(track: Seq<RawEvent>, tpb: u32, tempo: u32, now: int)
    requires
        tpb > 0,
        0 <= now <= u64::MAX,
    ensures
        time_sorted(extract_spec(track, tpb, tempo, now)),
        forall|k: int|
            0 <= k < extract_spec(track, tpb, tempo, now).len() ==> now <= (
            #[trigger] extract_spec(track, tpb, tempo, now)[k]).time_us <= u64::MAX,
    decreases track.len(),
{
    if track.len() > 0 {
        let e = track[0];
        let tempo2 = next_tempo(e, tempo);
        let now2 = next_clock(e, tempo2, tpb, now);
        assert(tempo2 * e.delta_ticks >= 0) by (nonlinear_arith)
            requires
                tempo2 >= 0,
                e.delta_ticks >= 0,
        ;
        vstd::arithmetic::div_mod::lemma_div_pos_is_pos(
            (e.delta_ticks * tempo2) as int,
            tpb as int,
        );
        lemma_extract_monotonic(track.skip(1), tpb, tempo2, now2);
        let rest = extract_spec(track.skip(1), tpb, tempo2, now2);
        let all = extract_spec(track, tpb, tempo, now);
        match e.kind {
            RawEventKind::NoteOn { key, vel } => {
                if vel > 0 {
                    assert(all == seq![
                        TimedNote { time_us: now2 as u64, pitch_key: map_note_spec(key as int) },
                    ] + rest);
                    assert(all[0].time_us == now2);
                    assert(forall|k: int| 1 <= k < all.len() ==> all[k] == rest[k - 1]);
                } else {
                    assert(all == rest);
                }
            },
            _ => {
                assert(all == rest);
            },
        }
    }
}

/// The value of the first tempo meta-event of a track, if any.
pub open spec fn first_tempo_in(track: Seq<RawEvent>) -> Option<u32>
    decreases track.len(),
{
    if track.len() == 0 {
        None
    } else {
        match track[0].kind {
            RawEventKind::Tempo { beat_duration_us } => Some(beat_duration_us),
            _ => first_tempo_in(track.skip(1)),
        }
    }
}

/// The value of the first tempo meta-event anywhere in the file, scanning
/// tracks in order.
pub open spec fn first_tempo(tracks: Seq<Seq<RawEvent>>) -> Option<u32>
    decreases tracks.len(),
{
    if tracks.len() == 0 {
        None
    } else {
        match first_tempo_in(tracks[0]) {
            Some(t) => Some(t),
            None => first_tempo(tracks.skip(1)),
        }
    }
}

/// The initial beat duration of a file: its first tempo meta-event, or the
/// default when none exists.
pub open spec fn beat_duration_spec(tracks: Seq<Seq<RawEvent>>) -> u32 {
    match first_tempo(tracks) {
        Some(t) => t,
        None => DEFAULT_BEAT_DURATION_US,
    }
}

proof fn lemma_first_tempo_in_concat(a: Seq<RawEvent>, b: Seq<RawEvent>)
    ensures
        first_tempo_in(a + b) == (if first_tempo_in(a) is Some {
            first_tempo_in(a)
        } else {
            first_tempo_in(b)
        }),
    decreases a.len(),
{
    if a.len() == 0 {
        assert(a + b =~= b);
    } else {
        lemma_first_tempo_in_concat(a.skip(1), b);
        assert((a + b).skip(1) =~= a.skip(1) + b);
        assert((a + b)[0] == a[0]);
    }
}

proof fn lemma_first_tempo_concat(a: Seq<Seq<RawEvent>>, b: Seq<Seq<RawEvent>>)
    ensures
        first_tempo(a + b) == (if first_tempo(a) is Some {
            first_tempo(a)
        } else {
            first_tempo(b)
        }),
    decreases a.len(),
{
    if a.len() == 0 {
        assert(a + b =~= b);
    } else {
        lemma_first_tempo_concat(a.skip(1), b);
        assert((a + b).skip(1) =~= a.skip(1) + b);
        assert((a + b)[0] == a[0]);
    }
}

/// Finds the file's initial beat duration: the first tempo meta-event in
/// track order, or the default when the file has none.
pub fn get_beat_duration(score: &Score) -> (r: u32)
    ensures
        r == beat_duration_spec(tracks_view(score.tracks@)),
{
    let ghost all = tracks_view(score.tracks@);
    let mut i: usize = 0;
    while i < score.tracks.len()
        invariant
            i <= score.tracks.len(),
            all == tracks_view(score.tracks@),
            first_tempo(all.take(i as int)) is None,
        decreases score.tracks.len() - i,
    {
        let track = &score.tracks[i];
        let mut j: usize = 0;
        while j < track.len()
            invariant
                i < score.tracks.len(),
                j <= track.len(),
                all == tracks_view(score.tracks@),
                track@ == all[i as int],
                first_tempo(all.take(i as int)) is None,
                first_tempo_in(track@.take(j as int)) is None,
            decreases track.len() - j,
        {
            let ev = track[j];
            if let RawEventKind::Tempo { beat_duration_us } = ev.kind {
                proof {
                    let tr = track@;
                    assert(tr.take(j as int + 1) =~= tr.take(j as int) + seq![ev]);
                    assert(seq![ev].skip(1) =~= Seq::<RawEvent>::empty());
                    lemma_first_tempo_in_concat(tr.take(j as int), seq![ev]);
                    assert(tr =~= tr.take(j as int + 1) + tr.skip(j as int + 1));
                    lemma_first_tempo_in_concat(
                        tr.take(j as int + 1),
                        tr.skip(j as int + 1),
                    );
                    assert(first_tempo_in(tr) == Some(beat_duration_us));
                    assert(all =~= all.take(i as int) + seq![tr] + all.skip(i as int + 1));
                    assert((seq![tr] + all.skip(i as int + 1))[0] == tr);
                    assert((seq![tr] + all.skip(i as int + 1)).skip(1) =~= all.skip(
                        i as int + 1,
                    ));
                    lemma_first_tempo_concat(
                        all.take(i as int),
                        seq![tr] + all.skip(i as int + 1),
                    );
                    assert(all.take(i as int) + (seq![tr] + all.skip(i as int + 1)) =~= all);
                }
                return beat_duration_us;
            }
            proof {
                let tr = track@;
                assert(tr.take(j as int + 1) =~= tr.take(j as int) + seq![ev]);
                assert(seq![ev].skip(1) =~= Seq::<RawEvent>::empty());
                assert(first_tempo_in(Seq::<RawEvent>::empty()) is None);
                assert(first_tempo_in(seq![ev]) is None);
                lemma_first_tempo_in_concat(tr.take(j as int), seq![ev]);
            }
            j = j + 1;
        }
        proof {
            let tr = track@;
            assert(tr.take(tr.len() as int) =~= tr);
            assert(all.take(i as int + 1) =~= all.take(i as int) + seq![tr]);
            assert((seq![tr]).skip(1) =~= Seq::<Seq<RawEvent>>::empty());
            assert(first_tempo(Seq::<Seq<RawEvent>>::empty()) is None);
            assert(first_tempo(seq![tr]) is None);
            lemma_first_tempo_concat(all.take(i as int), seq![tr]);
        }
        i = i + 1;
    }
    proof {
        assert(all.take(all.len() as int) =~= all);
    }
    DEFAULT_BEAT_DURATION_US
}

/// Produces one track's timed notes from its raw events; the running clock
/// is clamped at the largest representable time.
pub fn extract_events(track: &Vec<RawEvent>, ticks_per_beat: u32, beat_duration_us: u32) -> (notes:
    Vec<TimedNote>)
    requires
        ticks_per_beat > 0,
    ensures
        notes@ == extract_spec(track@, ticks_per_beat, beat_duration_us, 0),
        time_sorted(notes@),
{
    let mut notes: Vec<TimedNote> = Vec::new();
    let mut tempo: u32 = beat_duration_us;
    let mut time: u64 = 0;
    let mut i: usize = 0;
    proof {
        assert(track@.skip(0) =~= track@);
        assert(Seq::<TimedNote>::empty() + extract_spec(track@, ticks_per_beat, tempo, 0)
            =~= extract_spec(track@, ticks_per_beat, tempo, 0));
    }
    while i < track.len()
        invariant
            ticks_per_beat > 0,
            i <= track.len(),
            extract_spec(track@, ticks_per_beat, beat_duration_us, 0) == notes@ + extract_spec(
                track@.skip(i as int),
                ticks_per_beat,
                tempo,
                time as int,
            ),
        decreases track.len() - i,
    {
        let ghost prev_notes = notes@;
        let ghost tempo_in: u32 = tempo;
        let ghost now_in: int = time as int;
        let ev = track[i];
        proof {
            assert(track@.skip(i as int).len() > 0);
            assert(track@.skip(i as int)[0] == ev);
            assert(track@.skip(i as int).skip(1) =~= track@.skip(i as int + 1));
        }
        if let RawEventKind::Tempo { beat_duration_us: t } = ev.kind {
            tempo = t;
        }
        match ev.kind {
            RawEventKind::NoteOn { .. } | RawEventKind::NoteOff => {
                proof {
                    assert((ev.delta_ticks as int) * (tempo as int) <= 0xffff_ffff
                        * 0xffff_ffff) by (nonlinear_arith)
                        requires
                            0 <= ev.delta_ticks as int <= 0xffff_ffff,
                            0 <= tempo as int <= 0xffff_ffff,
                    ;
                }
                let inc: u64 = (ev.delta_ticks as u64) * (tempo as u64) / (ticks_per_beat as u64);
                time = if time > u64::MAX - inc {
                    u64::MAX
                } else {
                    time + inc
                };
            },
            _ => {},
        }
        proof {
            assert(tempo == next_tempo(ev, tempo_in));
            assert(time as int == next_clock(ev, tempo, ticks_per_beat, now_in));
        }
        if let RawEventKind::NoteOn { key, vel } = ev.kind {
            if vel > 0 {
                let note = TimedNote { time_us: time, pitch_key: map_note_to_char(key) };
                notes.push(note);
                proof {
                    assert(notes@ =~= prev_notes + seq![
                        TimedNote { time_us: time, pitch_key: map_note_spec(key as int) },
                    ]);
                }
            }
        }
        proof {
            let s = track@;
            let ii = i as int;
            let rest = extract_spec(s.skip(ii + 1), ticks_per_beat, tempo, time as int);
            let prior = extract_spec(s.skip(ii), ticks_per_beat, tempo_in, now_in);
            match ev.kind {
                RawEventKind::NoteOn { key, vel } => {
                    if vel > 0 {
                        assert(prior == seq![
                            TimedNote { time_us: time, pitch_key: map_note_spec(key as int) },
                        ] + rest);
                    } else {
                        assert(prior == rest);
                    }
                },
                _ => {
                    assert(prior == rest);
                },
            }
            assert(prev_notes + prior =~= notes@ + rest);
        }
        i = i + 1;
    }
    proof {
        assert(track@.skip(track@.len() as int) =~= Seq::<RawEvent>::empty());
        assert(notes@ + Seq::<TimedNote>::empty() =~= notes@);
        lemma_extract_monotonic(track@, ticks_per_beat, beat_duration_us, 0);
    }
    notes
}

} // verus!
