//! From MIDI file bytes to playback instructions. The file is parsed by the
//! midly crate behind one trusted step whose result — a function of the
//! bytes alone — is named, so that the contracts downstream say exactly
//! when parsing succeeds and what instructions come out; extraction,
//! assembly and compilation are verified against that name.

use vstd::prelude::*;
use midly::{MetaMessage, MidiMessage, TrackEventKind};
use crate::assemble::{assemble, sort_notes};
use crate::compile::{compile_spec, events_to_keypresses};
use crate::extract::{
    beat_duration_spec, extract_events, extract_spec, get_beat_duration, lemma_extract_monotonic,
};
use crate::score::{
    KeyPressEvent, MidiError, RawEvent, RawEventKind, Score, ScoreFormat, TimedNote,
    note_track_views, tracks_view,
};

verus! {

#[verifier::external_type_specification]
#[verifier::external_body]
pub struct ExTrackEvent<'a>(midly::TrackEvent<'a>);

/// What midly parses the bytes into, as far as playback reads it: `None`
/// for malformed bytes, else the declared track layout, the metrical
/// ticks-per-beat (`None` for timecode-based timing), and every track's
/// events in order. `Smf::parse` is deterministic, so this is a function of
/// the bytes alone.
pub uninterp spec fn parsed_smf(bytes: Seq<u8>) -> Option<
    (ScoreFormat, Option<u16>, Seq<Seq<RawEvent>>),
>;

/// The parse result read mathematically: tracks as sequences.
pub open spec fn parse_view(r: Option<(ScoreFormat, Option<u16>, Vec<Vec<RawEvent>>)>) -> Option<
    (ScoreFormat, Option<u16>, Seq<Seq<RawEvent>>),
> {
    match r {
        Some((format, ticks_per_beat, tracks)) => Some(
            (format, ticks_per_beat, tracks_view(tracks@)),
        ),
        None => None,
    }
}

/// Relies on midly's `TrackEvent`: one event's delta time (28-bit in
/// midly's representation) and its kind, reduced one variant per arm to
/// what playback reads — note keys and velocities are 7-bit, tempos
/// 24-bit; every other kind becomes `Other`, keeping its delta.
#[verifier::external_body]
fn raw_event_of(ev: &midly::TrackEvent<'_>) -> (r: RawEvent) {
    let kind = match ev.kind {
        TrackEventKind::Midi { channel: _, message: MidiMessage::NoteOn { key, vel } } =>
            RawEventKind::NoteOn { key: key.as_int(), vel: vel.as_int() },
        TrackEventKind::Midi { channel: _, message: MidiMessage::NoteOff { .. } } =>
            RawEventKind::NoteOff,
        TrackEventKind::Meta(MetaMessage::Tempo(t)) =>
            RawEventKind::Tempo { beat_duration_us: t.as_int() },
        _ => RawEventKind::Other,
    };
    RawEvent { delta_ticks: ev.delta.as_int(), kind }
}

/// Relies on midly's `Smf::parse` and the structure it returns: header
/// format (one variant each), metrical ticks-per-beat or `None` for
/// timecode timing, and every track's events converted one for one. The
/// whole result is pinned to its name `parsed_smf`.
#[verifier::external_body]
fn parse_smf(bytes: &[u8]) -> (r: Option<(ScoreFormat, Option<u16>, Vec<Vec<RawEvent>>)>)
    ensures
        parse_view(r) == parsed_smf(bytes@),
{
    let smf = match midly::Smf::parse(bytes) {
        Ok(smf) => smf,
        Err(_) => return None,
    };
    let format = match smf.header.format {
        midly::Format::SingleTrack => ScoreFormat::SingleTrack,
        midly::Format::Parallel => ScoreFormat::Parallel,
        midly::Format::Sequential => ScoreFormat::Sequential,
    };
    let ticks_per_beat = match smf.header.timing {
        midly::Timing::Metrical(tpb) => Some(tpb.as_int()),
        midly::Timing::Timecode(_, _) => None,
    };
    let tracks = smf.tracks.iter().map(|t| t.iter().map(raw_event_of).collect()).collect();
    Some((format, ticks_per_beat, tracks))
}

/// Builds the library's score from MIDI file bytes, exactly when the bytes
/// parse with metrical timing and a nonzero ticks-per-beat: the score then
/// carries the parsed format, ticks-per-beat and events. Malformed bytes —
/// and a degenerate zero ticks-per-beat — are parse failures; timecode-based
/// timing is unsupported and fails fast.
pub fn parse_score(bytes: &[u8]) -> (r: Result<Score, MidiError>)
    ensures
        parsed_smf(bytes@) is None ==> r == Err::<Score, MidiError>(MidiError::MalformedFile),
        parsed_smf(bytes@) matches Some((format, ticks_per_beat, tracks)) ==> {
            &&& ticks_per_beat is None ==> r == Err::<Score, MidiError>(
                MidiError::UnsupportedTiming,
            )
            &&& ticks_per_beat == Some(0u16) ==> r == Err::<Score, MidiError>(
                MidiError::MalformedFile,
            )
            &&& ticks_per_beat matches Some(t) ==> t > 0 ==> (r matches Ok(s) && s.wf()
                && s.format == format && s.ticks_per_beat == t as u32 && tracks_view(s.tracks@)
                == tracks)
        },
{
    match parse_smf(bytes) {
        None => Err(MidiError::MalformedFile),
        Some((format, ticks_per_beat, tracks)) => match ticks_per_beat {
            None => Err(MidiError::UnsupportedTiming),
            Some(t) => if t == 0 {
                Err(MidiError::MalformedFile)
            } else {
                Ok(Score { format, ticks_per_beat: t as u32, tracks })
            },
        },
    }
}

/// The notes each track of a score contributes, at the given tick
/// granularity and initial beat duration.
pub open spec fn extracted_specs(tracks: Seq<Seq<RawEvent>>, tpb: u32, tempo0: u32) -> Seq<
    Seq<TimedNote>,
> {
    tracks.map_values(|t: Seq<RawEvent>| extract_spec(t, tpb, tempo0, 0))
}

/// The instruction group each note group compiles to.
pub open spec fn compiled_specs(groups: Seq<Seq<TimedNote>>) -> Seq<Seq<KeyPressEvent>> {
    groups.map_values(|notes: Seq<TimedNote>| compile_spec(notes, 0))
}

/// The playback instructions of a whole score: per-track extraction under
/// the file's initial beat duration, then merge modes flatten, stable-sort
/// and compile once, while sequential mode compiles each track on its own
/// and concatenates in track order.
pub open spec fn keypresses_spec(
    format: ScoreFormat,
    tpb: u32,
    tracks: Seq<Seq<RawEvent>>,
) -> Seq<KeyPressEvent> {
    let extracted = extracted_specs(tracks, tpb, beat_duration_spec(tracks));
    if format is Sequential {
        compiled_specs(extracted).flatten()
    } else {
        compile_spec(sort_notes(extracted.flatten()), 0)
    }
}

/// Turns a parsed score into its playback instructions.
pub fn score_to_keypresses(score: &Score) -> (r: Vec<KeyPressEvent>)
    requires
        score.wf(),
    ensures
        r@ == keypresses_spec(score.format, score.ticks_per_beat, tracks_view(score.tracks@)),
{
    let ghost tv = tracks_view(score.tracks@);
    let tpb = score.ticks_per_beat;
    let tempo0 = get_beat_duration(score);
    let ghost evs = extracted_specs(tv, tpb, tempo0);
    let mut extracted: Vec<Vec<TimedNote>> = Vec::new();
    let mut i: usize = 0;
    proof {
        assert(note_track_views(extracted@) =~= evs.take(0));
    }
    while i < score.tracks.len()
        invariant
            i <= score.tracks.len(),
            tv == tracks_view(score.tracks@),
            tpb == score.ticks_per_beat,
            tpb > 0,
            evs == extracted_specs(tv, tpb, tempo0),
            note_track_views(extracted@) == evs.take(i as int),
        decreases score.tracks.len() - i,
    {
        let notes = extract_events(&score.tracks[i], tpb, tempo0);
        proof {
            assert(tv[i as int] == score.tracks@[i as int]@);
            assert(evs[i as int] == extract_spec(tv[i as int], tpb, tempo0, 0));
        }
        let ghost prev_ex = extracted@;
        extracted.push(notes);
        proof {
            assert(evs.len() == tv.len());
            assert(tv.len() == score.tracks@.len());
            assert(note_track_views(prev_ex).len() == prev_ex.len());
            assert(prev_ex.len() == i as int);
            assert(extracted@ == prev_ex.push(notes));
            assert(extracted@.len() == i as int + 1);
            assert forall|k: int| 0 <= k < extracted@.len() implies #[trigger] note_track_views(
                extracted@,
            )[k] == evs.take(i as int + 1)[k] by {
                assert(note_track_views(extracted@)[k] == extracted@[k]@);
                if k < i as int {
                    assert(extracted@[k] == prev_ex[k]);
                    assert(note_track_views(prev_ex)[k] == prev_ex[k]@);
                    assert(note_track_views(prev_ex)[k] == evs.take(i as int)[k]);
                } else {
                    assert(extracted@[k] == notes);
                }
            }
            assert(note_track_views(extracted@) =~= evs.take(i as int + 1));
        }
        i = i + 1;
    }
    proof {
        assert(evs.take(evs.len() as int) =~= evs);
    }
    match score.format {
        ScoreFormat::Sequential => {
            let ghost cps = compiled_specs(evs);
            let mut groups = assemble(ScoreFormat::Sequential, extracted);
            let ghost all = groups@;
            let mut out: Vec<KeyPressEvent> = Vec::new();
            let ghost mut done: int = 0;
            proof {
                assert(cps.take(0) =~= Seq::<Seq<KeyPressEvent>>::empty());
                assert(Seq::<Seq<KeyPressEvent>>::empty().flatten()
                    =~= Seq::<KeyPressEvent>::empty());
                assert(groups@ =~= all.skip(0));
            }
            while groups.len() > 0
                invariant
                    0 <= done <= all.len(),
                    all.len() == evs.len(),
                    groups@.len() == all.len() - done,
                    groups@ == all.skip(done),
                    note_track_views(all) == evs,
                    cps == compiled_specs(evs),
                    evs == extracted_specs(tv, tpb, tempo0),
                    tpb > 0,
                    out@ == cps.take(done).flatten(),
                decreases groups.len(),
            {
                let first = groups.remove(0);
                proof {
                    assert(all.skip(done)[0] == all[done]);
                    assert(first@ == note_track_views(all)[done]);
                    assert(evs[done] == extract_spec(tv[done], tpb, tempo0, 0));
                    lemma_extract_monotonic(tv[done], tpb, tempo0, 0);
                    assert(all.skip(done).remove(0) =~= all.skip(done + 1));
                }
                let mut instrs = events_to_keypresses(first);
                out.append(&mut instrs);
                proof {
                    assert(cps[done] == compile_spec(evs[done], 0));
                    assert(cps.take(done + 1) =~= cps.take(done).push(cps[done]));
                    cps.take(done).lemma_flatten_push(cps[done]);
                    done = done + 1;
                }
            }
            proof {
                assert(cps.take(cps.len() as int) =~= cps);
            }
            out
        },
        _ => {
            let mut groups = assemble(score.format, extracted);
            let merged = groups.remove(0);
            events_to_keypresses(merged)
        },
    }
}

/// From MIDI file bytes straight to playback instructions: exactly when
/// the bytes parse with metrical timing and a nonzero ticks-per-beat, the
/// pipeline of the parsed score; otherwise the parse error, and no
/// instructions.
pub fn events_from_bytes(bytes: &[u8]) -> (r: Result<Vec<KeyPressEvent>, MidiError>)
    ensures
        parsed_smf(bytes@) is None ==> r == Err::<Vec<KeyPressEvent>, MidiError>(
            MidiError::MalformedFile,
        ),
        parsed_smf(bytes@) matches Some((format, ticks_per_beat, tracks)) ==> {
            &&& ticks_per_beat is None ==> r == Err::<Vec<KeyPressEvent>, MidiError>(
                MidiError::UnsupportedTiming,
            )
            &&& ticks_per_beat == Some(0u16) ==> r == Err::<Vec<KeyPressEvent>, MidiError>(
                MidiError::MalformedFile,
            )
            &&& ticks_per_beat matches Some(t) ==> t > 0 ==> (r matches Ok(instrs) && instrs@
                == keypresses_spec(format, t as u32, tracks))
        },
{
    let score = match parse_score(bytes) {
        Ok(s) => s,
        Err(e) => {
            return Err(e);
        },
    };
    let instrs = score_to_keypresses(&score);
    Ok(instrs)
}

} // verus!
