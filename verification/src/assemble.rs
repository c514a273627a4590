//! Combines per-track note sequences according to the file's declared
//! track-organization mode. Merge modes flatten every track into one
//! sequence and stable-sort it by time, so that notes with equal times keep
//! their encounter order; sequential mode keeps each track as its own group.

use vstd::prelude::*;
use crate::score::{ScoreFormat, TimedNote, note_track_views, time_sorted};

verus! {

/// Places `x` after every leading note whose time is at most `x`'s: on a
/// sorted sequence this is stable insertion.
pub open spec fn insert_note(s: Seq<TimedNote>, x: TimedNote) -> Seq<TimedNote>
    decreases s.len(),
{
    if s.len() > 0 && s[0].time_us <= x.time_us {
        seq![s[0]] + insert_note(s.skip(1), x)
    } else {
        seq![x] + s
    }
}

/// The number of leading notes whose time is at most `x`'s: where `x` lands.
pub open spec fn insert_pos(s: Seq<TimedNote>, x: TimedNote) -> int
    decreases s.len(),
{
    if s.len() > 0 && s[0].time_us <= x.time_us {
        1 + insert_pos(s.skip(1), x)
    } else {
        0
    }
}

/// Stable sort by time: insert each note, in input order, after all notes
/// already placed whose time is at most its own.
pub open spec fn sort_notes(s: Seq<TimedNote>) -> Seq<TimedNote>
    decreases s.len(),
{
    if s.len() == 0 {
        s
    } else {
        insert_note(sort_notes(s.drop_last()), s.last())
    }
}

/// The notes of a sequence that carry exactly the time `t`, in order.
pub open spec fn notes_at(s: Seq<TimedNote>, t: u64) -> Seq<TimedNote> {
    s.filter(|n: TimedNote| n.time_us == t)
}

proof fn lemma_insert_pos_bounds(s: Seq<TimedNote>, x: TimedNote)
    ensures
        0 <= insert_pos(s, x) <= s.len(),
        forall|m: int| 0 <= m < insert_pos(s, x) ==> s[m].time_us <= x.time_us,
        insert_pos(s, x) < s.len() ==> s[insert_pos(s, x)].time_us > x.time_us,
    decreases s.len(),
{
    if s.len() > 0 && s[0].time_us <= x.time_us {
        lemma_insert_pos_bounds(s.skip(1), x);
        let p = insert_pos(s, x);
        assert forall|m: int| 0 <= m < p implies s[m].time_us <= x.time_us by {
            if m > 0 {
                assert(s.skip(1)[m - 1] == s[m]);
                assert(s.skip(1)[m - 1].time_us <= x.time_us);
            }
        }
        if p < s.len() {
            assert(s.skip(1)[p - 1] == s[p]);
        }
    }
}

proof fn lemma_insert_at_index(s: Seq<TimedNote>, x: TimedNote, p: int)
    requires
        0 <= p <= s.len(),
        forall|m: int| 0 <= m < p ==> s[m].time_us <= x.time_us,
        p < s.len() ==> s[p].time_us > x.time_us,
    ensures
        insert_note(s, x) =~= s.take(p) + seq![x] + s.skip(p),
    decreases s.len(),
{
    if p == 0 {
        assert(insert_note(s, x) == seq![x] + s);
        assert(s.take(0) =~= Seq::<TimedNote>::empty());
        assert(s.skip(0) =~= s);
    } else {
        assert(s[0].time_us <= x.time_us);
        assert(forall|m: int| 0 <= m < s.skip(1).len() ==> #[trigger] s.skip(1)[m] == s[m + 1]);
        lemma_insert_at_index(s.skip(1), x, p - 1);
        assert(insert_note(s, x) == seq![s[0]] + insert_note(s.skip(1), x));
    }
}

/// Inserting into a sorted sequence keeps it sorted and lengthens it by one.
pub proof fn lemma_insert_sorted(s: Seq<TimedNote>, x: TimedNote)
    requires
        time_sorted(s),
    ensures
        time_sorted(insert_note(s, x)),
        insert_note(s, x).len() == s.len() + 1,
        insert_note(s, x) == s.take(insert_pos(s, x)) + seq![x] + s.skip(insert_pos(s, x)),
{
    let p = insert_pos(s, x);
    lemma_insert_pos_bounds(s, x);
    lemma_insert_at_index(s, x, p);
    let r = insert_note(s, x);
    assert forall|i: int, j: int| 0 <= i <= j < r.len() implies r[i].time_us
        <= r[j].time_us by {
        let vi = if i < p {
            s[i]
        } else if i == p {
            x
        } else {
            s[i - 1]
        };
        let vj = if j < p {
            s[j]
        } else if j == p {
            x
        } else {
            s[j - 1]
        };
        assert(r[i] == vi);
        assert(r[j] == vj);
    }
}

/// Insertion is stable: among the notes of any one time, an inserted note
/// goes last, and every other time's notes are untouched.
pub proof fn lemma_insert_stable(s: Seq<TimedNote>, x: TimedNote, t: u64)
    requires
        time_sorted(s),
    ensures
        notes_at(insert_note(s, x), t) == (if x.time_us == t {
            notes_at(s, t).push(x)
        } else {
            notes_at(s, t)
        }),
{
    broadcast use vstd::seq_lib::group_filter_ensures;

    let pred = |n: TimedNote| n.time_us == t;
    let p = insert_pos(s, x);
    lemma_insert_pos_bounds(s, x);
    lemma_insert_at_index(s, x, p);
    reveal(Seq::filter);
    assert(Seq::<TimedNote>::empty().filter(pred) =~= Seq::<TimedNote>::empty());
    assert(seq![x].drop_last() =~= Seq::<TimedNote>::empty());
    assert(seq![x].filter(pred) == (if pred(x) {
        Seq::<TimedNote>::empty().push(x)
    } else {
        Seq::<TimedNote>::empty()
    }));
    Seq::filter_distributes_over_add(s.take(p), seq![x], pred);
    Seq::filter_distributes_over_add(s.take(p) + seq![x], s.skip(p), pred);
    Seq::filter_distributes_over_add(s.take(p), s.skip(p), pred);
    assert(s.take(p) + s.skip(p) =~= s);
    if x.time_us == t {
        assert(s.skip(p).all(|n: TimedNote| !pred(n))) by {
            assert(forall|m: int|
                0 <= m < s.skip(p).len() ==> (#[trigger] s.skip(p)[m]).time_us > x.time_us);
        }
        s.skip(p).lemma_all_neg_filter_empty(pred);
        assert(s.skip(p).filter(pred) =~= Seq::<TimedNote>::empty());
        assert(notes_at(insert_note(s, x), t) =~= notes_at(s, t).push(x));
    } else {
        assert(notes_at(insert_note(s, x), t) =~= notes_at(s, t));
    }
}

/// Sorting sorts: the stable sort yields a time-sorted sequence of the same
/// length.
pub proof fn lemma_sort_sorted(s: Seq<TimedNote>)
    ensures
        time_sorted(sort_notes(s)),
        sort_notes(s).len() == s.len(),
    decreases s.len(),
{
    if s.len() > 0 {
        lemma_sort_sorted(s.drop_last());
        lemma_insert_sorted(sort_notes(s.drop_last()), s.last());
    }
}

/// Merge-mode assembly is stable: for every time value, the notes carrying
/// it appear in the sorted output exactly as they appear in the input.
pub proof fn lemma_sort_stable(s: Seq<TimedNote>, t: u64)
    ensures
        notes_at(sort_notes(s), t) == notes_at(s, t),
    decreases s.len(),
{
    if s.len() > 0 {
        let butlast = s.drop_last();
        lemma_sort_stable(butlast, t);
        lemma_sort_sorted(butlast);
        lemma_insert_stable(sort_notes(butlast), s.last(), t);
        let pred = |n: TimedNote| n.time_us == t;
        reveal(Seq::filter);
        assert(notes_at(s, t) == (if pred(s.last()) {
            notes_at(butlast, t).push(s.last())
        } else {
            notes_at(butlast, t)
        }));
    }
}

/// Sorts notes by time, stably: equal times keep their input order.
fn sort_by_time(notes: Vec<TimedNote>) -> (r: Vec<TimedNote>)
    ensures
        r@ == sort_notes(notes@),
        time_sorted(r@),
{
    let ghost nv = notes@;
    let mut r: Vec<TimedNote> = Vec::new();
    let mut i: usize = 0;
    proof {
        assert(nv.take(0) =~= Seq::<TimedNote>::empty());
    }
    while i < notes.len()
        invariant
            i <= notes.len(),
            nv == notes@,
            r@ == sort_notes(nv.take(i as int)),
            time_sorted(r@),
        decreases notes.len() - i,
    {
        let ghost prev = r@;
        let x = notes[i];
        let mut p: usize = r.len();
        while p > 0 && r[p - 1].time_us > x.time_us
            invariant
                p <= r.len(),
                time_sorted(r@),
                forall|m: int| p <= m < r@.len() ==> (#[trigger] r@[m]).time_us > x.time_us,
            decreases p,
        {
            p = p - 1;
        }
        proof {
            assert(forall|m: int| 0 <= m < p ==> (#[trigger] prev[m]).time_us <= x.time_us);
            lemma_insert_at_index(prev, x, p as int);
            lemma_insert_sorted(prev, x);
            assert(nv.take(i as int + 1).drop_last() =~= nv.take(i as int));
            assert(nv.take(i as int + 1).last() == nv[i as int]);
        }
        r.insert(p, x);
        proof {
            assert(r@ =~= prev.take(p as int) + seq![x] + prev.skip(p as int));
            assert(r@ == sort_notes(nv.take(i as int + 1)));
        }
        i = i + 1;
    }
    proof {
        assert(nv.take(nv.len() as int) =~= nv);
    }
    r
}

/// Assembles per-track note sequences into playback groups: merge modes
/// yield one group, the stable time-sort of all tracks flattened in order;
/// sequential mode keeps every track as its own group, untouched.
pub fn assemble(format: ScoreFormat, tracks: Vec<Vec<TimedNote>>) -> (r: Vec<Vec<TimedNote>>)
    ensures
        !(format is Sequential) ==> r@.len() == 1 && r@[0]@ == sort_notes(
            note_track_views(tracks@).flatten(),
        ) && time_sorted(r@[0]@),
        format is Sequential ==> r == tracks,
{
    match format {
        ScoreFormat::Sequential => tracks,
        _ => {
            let ghost views = note_track_views(tracks@);
            let mut merged: Vec<TimedNote> = Vec::new();
            let mut i: usize = 0;
            proof {
                assert(views.take(0) =~= Seq::<Seq<TimedNote>>::empty());
                assert(Seq::<Seq<TimedNote>>::empty().flatten() =~= Seq::<TimedNote>::empty());
            }
            while i < tracks.len()
                invariant
                    i <= tracks.len(),
                    views == note_track_views(tracks@),
                    merged@ == views.take(i as int).flatten(),
                decreases tracks.len() - i,
            {
                let ghost before = merged@;
                let track = &tracks[i];
                let mut j: usize = 0;
                while j < track.len()
                    invariant
                        j <= track.len(),
                        i < tracks.len(),
                        track@ == views[i as int],
                        views == note_track_views(tracks@),
                        merged@ == before + track@.take(j as int),
                    decreases track.len() - j,
                {
                    merged.push(track[j]);
                    proof {
                        assert(before + track@.take(j as int + 1) =~= (before + track@.take(
                            j as int,
                        )).push(track@[j as int]));
                    }
                    j = j + 1;
                }
                proof {
                    assert(track@.take(track@.len() as int) =~= track@);
                    assert(views.take(i as int + 1) =~= views.take(i as int).push(views[i as int]));
                    views.take(i as int).lemma_flatten_push(views[i as int]);
                }
                i = i + 1;
            }
            proof {
                assert(views.take(views.len() as int) =~= views);
            }
            let sorted = sort_by_time(merged);
            let mut r: Vec<Vec<TimedNote>> = Vec::new();
            r.push(sorted);
            r
        },
    }
}

} // verus!
