//! The DJ mode refills the queue with related tracks.
//!
//! The sources are tried in turn: tracks similar to the current one, then
//! songs of the same artist, then random songs. A later source is asked only
//! when the earlier one brought nothing new. Candidates already in the queue,
//! and repeated candidates, are dropped.
use crate::api::models::{Child, is_playable};
use crate::playback::engine::{TrackMeta, describes_child, track_ids};
use crate::text::{contains_text, texts};
use vstd::string::StrSliceExecFns;
use std::collections::HashSet;
use vstd::prelude::*;

verus! {

/// The queue is refilled when fewer tracks than this follow the current one.
pub const DJ_REFILL_AT: usize = 10;

/// How many candidates one refill adds at most.
pub const DJ_BATCH: usize = 25;

/// How many candidates are asked of the server (some servers answer nothing
/// below 14).
pub const DJ_SERVER_COUNT: u32 = 50;

/// `HashSet::contains` on a set of ids: whether one of them is `id`.
#[verifier::external_body]
fn set_has(set: &HashSet<String>, id: &str) -> (r: bool)
    ensures
        r == set@.map(|s: String| s@).contains(id@),
{
    set.contains(id)
}

/// The candidates that survive: in their order, each one whose id is not
/// excluded and did not come earlier.
pub open spec fn deduped(c: Seq<TrackMeta>, excluded: Set<Seq<char>>) -> Seq<TrackMeta>
    decreases c.len(),
{
    if c.len() == 0 {
        Seq::empty()
    } else {
        let kept = deduped(c.drop_last(), excluded);
        let id = c.last().id@;
        if excluded.contains(id) || track_ids(kept).contains(id) {
            kept
        } else {
            kept.push(c.last())
        }
    }
}

/// The ids of a set of strings.
pub open spec fn id_set(s: Set<String>) -> Set<Seq<char>> {
    s.map(|x: String| x@)
}

/// Drops the candidates whose id is excluded and the repeats, keeping the
/// order of the rest.
pub fn filter_dedupe(candidates: Vec<TrackMeta>, exclude: &HashSet<String>) -> (r: Vec<TrackMeta>)
    ensures
        r@ == deduped(candidates@, id_set(exclude@)),
{
    let ghost ex = id_set(exclude@);
    let mut out: Vec<TrackMeta> = Vec::new();
    let mut seen: Vec<String> = Vec::new();
    let mut i: usize = 0;
    while i < candidates.len()
        invariant
            i <= candidates@.len(),
            ex == id_set(exclude@),
            out@ == deduped(candidates@.subrange(0, i as int), ex),
            texts(seen@) == track_ids(out@),
        decreases candidates@.len() - i,
    {
        let t = &candidates[i];
        let ghost pre = candidates@.subrange(0, i as int);
        assert(candidates@.subrange(0, i + 1).drop_last() == pre);
        let dropped = set_has(exclude, t.id.as_str()) || contains_text(&seen, t.id.as_str());
        if !dropped {
            let ghost seen0 = seen@;
            let ghost out0 = out@;
            let id = t.id.clone();
            seen.push(id);
            out.push(t.clone());
            assert(texts(seen@) =~= track_ids(out@)) by {
                assert(seen@ == seen0.push(id));
                assert(out@ == out0.push(*t));
                assert(texts(seen0).len() == seen0.len());
                assert(track_ids(out0).len() == out0.len());
                assert forall|k: int| 0 <= k < seen@.len() implies texts(seen@)[k] == track_ids(
                    out@,
                )[k] by {
                    assert(texts(seen@)[k] == seen@[k]@);
                    assert(track_ids(out@)[k] == out@[k].id@);
                    if k < seen0.len() {
                        assert(texts(seen0)[k] == seen0[k]@);
                        assert(track_ids(out0)[k] == out0[k].id@);
                    }
                }
            }
        }
        i = i + 1;
    }
    assert(candidates@.subrange(0, candidates@.len() as int) == candidates@);
    out
}

/// `m` is what the player knows of the playable entries of `children`, in
/// their order.
pub open spec fn metas_of(m: Seq<TrackMeta>, children: Seq<Child>) -> bool {
    let p = children.filter(|c: Child| is_playable(c));
    &&& m.len() == p.len()
    &&& forall|k: int| 0 <= k < m.len() ==> describes_child(#[trigger] m[k], p[k])
}

/// The tracks of the playable entries (folders are dropped), in their order.
pub fn to_metas(children: Vec<Child>) -> (r: Vec<TrackMeta>)
    ensures
        metas_of(r@, children@),
{
    let ghost pred = |c: Child| is_playable(c);
    let mut out: Vec<TrackMeta> = Vec::new();
    let mut i: usize = 0;
    while i < children.len()
        invariant
            i <= children@.len(),
            pred == (|c: Child| is_playable(c)),
            out@.len() == children@.subrange(0, i as int).filter(pred).len(),
            forall|k: int|
                0 <= k < out@.len() ==> describes_child(
                    #[trigger] out@[k],
                    children@.subrange(0, i as int).filter(pred)[k],
                ),
        decreases children@.len() - i,
    {
        proof {
            children@.subrange(0, i as int).lemma_filter_push(children@[i as int], pred);
            assert(children@.subrange(0, i + 1) == children@.subrange(0, i as int).push(
                children@[i as int],
            ));
        }
        let dir = match children[i].is_dir {
            Some(d) => d,
            None => false,
        };
        if !dir {
            out.push(TrackMeta::from_child(&children[i]));
        }
        i = i + 1;
    }
    assert(children@.subrange(0, children@.len() as int) == children@);
    out
}

/// The sources of candidates, in the order they are tried.
#[derive(Debug, Clone, Copy, PartialEq, Eq, Structural)]
pub enum DjStep {
    /// Tracks similar to the current one.
    Similar,
    /// Songs of the artist of the current track.
    Artist,
    /// Random songs.
    Random,
}

/// The candidates of a refill and the source they came from.
#[derive(Debug)]
pub struct DjOutcome {
    pub tracks: Vec<TrackMeta>,
    pub source: DjStep,
}

/// What a refill does next.
#[derive(Debug)]
pub enum DjNext {
    /// Ask the server for the candidates of this source.
    Fetch(DjStep),
    /// The refill is over with these candidates.
    Done(DjOutcome),
}

/// The source tried after `step` brought nothing new, if any.
pub open spec fn source_after(step: DjStep, current: TrackMeta) -> Option<DjStep> {
    match step {
        DjStep::Similar => if current.artist@.len() > 0 {
            Some(DjStep::Artist)
        } else {
            Some(DjStep::Random)
        },
        DjStep::Artist => Some(DjStep::Random),
        DjStep::Random => None,
    }
}

/// One step of a refill, as `collect_step` takes it: the answer `fetched`
/// for `step`, reduced to new playable tracks (none of `excluded`), ends the
/// refill when it holds any or no source is left, else the next source is
/// asked for.
pub open spec fn refill_stepped(
    step: DjStep,
    current: TrackMeta,
    fetched: Seq<Child>,
    excluded: Set<Seq<char>>,
    r: DjNext,
) -> bool {
    exists|m: Seq<TrackMeta>|
        #![trigger metas_of(m, fetched)]
        metas_of(m, fetched) && ({
            let fresh = deduped(m, excluded);
            match r {
                DjNext::Done(o) => {
                    &&& o.source == step
                    &&& o.tracks@ == fresh
                    &&& (fresh.len() > 0 || source_after(step, current) is None)
                },
                DjNext::Fetch(next) => {
                    &&& fresh.len() == 0
                    &&& source_after(step, current) == Some(next)
                },
            }
        })
}

/// The cascade of a refill: similar tracks first, then (for a track with an
/// artist) the artist's songs, then random songs. A source that brings
/// nothing new hands over to the next one, and only the random songs may end
/// a refill with no tracks.
pub proof fn lemma_refill_cascade(
    step: DjStep,
    current: TrackMeta,
    fetched: Seq<Child>,
    excluded: Set<Seq<char>>,
    r: DjNext,
)
    requires
        refill_stepped(step, current, fetched, excluded, r),
    ensures
        r matches DjNext::Done(o) ==> o.source == step,
        (r matches DjNext::Done(o) && o.tracks@.len() == 0) ==> step == DjStep::Random,
        step == DjStep::Random ==> r is Done,
        (step == DjStep::Similar && r is Fetch && current.artist@.len() > 0) ==> r == DjNext::Fetch(
            DjStep::Artist,
        ),
        (step == DjStep::Similar && r is Fetch && current.artist@.len() == 0) ==> r == DjNext::Fetch(
            DjStep::Random,
        ),
        (step == DjStep::Artist && r is Fetch) ==> r == DjNext::Fetch(DjStep::Random),
        (step != DjStep::Random && !(r matches DjNext::Done(o) && o.tracks@.len() > 0)) ==> r is Fetch,
{
}

/// The first thing a refill does: ask for similar tracks.
pub fn collect_start() -> (r: DjNext)
    ensures
        r == DjNext::Fetch(DjStep::Similar),
{
    DjNext::Fetch(DjStep::Similar)
}

/// One step of a refill for the current track: the server's answer for
/// `step` is reduced to new playable tracks; if there are any, or no source
/// is left, the refill is over, else the next source is asked.
pub fn collect_step(
    step: DjStep,
    current: &TrackMeta,
    fetched: Vec<Child>,
    exclude: &HashSet<String>,
) -> (r: DjNext)
    ensures
        refill_stepped(step, *current, fetched@, id_set(exclude@), r),
{
    let metas = to_metas(fetched);
    let ghost m = metas@;
    let fresh = filter_dedupe(metas, exclude);
    let r = if fresh.len() > 0 {
        DjNext::Done(DjOutcome { tracks: fresh, source: step })
    } else {
        match step {
            DjStep::Similar => {
                if current.artist.as_str().unicode_len() > 0 {
                    DjNext::Fetch(DjStep::Artist)
                } else {
                    DjNext::Fetch(DjStep::Random)
                }
            },
            DjStep::Artist => DjNext::Fetch(DjStep::Random),
            DjStep::Random => DjNext::Done(DjOutcome { tracks: fresh, source: step }),
        }
    };
    assert(metas_of(m, fetched@));
    r
}

// ---------- what the filter keeps ----------

/// No kept candidate has an excluded id.
pub proof fn lemma_deduped_excludes(c: Seq<TrackMeta>, excluded: Set<Seq<char>>)
    ensures
        forall|k: int|
            0 <= k < deduped(c, excluded).len() ==> !excluded.contains(
                #[trigger] deduped(c, excluded)[k].id@,
            ),
    decreases c.len(),
{
    if c.len() > 0 {
        lemma_deduped_excludes(c.drop_last(), excluded);
    }
}

/// No two kept candidates share an id.
pub proof fn lemma_deduped_unique(c: Seq<TrackMeta>, excluded: Set<Seq<char>>)
    ensures
        forall|j: int, k: int|
            0 <= j < k < deduped(c, excluded).len() ==> #[trigger] deduped(c, excluded)[j].id@
                != #[trigger] deduped(c, excluded)[k].id@,
    decreases c.len(),
{
    if c.len() > 0 {
        let kept = deduped(c.drop_last(), excluded);
        lemma_deduped_unique(c.drop_last(), excluded);
        let id = c.last().id@;
        if !(excluded.contains(id) || track_ids(kept).contains(id)) {
            let out = kept.push(c.last());
            assert forall|j: int, k: int| 0 <= j < k < out.len() implies out[j].id@ != out[k].id@ by {
                if k == out.len() - 1 {
                    assert(track_ids(kept)[j] == kept[j].id@);
                }
            }
        }
    }
}

/// Every candidate whose id is not excluded is kept, itself or an earlier
/// candidate with its id.
pub proof fn lemma_deduped_covers(c: Seq<TrackMeta>, excluded: Set<Seq<char>>)
    ensures
        forall|k: int|
            0 <= k < c.len() && !excluded.contains(#[trigger] c[k].id@) ==> track_ids(
                deduped(c, excluded),
            ).contains(c[k].id@),
    decreases c.len(),
{
    if c.len() > 0 {
        let d = c.drop_last();
        let kept = deduped(d, excluded);
        lemma_deduped_covers(d, excluded);
        let out = deduped(c, excluded);
        assert forall|k: int| 0 <= k < c.len() && !excluded.contains(#[trigger] c[k].id@) implies track_ids(
            out,
        ).contains(c[k].id@) by {
            if k < c.len() - 1 {
                assert(d[k] == c[k]);
                let w = choose|w: int| 0 <= w < track_ids(kept).len() && track_ids(kept)[w] == c[k].id@;
                assert(track_ids(out)[w] == c[k].id@);
            } else if !track_ids(kept).contains(c[k].id@) {
                assert(track_ids(out)[kept.len() as int] == c[k].id@);
            } else {
                let w = choose|w: int| 0 <= w < track_ids(kept).len() && track_ids(kept)[w] == c[k].id@;
                assert(track_ids(out)[w] == c[k].id@);
            }
        }
    }
}

/// Every kept track is one of the candidates.
pub proof fn lemma_deduped_from_candidates(c: Seq<TrackMeta>, excluded: Set<Seq<char>>)
    ensures
        forall|k: int| 0 <= k < deduped(c, excluded).len() ==> c.contains(#[trigger] deduped(c, excluded)[k]),
    decreases c.len(),
{
    if c.len() > 0 {
        let d = c.drop_last();
        lemma_deduped_from_candidates(d, excluded);
        let out = deduped(c, excluded);
        assert forall|k: int| 0 <= k < out.len() implies c.contains(#[trigger] out[k]) by {
            if k < deduped(d, excluded).len() {
                let w = choose|w: int| 0 <= w < d.len() && d[w] == out[k];
                assert(c[w] == out[k]);
            } else {
                assert(c[c.len() - 1] == out[k]);
            }
        }
    }
}

/// Candidates with distinct ids, none excluded, are all kept in their order.
pub proof fn lemma_deduped_keeps_unique(c: Seq<TrackMeta>, excluded: Set<Seq<char>>)
    requires
        forall|j: int, k: int| 0 <= j < k < c.len() ==> #[trigger] c[j].id@ != #[trigger] c[k].id@,
        forall|k: int| 0 <= k < c.len() ==> !excluded.contains(#[trigger] c[k].id@),
    ensures
        deduped(c, excluded) == c,
    decreases c.len(),
{
    if c.len() > 0 {
        let d = c.drop_last();
        assert forall|j: int, k: int| 0 <= j < k < d.len() implies #[trigger] d[j].id@ != #[trigger] d[k].id@ by {
            assert(d[j] == c[j] && d[k] == c[k]);
        }
        assert forall|k: int| 0 <= k < d.len() implies !excluded.contains(#[trigger] d[k].id@) by {
            assert(d[k] == c[k]);
        }
        lemma_deduped_keeps_unique(d, excluded);
        assert(!excluded.contains(c[c.len() - 1].id@));
        assert(!track_ids(d).contains(c.last().id@)) by {
            if track_ids(d).contains(c.last().id@) {
                let w = choose|w: int| 0 <= w < track_ids(d).len() && track_ids(d)[w] == c.last().id@;
                assert(d[w] == c[w]);
            }
        }
        assert(d.push(c.last()) =~= c);
    }
}

} // verus!
