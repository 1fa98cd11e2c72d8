//! The queue window: turning a ranking into queued tracks with metadata, and
//! appending to a session.
use vstd::prelude::*;

use crate::bindings::{cache_contents, cache_get, cache_insert, MetadataCache};
use crate::providers::ai::{candidates_view, ranking_view, Candidate, CandidateView, RankedTrack, RankedView};
use crate::state::{queue_view, Pool, QueuedTrack, QueuedView, RadioSession, TrackMetadata, TrackView};
use crate::text::{
    chars_of, find_last, has_prefix, last_index_of, lemma_last_index_of, owned, slice_string, starts_with_chars,
};

verus! {

/// At most this many ranked tracks fill a queue.
pub const WINDOW_SIZE: usize = 20;

/// The track id inside a candidate id: what follows the last `|`, or the whole
/// id when it has none.
pub open spec fn track_id_of(candidate_id: Seq<char>) -> Seq<char> {
    match last_index_of(candidate_id, '|') {
        Some(i) => candidate_id.subrange(i + 1, candidate_id.len() as int),
        None => candidate_id,
    }
}

/// The pool a candidate id names by its prefix.
pub open spec fn pool_of_id(candidate_id: Seq<char>) -> Pool {
    if has_prefix(candidate_id, "disc|"@) {
        Pool::Discovery
    } else if has_prefix(candidate_id, "nr|"@) {
        Pool::NewRelease
    } else {
        Pool::Familiar
    }
}

/// The last candidate with id `id`.
pub open spec fn last_candidate(cands: Seq<CandidateView>, id: Seq<char>) -> Option<CandidateView>
    decreases cands.len(),
{
    if cands.len() == 0 {
        None
    } else if cands.last().id == id {
        Some(cands.last())
    } else {
        last_candidate(cands.drop_last(), id)
    }
}

/// Metadata of a track nothing is known about.
pub open spec fn unknown_track(id: Seq<char>) -> TrackView {
    TrackView {
        id,
        title: "Unknown"@,
        artist: "Unknown"@,
        artist_id: None,
        album: "Unknown"@,
        album_id: None,
        duration: None,
        image_url: None,
    }
}

/// The metadata of a ranked candidate: from the candidate when it is one of
/// `cands`, else from the cache, else unknown.
pub open spec fn metadata_for(candidate_id: Seq<char>, cands: Seq<CandidateView>, cache: Map<Seq<char>, TrackView>) -> TrackView {
    let tid = track_id_of(candidate_id);
    match last_candidate(cands, candidate_id) {
        Some(c) => TrackView {
            id: tid,
            title: c.track_title,
            artist: c.artist_name,
            artist_id: None,
            album: c.album,
            album_id: None,
            duration: c.duration,
            image_url: c.image_url,
        },
        None => if cache.contains_key(tid) {
            cache[tid]
        } else {
            unknown_track(tid)
        },
    }
}

/// The queue a ranking gives, and the cache afterwards: each ranked
/// candidate in turn becomes a queued track, and its metadata is cached
/// under its track id.
pub open spec fn hydrate(
    ranked: Seq<RankedView>,
    cands: Seq<CandidateView>,
    cache: Map<Seq<char>, TrackView>,
) -> (Seq<QueuedView>, Map<Seq<char>, TrackView>)
    decreases ranked.len(),
{
    if ranked.len() == 0 {
        (Seq::empty(), cache)
    } else {
        let (q, c) = hydrate(ranked.drop_last(), cands, cache);
        let cid = ranked.last().candidate_id;
        let tid = track_id_of(cid);
        let m = metadata_for(cid, cands, c);
        (q.push(QueuedView { track_id: tid, pool: pool_of_id(cid), metadata: m }), c.insert(tid, m))
    }
}

/// The track id inside a candidate id.
pub fn track_id_from_candidate(candidate_id: &str) -> (r: String)
    ensures
        r@ == track_id_of(candidate_id@),
{
    let v = chars_of(candidate_id);
    let n = v.len();
    match find_last(v.as_slice(), '|') {
        Some(i) => slice_string(v.as_slice(), i + 1, n),
        None => owned(candidate_id),
    }
}

/// The pool a candidate id names.
pub fn pool_from_candidate(candidate_id: &str) -> (r: Pool)
    ensures
        r == pool_of_id(candidate_id@),
{
    let v = chars_of(candidate_id);
    let disc = chars_of("disc|");
    let nr = chars_of("nr|");
    if starts_with_chars(v.as_slice(), disc.as_slice()) {
        Pool::Discovery
    } else if starts_with_chars(v.as_slice(), nr.as_slice()) {
        Pool::NewRelease
    } else {
        Pool::Familiar
    }
}

/// The index of the last candidate with id `id`.
fn find_candidate(cands: &[Candidate], id: &String) -> (r: Option<usize>)
    ensures
        match r {
            Some(i) => i < cands@.len() && last_candidate(candidates_view(cands@), id@) == Some(cands@[i as int]@),
            None => last_candidate(candidates_view(cands@), id@) is None,
        },
{
    let ghost cv = candidates_view(cands@);
    let mut i = cands.len();
    assert(cv.take(i as int) == cv);
    while i > 0
        invariant
            i <= cands@.len(),
            cv == candidates_view(cands@),
            last_candidate(cv, id@) == last_candidate(cv.take(i as int), id@),
        decreases i,
    {
        assert(cv.take(i as int).last() == cands@[i - 1]@);
        assert(cv.take(i as int).drop_last() == cv.take(i - 1));
        if cands[i - 1].id == *id {
            return Some(i - 1);
        }
        i = i - 1;
    }
    None
}

/// Metadata of a track nothing is known about.
fn unknown_metadata(id: String) -> (r: TrackMetadata)
    ensures
        r@ == unknown_track(id@),
{
    TrackMetadata {
        id,
        title: owned("Unknown"),
        artist: owned("Unknown"),
        artist_id: None,
        album: owned("Unknown"),
        album_id: None,
        duration: None,
        image_url: None,
    }
}

/// Turns the first `WINDOW_SIZE` ranked candidates into queued tracks,
/// caching the metadata of each.
pub fn hydrate_queue(ranked: Vec<RankedTrack>, candidates: &[Candidate], cache: &mut MetadataCache) -> (r: std::collections::VecDeque<QueuedTrack>)
    ensures
        ({
            let window = ranking_view(ranked@).take(
                if ranked@.len() < WINDOW_SIZE { ranked@.len() as int } else { WINDOW_SIZE as int },
            );
            let (q, c) = hydrate(window, candidates_view(candidates@), cache_contents(*old(cache)));
            &&& queue_view(r@) == q
            &&& cache_contents(*final(cache)) == c
        }),
        r@.len() == if ranked@.len() < WINDOW_SIZE { ranked@.len() } else { WINDOW_SIZE as nat },
{
    let ghost rv = ranking_view(ranked@);
    let ghost cv = candidates_view(candidates@);
    let ghost cache0 = cache_contents(*cache);
    let n = if ranked.len() < WINDOW_SIZE {
        ranked.len()
    } else {
        WINDOW_SIZE
    };
    let mut queue: std::collections::VecDeque<QueuedTrack> = std::collections::VecDeque::new();
    for k in 0..n
        invariant
            n <= ranked@.len(),
            rv == ranking_view(ranked@),
            cv == candidates_view(candidates@),
            (queue_view(queue@), cache_contents(*cache)) == hydrate(rv.take(k as int), cv, cache0),
    {
        let r = &ranked[k];
        let ghost prefix = rv.take(k + 1);
        assert(prefix.drop_last() == rv.take(k as int));
        assert(prefix.last() == r@);
        let track_id = track_id_from_candidate(r.candidate_id.as_str());
        let metadata = match find_candidate(candidates, &r.candidate_id) {
            Some(i) => {
                let c = &candidates[i];
                TrackMetadata {
                    id: track_id.clone(),
                    title: c.track_title.clone(),
                    artist: c.artist_name.clone(),
                    artist_id: None,
                    album: c.album.clone(),
                    album_id: None,
                    duration: c.duration,
                    image_url: crate::state::clone_opt_string(&c.image_url),
                }
            },
            None => match cache_get(cache, track_id.as_str()) {
                Some(m) => m,
                None => unknown_metadata(track_id.clone()),
            },
        };
        cache_insert(cache, track_id.clone(), metadata.duplicate());
        let pool = pool_from_candidate(r.candidate_id.as_str());
        let ghost before = queue_view(queue@);
        let item = QueuedTrack { track_id, pool, metadata };
        queue.push_back(item);
        assert(queue_view(queue@) == before.push(item@));
    }
    proof {
        assert(rv.take(n as int).len() == n);
        lemma_hydrate(rv.take(n as int), cv, cache0);
        assert(queue_view(queue@).len() == queue@.len());
    }
    queue
}

/// Appends tracks to the end of a session's queue.
pub fn append_to_session(session: &mut RadioSession, tracks: Vec<QueuedTrack>)
    ensures
        queue_view(final(session).queue@) == queue_view(old(session).queue@) + queue_view(tracks@),
        final(session).history == old(session).history,
        final(session).id == old(session).id,
        final(session).theme_input == old(session).theme_input,
        final(session).theme_tags == old(session).theme_tags,
        final(session).target == old(session).target,
{
    let ghost start = queue_view(session.queue@);
    for i in 0..tracks.len()
        invariant
            queue_view(session.queue@) == start + queue_view(tracks@.take(i as int)),
            session.history == old(session).history,
            session.id == old(session).id,
            session.theme_input == old(session).theme_input,
            session.theme_tags == old(session).theme_tags,
            session.target == old(session).target,
    {
        let ghost before = queue_view(session.queue@);
        let t = tracks[i].clone_track();
        session.queue.push_back(t);
        assert(queue_view(session.queue@) == before.push(t@));
        assert(queue_view(tracks@.take(i + 1)) == queue_view(tracks@.take(i as int)).push(tracks@[i as int]@));
    }
    assert(tracks@.take(tracks@.len() as int) == tracks@);
}


/// The queue a ranking gives has one track per ranked entry, in ranking
/// order: the entry's track id and pool, and the candidate's own metadata
/// whenever the entry names a candidate (the cache is then not consulted).
/// Afterwards the cache knows every queued track.
pub proof fn lemma_hydrate(ranked: Seq<RankedView>, cands: Seq<CandidateView>, cache: Map<Seq<char>, TrackView>)
    ensures
        hydrate(ranked, cands, cache).0.len() == ranked.len(),
        forall|i: int| 0 <= i < ranked.len() ==> {
            let q = #[trigger] hydrate(ranked, cands, cache).0[i];
            let cid = ranked[i].candidate_id;
            &&& q.track_id == track_id_of(cid)
            &&& q.pool == pool_of_id(cid)
            &&& last_candidate(cands, cid) is Some ==> q.metadata == metadata_for(cid, cands, Map::empty())
            &&& hydrate(ranked, cands, cache).1.contains_key(q.track_id)
        },
    decreases ranked.len(),
{
    if ranked.len() > 0 {
        let p = ranked.drop_last();
        lemma_hydrate(p, cands, cache);
        let (q0, c0) = hydrate(p, cands, cache);
        let (q1, c1) = hydrate(ranked, cands, cache);
        assert forall|i: int| 0 <= i < ranked.len() implies {
            let q = #[trigger] hydrate(ranked, cands, cache).0[i];
            let cid = ranked[i].candidate_id;
            &&& q.track_id == track_id_of(cid)
            &&& q.pool == pool_of_id(cid)
            &&& last_candidate(cands, cid) is Some ==> q.metadata == metadata_for(cid, cands, Map::empty())
            &&& hydrate(ranked, cands, cache).1.contains_key(q.track_id)
        } by {
            if i < p.len() {
                assert(q1[i] == q0[i]);
                assert(ranked[i] == p[i]);
            }
        }
    }
}

proof fn lemma_last_candidate_at(cands: Seq<CandidateView>, id: Seq<char>, j: int)
    requires
        0 <= j < cands.len(),
        cands[j].id == id,
        forall|k: int| j < k < cands.len() ==> cands[k].id != id,
    ensures
        last_candidate(cands, id) == Some(cands[j]),
    decreases cands.len(),
{
    if j < cands.len() - 1 {
        let p = cands.drop_last();
        assert(cands[cands.len() - 1].id != id);
        assert(p[j] == cands[j]);
        lemma_last_candidate_at(p, id, j);
    }
}

/// A queued track named after a candidate carries that candidate's own
/// metadata, whatever the cache holds: the title, artist, album, duration and
/// image of the last candidate with the ranked id, the track id taken from
/// the candidate id, and no artist or album id. The queue has one track per
/// ranked entry, in ranking order.
pub proof fn lemma_queue_metadata_from_candidates(
    ranked: Seq<RankedView>,
    cands: Seq<CandidateView>,
    cache: Map<Seq<char>, TrackView>,
    i: int,
    j: int,
)
    requires
        0 <= i < ranked.len(),
        0 <= j < cands.len(),
        cands[j].id == ranked[i].candidate_id,
        forall|k: int| j < k < cands.len() ==> cands[k].id != ranked[i].candidate_id,
    ensures
        hydrate(ranked, cands, cache).0.len() == ranked.len(),
        ({
            let m = hydrate(ranked, cands, cache).0[i].metadata;
            &&& m.id == track_id_of(ranked[i].candidate_id)
            &&& m.title == cands[j].track_title
            &&& m.artist == cands[j].artist_name
            &&& m.album == cands[j].album
            &&& m.duration == cands[j].duration
            &&& m.image_url == cands[j].image_url
            &&& m.artist_id is None
            &&& m.album_id is None
        }),
{
    lemma_hydrate(ranked, cands, cache);
    lemma_last_candidate_at(cands, ranked[i].candidate_id, j);
    let q = hydrate(ranked, cands, cache).0[i];
    assert(q.metadata == metadata_for(ranked[i].candidate_id, cands, Map::empty()));
}

/// The track id inside a candidate id is the part after its last `|`: for a
/// prefix `p` and a track id `t` without `|`, the candidate id `p|t` names
/// track `t`, and `t` alone names itself. The prefixes `disc|` and `nr|`
/// name the discovery and new-release pools.
pub proof fn lemma_candidate_id_parts(p: Seq<char>, t: Seq<char>)
    requires
        forall|k: int| 0 <= k < t.len() ==> t[k] != '|',
    ensures
        track_id_of(p + "|"@ + t) == t,
        track_id_of(t) == t,
        pool_of_id("disc|"@ + p) == Pool::Discovery,
        pool_of_id("nr|"@ + p) == Pool::NewRelease,
{
    reveal_strlit("|");
    reveal_strlit("disc|");
    reveal_strlit("nr|");
    let s = p + "|"@ + t;
    lemma_last_index_of(s, '|');
    lemma_last_index_of(t, '|');
    assert(s[p.len() as int] == '|');
    assert forall|j: int| p.len() < j < s.len() implies s[j] != '|' by {
        assert(s[j] == t[j - p.len() - 1]);
    }
    assert(s.subrange(p.len() as int + 1, s.len() as int) =~= t);
    assert(("disc|"@ + p).subrange(0, 5) =~= "disc|"@);
    assert(("nr|"@ + p).subrange(0, 3) =~= "nr|"@);
    let q = "nr|"@ + p;
    assert(!has_prefix(q, "disc|"@)) by {
        if has_prefix(q, "disc|"@) {
            assert(q.subrange(0, 5)[0] == q[0]);
            assert("disc|"@[0] == 'd');
        }
    }
}

proof fn lemma_hydrate_prefix(ranked: Seq<RankedView>, cands: Seq<CandidateView>, cache: Map<Seq<char>, TrackView>, i: int)
    requires
        0 <= i < ranked.len(),
    ensures
        hydrate(ranked, cands, cache).0.len() == ranked.len(),
        hydrate(ranked, cands, cache).0[i].metadata == metadata_for(
            ranked[i].candidate_id,
            cands,
            hydrate(ranked.take(i), cands, cache).1,
        ),
    decreases ranked.len(),
{
    lemma_hydrate(ranked, cands, cache);
    let p = ranked.drop_last();
    if i == ranked.len() - 1 {
        assert(ranked.take(i) == p);
    } else {
        lemma_hydrate(p, cands, cache);
        lemma_hydrate_prefix(p, cands, cache, i);
        assert(p.take(i) == ranked.take(i));
        assert(p[i] == ranked[i]);
        assert(hydrate(ranked, cands, cache).0[i] == hydrate(p, cands, cache).0[i]);
    }
}

proof fn lemma_hydrate_cache_untouched(ranked: Seq<RankedView>, cands: Seq<CandidateView>, cache: Map<Seq<char>, TrackView>, x: Seq<char>)
    requires
        forall|i: int| 0 <= i < ranked.len() ==> track_id_of(#[trigger] ranked[i].candidate_id) != x,
    ensures
        hydrate(ranked, cands, cache).1.contains_key(x) == cache.contains_key(x),
        cache.contains_key(x) ==> hydrate(ranked, cands, cache).1[x] == cache[x],
    decreases ranked.len(),
{
    if ranked.len() > 0 {
        let p = ranked.drop_last();
        assert forall|i: int| 0 <= i < p.len() implies track_id_of(#[trigger] p[i].candidate_id) != x by {
            assert(p[i] == ranked[i]);
        }
        assert(track_id_of(ranked[ranked.len() - 1].candidate_id) != x);
        lemma_hydrate_cache_untouched(p, cands, cache, x);
    }
}

/// A ranked entry that names no candidate takes its metadata from the cache
/// when the cache knows its track (and no earlier entry of the ranking
/// queued that track); otherwise it is an unknown track: title, artist and
/// album "Unknown", no duration or image, under its track id.
pub proof fn lemma_queue_metadata_without_candidate(
    ranked: Seq<RankedView>,
    cands: Seq<CandidateView>,
    cache: Map<Seq<char>, TrackView>,
    i: int,
)
    requires
        0 <= i < ranked.len(),
        forall|j: int| 0 <= j < cands.len() ==> #[trigger] cands[j].id != ranked[i].candidate_id,
        forall|k: int| 0 <= k < i ==> track_id_of(#[trigger] ranked[k].candidate_id) != track_id_of(ranked[i].candidate_id),
    ensures
        hydrate(ranked, cands, cache).0.len() == ranked.len(),
        ({
            let tid = track_id_of(ranked[i].candidate_id);
            let m = hydrate(ranked, cands, cache).0[i].metadata;
            &&& cache.contains_key(tid) ==> m == cache[tid]
            &&& !cache.contains_key(tid) ==> m == TrackView {
                id: tid,
                title: "Unknown"@,
                artist: "Unknown"@,
                artist_id: None,
                album: "Unknown"@,
                album_id: None,
                duration: None,
                image_url: None,
            }
        }),
{
    let tid = track_id_of(ranked[i].candidate_id);
    lemma_hydrate_prefix(ranked, cands, cache, i);
    let pre = ranked.take(i);
    assert forall|k: int| 0 <= k < pre.len() implies track_id_of(#[trigger] pre[k].candidate_id) != tid by {
        assert(pre[k] == ranked[k]);
    }
    lemma_hydrate_cache_untouched(pre, cands, cache, tid);
    lemma_no_candidate(cands, ranked[i].candidate_id);
}

proof fn lemma_no_candidate(cands: Seq<CandidateView>, id: Seq<char>)
    requires
        forall|j: int| 0 <= j < cands.len() ==> #[trigger] cands[j].id != id,
    ensures
        last_candidate(cands, id) is None,
    decreases cands.len(),
{
    if cands.len() > 0 {
        let p = cands.drop_last();
        assert(cands[cands.len() - 1].id != id);
        assert forall|j: int| 0 <= j < p.len() implies #[trigger] p[j].id != id by {
            assert(p[j] == cands[j]);
        }
        lemma_no_candidate(p, id);
    }
}

} // verus!
