//! Building the three candidate pools (familiar, new releases, discovery)
//! from search results and the taste profile.
use vstd::prelude::*;

use crate::bindings::{parse_date, parsed_date};
use crate::json::{filter_map, lemma_filter_map_keeps, lemma_filter_map_source, lemma_filter_map_step};
use crate::providers::ai::{candidates_view, Candidate, CandidateView};
use crate::state::{
    albums_view, artist_map, clone_strings, strings_view, tracks_view, unique_ids, AlbumEntry,
    AlbumView, ArtistEntry, Pool, TasteProfile, TrackMetadata, TrackView,
};
use crate::text::{concat3, concat4, join_seq, join_strings, owned};

verus! {

/// Fewer broad search results than this trigger the per-artist searches.
pub const MIN_SEARCH_RESULTS: usize = 10;

/// How many top artists the per-artist searches use.
pub const MAX_ARTIST_FALLBACKS: usize = 10;

/// Results asked of the broad search.
pub const BROAD_SEARCH_LIMIT: usize = 100;

/// Results asked of each per-artist search.
pub const ARTIST_SEARCH_LIMIT: usize = 10;

/// The format of release dates.
pub const RELEASE_DATE_FORMAT: &'static str = "%Y-%m-%d";

// ---------------------------------------------------------------------------
// Top artists
// ---------------------------------------------------------------------------

/// `idx` lists `min(limit, n)` distinct artists, by decreasing base weight,
/// and no artist left out weighs more than one listed.
pub open spec fn is_top_selection(entries: Seq<ArtistEntry>, idx: Seq<usize>, limit: nat) -> bool {
    &&& idx.len() == if limit < entries.len() {
        limit
    } else {
        entries.len()
    }
    &&& forall|k: int| 0 <= k < idx.len() ==> #[trigger] idx[k] < entries.len()
    &&& forall|k: int, l: int| 0 <= k < l < idx.len() ==> idx[k] != idx[l]
    &&& forall|k: int, l: int|
        0 <= k < l < idx.len() ==> entries[idx[k] as int].weight.base_weight >= entries[idx[l] as int].weight.base_weight
    &&& forall|j: int, k: int|
        #![trigger entries[j], idx[k]]
        0 <= j < entries.len() && 0 <= k < idx.len() && !idx.contains(j as usize) ==> entries[j].weight.base_weight
            <= entries[idx[k] as int].weight.base_weight
}

/// The indices of the (at most `limit`) heaviest artists, heaviest first.
pub fn top_artist_indices(entries: &Vec<ArtistEntry>, limit: usize) -> (r: Vec<usize>)
    ensures
        is_top_selection(entries@, r@, limit as nat),
{
    let n = entries.len();
    let count = if limit < n {
        limit
    } else {
        n
    };
    let mut chosen: Vec<bool> = Vec::new();
    for i in 0..n
        invariant
            chosen@.len() == i,
            forall|j: int| 0 <= j < i ==> !chosen@[j],
    {
        chosen.push(false);
    }
    let mut out: Vec<usize> = Vec::new();
    while out.len() < count
        invariant
            n == entries@.len(),
            count <= n,
            count == (if limit < n { limit } else { n }),
            out@.len() <= count,
            chosen@.len() == n,
            forall|k: int| 0 <= k < out@.len() ==> #[trigger] out@[k] < n,
            forall|k: int, l: int| 0 <= k < l < out@.len() ==> out@[k] != out@[l],
            forall|j: int| 0 <= j < n ==> (chosen@[j] <==> out@.contains(j as usize)),
            forall|k: int, l: int|
                0 <= k < l < out@.len() ==> entries@[out@[k] as int].weight.base_weight
                    >= entries@[out@[l] as int].weight.base_weight,
            forall|j: int, k: int|
                #![trigger chosen@[j], out@[k]]
                0 <= j < n && 0 <= k < out@.len() && !chosen@[j] ==> entries@[j].weight.base_weight
                    <= entries@[out@[k] as int].weight.base_weight,
        decreases count - out.len(),
    {
        // Fewer chosen than artists, so some artist is left.
        let mut best: Option<usize> = None;
        for j in 0..n
            invariant
                n == entries@.len(),
                chosen@.len() == n,
                match best {
                    Some(b) => b < j && !chosen@[b as int] && forall|m: int|
                        0 <= m < j && !chosen@[m] ==> entries@[m].weight.base_weight
                            <= entries@[b as int].weight.base_weight,
                    None => forall|m: int| 0 <= m < j ==> chosen@[m],
                },
        {
            if !chosen[j] {
                match best {
                    Some(b) => {
                        if entries[j].weight.base_weight > entries[b].weight.base_weight {
                            best = Some(j);
                        }
                    },
                    None => {
                        best = Some(j);
                    },
                }
            }
        }
        let b = match best {
            Some(b) => b,
            None => {
                proof {
                    // Every artist is chosen, yet fewer than `n` are listed.
                    lemma_missing_value(out@, n as nat);
                    let j = choose|j: usize| j < n && !out@.contains(j);
                    assert(chosen@[j as int]);
                }
                assert(false);
                0
            },
        };
        let ghost old_out = out@;
        out.push(b);
        chosen.set(b, true);
        assert forall|j: int| 0 <= j < n implies (chosen@[j] <==> out@.contains(j as usize)) by {
            if j == b {
                assert(out@[old_out.len() as int] == b);
            } else if old_out.contains(j as usize) {
                let k = choose|k: int| 0 <= k < old_out.len() && old_out[k] == j as usize;
                assert(out@[k] == j as usize);
            } else if out@.contains(j as usize) {
                let k = choose|k: int| 0 <= k < out@.len() && out@[k] == j as usize;
                if k < old_out.len() {
                    assert(old_out[k] == j as usize);
                }
            }
        }
        assert forall|k: int, l: int| 0 <= k < l < out@.len() implies out@[k] != out@[l] by {
            if l == old_out.len() {
                assert(chosen@[out@[k] as int] || old_out.contains(out@[k])) by {
                    assert(old_out[k] == out@[k]);
                }
            }
        }
    }
    assert forall|j: int, k: int|
        #![trigger entries@[j], out@[k]]
        0 <= j < entries@.len() && 0 <= k < out@.len() && !out@.contains(j as usize) implies entries@[j].weight.base_weight
            <= entries@[out@[k] as int].weight.base_weight by {
        assert(!chosen@[j]);
    }
    out
}

/// A list of fewer than `n` distinct values below `n` misses one of them.
proof fn lemma_missing_value(s: Seq<usize>, n: nat)
    requires
        forall|k: int, l: int| 0 <= k < l < s.len() ==> s[k] != s[l],
        forall|k: int| 0 <= k < s.len() ==> s[k] < n,
        s.len() < n,
        n <= usize::MAX,
    ensures
        exists|j: usize| j < n && !s.contains(j),
    decreases n,
{
    let top = (n - 1) as usize;
    if !s.contains(top) {
        assert(top < n && !s.contains(top));
    } else {
        let i = choose|i: int| 0 <= i < s.len() && s[i] == top;
        let s2 = s.remove(i);
        assert forall|k: int| 0 <= k < s2.len() implies s2[k] < (n - 1) as nat by {
            let o = if k < i { k } else { k + 1 };
            assert(s2[k] == s[o]);
            assert(s[o] != s[i]);
        }
        assert forall|k: int, l: int| 0 <= k < l < s2.len() implies s2[k] != s2[l] by {
            let ok = if k < i { k } else { k + 1 };
            let ol = if l < i { l } else { l + 1 };
            assert(s2[k] == s[ok]);
            assert(s2[l] == s[ol]);
        }
        lemma_missing_value(s2, (n - 1) as nat);
        let j = choose|j: usize| j < (n - 1) as nat && !s2.contains(j);
        assert(!s.contains(j)) by {
            if s.contains(j) {
                let k = choose|k: int| 0 <= k < s.len() && s[k] == j;
                assert(k != i);
                let m = if k < i { k } else { k - 1 };
                assert(s2[m] == j);
            }
        }
    }
}

/// The names of the heaviest artists of a profile, heaviest first.
pub fn top_artist_names(profile: &TasteProfile, limit: usize) -> (r: Vec<String>)
    ensures
        exists|idx: Seq<usize>| #[trigger]
            is_top_selection(profile.artists@, idx, limit as nat) && strings_view(r@) == idx.map_values(
                |i: usize| profile.artists@[i as int].weight.name@,
            ),
{
    let idx = top_artist_indices(&profile.artists, limit);
    let mut names: Vec<String> = Vec::new();
    for k in 0..idx.len()
        invariant
            is_top_selection(profile.artists@, idx@, limit as nat),
            strings_view(names@) == idx@.take(k as int).map_values(
                |i: usize| profile.artists@[i as int].weight.name@,
            ),
    {
        let i = idx[k];
        let ghost before = strings_view(names@);
        let name = profile.artists[i].weight.name.clone();
        names.push(name);
        assert(strings_view(names@) == before.push(name@));
        assert(idx@.take(k + 1) == idx@.take(k as int).push(i));
        assert(idx@.take(k + 1).map_values(|i: usize| profile.artists@[i as int].weight.name@) == idx@.take(
            k as int,
        ).map_values(|i: usize| profile.artists@[i as int].weight.name@).push(profile.artists@[i as int].weight.name@));
    }
    assert(idx@.take(idx@.len() as int) == idx@);
    names
}

// ---------------------------------------------------------------------------
// Searches
// ---------------------------------------------------------------------------

/// The search query of a theme: its tags joined by spaces.
pub fn theme_query(theme_tags: &Vec<String>) -> (r: String)
    ensures
        r@ == join_seq(strings_view(theme_tags@), " "@),
{
    join_strings(theme_tags.as_slice(), " ")
}

/// The per-artist searches to run after a broad search that found
/// `broad_count` tracks: none if it found enough, else one per top artist,
/// `"<artist> <query>"`.
pub fn fallback_queries(broad_count: usize, top_artists: &Vec<String>, query: &str) -> (r: Vec<String>)
    ensures
        broad_count >= MIN_SEARCH_RESULTS ==> r@.len() == 0,
        broad_count < MIN_SEARCH_RESULTS ==> strings_view(r@) == strings_view(top_artists@).map_values(
            |a: Seq<char>| a + " "@ + query@,
        ),
{
    let mut out: Vec<String> = Vec::new();
    if broad_count >= MIN_SEARCH_RESULTS {
        return out;
    }
    for i in 0..top_artists.len()
        invariant
            strings_view(out@) == strings_view(top_artists@.take(i as int)).map_values(
                |a: Seq<char>| a + " "@ + query@,
            ),
    {
        let q = concat3(top_artists[i].as_str(), " ", query);
        let ghost before = strings_view(out@);
        out.push(q);
        assert(strings_view(out@) == before.push(q@));
        assert(strings_view(top_artists@.take(i + 1)).map_values(|a: Seq<char>| a + " "@ + query@) == strings_view(
            top_artists@.take(i as int),
        ).map_values(|a: Seq<char>| a + " "@ + query@).push(top_artists@[i as int]@ + " "@ + query@));
        assert(strings_view(top_artists@.take(i + 1)) == strings_view(top_artists@.take(i as int)).push(
            top_artists@[i as int]@,
        ));
    }
    assert(top_artists@.take(top_artists@.len() as int) == top_artists@);
    out
}

// ---------------------------------------------------------------------------
// Pools
// ---------------------------------------------------------------------------

/// The tracks with repeated ids removed, each id kept at its first track.
pub open spec fn dedup_by_id(s: Seq<TrackView>) -> Seq<TrackView>
    decreases s.len(),
{
    if s.len() == 0 {
        Seq::empty()
    } else if exists|j: int| 0 <= j < s.len() - 1 && s[j].id == s.last().id {
        dedup_by_id(s.drop_last())
    } else {
        dedup_by_id(s.drop_last()).push(s.last())
    }
}

/// Removes tracks whose id was already seen.
pub fn dedup_tracks(tracks: &Vec<TrackMetadata>) -> (r: Vec<TrackMetadata>)
    ensures
        tracks_view(r@) == dedup_by_id(tracks_view(tracks@)),
{
    let ghost tv = tracks_view(tracks@);
    let mut out: Vec<TrackMetadata> = Vec::new();
    let mut seen: Vec<String> = Vec::new();
    for i in 0..tracks.len()
        invariant
            tv == tracks_view(tracks@),
            tracks_view(out@) == dedup_by_id(tv.take(i as int)),
            forall|id: Seq<char>| strings_view(seen@).contains(id) <==> exists|j: int| 0 <= j < i && #[trigger] tv[j].id == id,
    {
        let t = &tracks[i];
        let ghost ti = tv.take(i + 1);
        assert(ti.drop_last() == tv.take(i as int));
        assert(ti.last() == t@);
        let mut found = false;
        for k in 0..seen.len()
            invariant
                found <==> exists|m: int| 0 <= m < k && seen@[m]@ == t.id@,
        {
            if seen[k] == t.id {
                found = true;
            }
        }
        assert(found <==> strings_view(seen@).contains(t.id@)) by {
            if strings_view(seen@).contains(t.id@) {
                let m = choose|m: int| 0 <= m < seen@.len() && strings_view(seen@)[m] == t.id@;
                assert(seen@[m]@ == t.id@);
            }
            if found {
                let m = choose|m: int| 0 <= m < seen@.len() && seen@[m]@ == t.id@;
                assert(strings_view(seen@)[m] == t.id@);
            }
        }
        assert((exists|j: int| 0 <= j < ti.len() - 1 && ti[j].id == ti.last().id) <==> (exists|j: int|
            0 <= j < i && #[trigger] tv[j].id == t.id@)) by {
            if exists|j: int| 0 <= j < ti.len() - 1 && ti[j].id == ti.last().id {
                let j = choose|j: int| 0 <= j < ti.len() - 1 && ti[j].id == ti.last().id;
                assert(tv[j] == ti[j]);
            }
            if exists|j: int| 0 <= j < i && #[trigger] tv[j].id == t.id@ {
                let j = choose|j: int| 0 <= j < i && #[trigger] tv[j].id == t.id@;
                assert(tv[j] == ti[j]);
            }
        }
        let ghost before = tracks_view(out@);
        let ghost seen_before = strings_view(seen@);
        if !found {
            let c = t.duplicate();
            out.push(c);
            assert(tracks_view(out@) == before.push(c@));
            seen.push(t.id.clone());
            assert(strings_view(seen@) == seen_before.push(t.id@));
        }
        assert forall|id: Seq<char>| strings_view(seen@).contains(id) <==> exists|j: int| 0 <= j < i + 1 && #[trigger] tv[j].id == id by {
            if strings_view(seen@).contains(id) && !seen_before.contains(id) {
                assert(id == t.id@);
                assert(tv[i as int].id == id);
            }
            if seen_before.contains(id) {
                let m = choose|m: int| 0 <= m < seen_before.len() && seen_before[m] == id;
                assert(strings_view(seen@)[m] == id);
            }
            if exists|j: int| 0 <= j < i + 1 && #[trigger] tv[j].id == id {
                let j = choose|j: int| 0 <= j < i + 1 && #[trigger] tv[j].id == id;
                if j == i && !found {
                    assert(strings_view(seen@)[seen_before.len() as int] == id);
                }
            }
        }
    }
    assert(tv.take(tracks.len() as int) == tv);
    out
}


/// Whether a list of tracks has a track with id `id`.
pub open spec fn has_track_id(s: Seq<TrackView>, id: Seq<char>) -> bool {
    exists|j: int| 0 <= j < s.len() && s[j].id == id
}

/// Removing repeated ids keeps exactly one track of each id: no two kept
/// tracks share an id, and every id of the input is kept.
pub proof fn lemma_dedup_by_id(s: Seq<TrackView>)
    ensures
        forall|j: int, k: int|
            0 <= j < k < dedup_by_id(s).len() ==> (#[trigger] dedup_by_id(s)[j]).id != (#[trigger] dedup_by_id(s)[k]).id,
        forall|id: Seq<char>| #[trigger] has_track_id(dedup_by_id(s), id) <==> has_track_id(s, id),
    decreases s.len(),
{
    if s.len() > 0 {
        let p = s.drop_last();
        let x = s.last();
        lemma_dedup_by_id(p);
        let d = dedup_by_id(p);
        assert forall|id: Seq<char>| has_track_id(p, id) implies has_track_id(s, id) by {
            let j = choose|j: int| 0 <= j < p.len() && p[j].id == id;
            assert(s[j] == p[j]);
        }
        if exists|j: int| 0 <= j < s.len() - 1 && s[j].id == x.id {
            assert forall|id: Seq<char>| #[trigger] has_track_id(dedup_by_id(s), id) <==> has_track_id(s, id) by {
                if has_track_id(s, id) {
                    let j = choose|j: int| 0 <= j < s.len() && s[j].id == id;
                    if j < s.len() - 1 {
                        assert(p[j] == s[j]);
                    } else {
                        let i = choose|i: int| 0 <= i < s.len() - 1 && s[i].id == x.id;
                        assert(p[i] == s[i]);
                    }
                }
            }
        } else {
            let e = d.push(x);
            assert(!has_track_id(p, x.id)) by {
                if has_track_id(p, x.id) {
                    let j = choose|j: int| 0 <= j < p.len() && p[j].id == x.id;
                    assert(s[j] == p[j]);
                }
            }
            assert forall|j: int, k: int| 0 <= j < k < e.len() implies (#[trigger] e[j]).id != (#[trigger] e[k]).id by {
                if k == d.len() {
                    assert(e[j] == d[j]);
                    if d[j].id == x.id {
                        assert(has_track_id(d, x.id));
                    }
                } else {
                    assert(e[j] == d[j] && e[k] == d[k]);
                }
            }
            assert forall|id: Seq<char>| #[trigger] has_track_id(e, id) <==> has_track_id(s, id) by {
                if has_track_id(e, id) {
                    let j = choose|j: int| 0 <= j < e.len() && e[j].id == id;
                    if j < d.len() {
                        assert(e[j] == d[j]);
                        assert(has_track_id(d, id));
                    } else {
                        assert(s[s.len() - 1].id == id);
                    }
                }
                if has_track_id(s, id) {
                    let j = choose|j: int| 0 <= j < s.len() && s[j].id == id;
                    if j < s.len() - 1 {
                        assert(p[j] == s[j]);
                        assert(has_track_id(d, id));
                        let i = choose|i: int| 0 <= i < d.len() && d[i].id == id;
                        assert(e[i] == d[i]);
                    } else {
                        assert(e[d.len() as int] == x);
                    }
                }
            }
        }
    }
}

/// Whether a track is by a favorite artist.
pub open spec fn by_favorite(t: TrackView, favorites: Map<Seq<char>, crate::state::ArtistWeightView>) -> bool {
    match t.artist_id {
        Some(aid) => favorites.contains_key(aid),
        None => false,
    }
}

/// The familiar candidate of a track by a favorite artist.
pub open spec fn familiar_candidate(t: TrackView, favorites: Map<Seq<char>, crate::state::ArtistWeightView>, tags: Seq<Seq<char>>) -> Option<CandidateView> {
    match t.artist_id {
        Some(aid) => if favorites.contains_key(aid) {
            Some(
                CandidateView {
                    id: aid + "|"@ + t.id,
                    track_title: t.title,
                    artist_name: t.artist,
                    album: t.album,
                    duration: t.duration,
                    image_url: t.image_url,
                    pool: Pool::Familiar,
                    source_tags: tags,
                },
            )
        } else {
            None
        },
        None => None,
    }
}

/// The discovery candidate of a track by an artist the listener does not
/// favor.
pub open spec fn discovery_candidate(t: TrackView, favorites: Map<Seq<char>, crate::state::ArtistWeightView>, tags: Seq<Seq<char>>) -> Option<CandidateView> {
    if by_favorite(t, favorites) {
        None
    } else {
        Some(
            CandidateView {
                id: "disc|"@ + t.artist + "|"@ + t.id,
                track_title: t.title,
                artist_name: t.artist,
                album: t.album,
                duration: t.duration,
                image_url: t.image_url,
                pool: Pool::Discovery,
                source_tags: tags,
            },
        )
    }
}

/// Whether date `d` is on or after date `cutoff` (year, month, day).
pub open spec fn date_on_or_after(d: (i32, u32, u32), cutoff: (i32, u32, u32)) -> bool {
    d.0 > cutoff.0 || (d.0 == cutoff.0 && (d.1 > cutoff.1 || (d.1 == cutoff.1 && d.2 >= cutoff.2)))
}

/// The new-release candidate of a favorite album released on or after the
/// cutoff.
pub open spec fn new_release_candidate(a: AlbumView, cutoff: (i32, u32, u32)) -> Option<CandidateView> {
    match parsed_date(a.release_date, RELEASE_DATE_FORMAT@) {
        Some(d) => if date_on_or_after(d, cutoff) {
            Some(
                CandidateView {
                    id: "nr|"@ + a.artist_id + "|"@ + a.id,
                    track_title: a.title,
                    artist_name: a.artist_name,
                    album: a.title,
                    duration: None,
                    image_url: None,
                    pool: Pool::NewRelease,
                    source_tags: Seq::empty(),
                },
            )
        } else {
            None
        },
        None => None,
    }
}

/// The candidates of a radio: the familiar pool (search results by favorite
/// artists), then the discovery pool (the other search results), then the new
/// releases (favorite albums released on or after the cutoff). Search results
/// count once per track id.
pub open spec fn pool_candidates(
    results: Seq<TrackView>,
    favorites: Map<Seq<char>, crate::state::ArtistWeightView>,
    tags: Seq<Seq<char>>,
    albums: Seq<AlbumView>,
    cutoff: (i32, u32, u32),
) -> Seq<CandidateView> {
    let unique = dedup_by_id(results);
    filter_map(unique, |t: TrackView| familiar_candidate(t, favorites, tags)) + filter_map(
        unique,
        |t: TrackView| discovery_candidate(t, favorites, tags),
    ) + filter_map(albums, |a: AlbumView| new_release_candidate(a, cutoff))
}


/// The day number of a calendar date (year, month, day), counting 32 days to
/// a month and 416 to a year: for months up to 12 and days up to 31 it grows
/// with the date.
pub open spec fn day_number(d: (i32, u32, u32)) -> int {
    d.0 as int * 416 + d.1 as int * 32 + d.2 as int
}

/// A calendar date: month at most 12, day at most 31.
pub open spec fn calendar_date(d: (i32, u32, u32)) -> bool {
    d.1 <= 12 && d.2 <= 31
}

/// A favorite album is a new release exactly when its release date parses
/// and falls on or after the cutoff in calendar order; it then becomes the
/// candidate `nr|<artist id>|<album id>`, titled after the album, and is
/// among the radio's candidates whatever the search results are.
pub proof fn lemma_new_releases_after_cutoff(
    results: Seq<TrackView>,
    favorites: Map<Seq<char>, crate::state::ArtistWeightView>,
    tags: Seq<Seq<char>>,
    albums: Seq<AlbumView>,
    cutoff: (i32, u32, u32),
    j: int,
)
    requires
        0 <= j < albums.len(),
        calendar_date(cutoff),
    ensures
        match parsed_date(albums[j].release_date, RELEASE_DATE_FORMAT@) {
            Some(d) => calendar_date(d) ==> {
                &&& (new_release_candidate(albums[j], cutoff) is Some <==> day_number(d) >= day_number(cutoff))
                &&& day_number(d) >= day_number(cutoff) ==> pool_candidates(results, favorites, tags, albums, cutoff).contains(
                    CandidateView {
                        id: "nr|"@ + albums[j].artist_id + "|"@ + albums[j].id,
                        track_title: albums[j].title,
                        artist_name: albums[j].artist_name,
                        album: albums[j].title,
                        duration: None,
                        image_url: None,
                        pool: Pool::NewRelease,
                        source_tags: Seq::empty(),
                    },
                )
            },
            None => new_release_candidate(albums[j], cutoff) is None,
        },
{
    let f = |a: AlbumView| new_release_candidate(a, cutoff);
    if let Some(d) = parsed_date(albums[j].release_date, RELEASE_DATE_FORMAT@) {
        if calendar_date(d) && day_number(d) >= day_number(cutoff) {
            assert(new_release_candidate(albums[j], cutoff) is Some);
            lemma_filter_map_keeps(albums, f, j);
            let unique = dedup_by_id(results);
            let a = filter_map(unique, |t: TrackView| familiar_candidate(t, favorites, tags));
            let b = filter_map(unique, |t: TrackView| discovery_candidate(t, favorites, tags));
            let c = filter_map(albums, f);
            let x = f(albums[j])->0;
            let k = choose|k: int| 0 <= k < c.len() && c[k] == x;
            assert((a + b + c)[a.len() + b.len() + k] == x);
            assert(pool_candidates(results, favorites, tags, albums, cutoff) == a + b + c);
        }
    }
}

proof fn lemma_dedup_by_id_members(s: Seq<TrackView>)
    ensures
        forall|k: int| 0 <= k < dedup_by_id(s).len() ==> s.contains(#[trigger] dedup_by_id(s)[k]),
    decreases s.len(),
{
    if s.len() > 0 {
        let p = s.drop_last();
        lemma_dedup_by_id_members(p);
        let d = dedup_by_id(s);
        assert forall|k: int| 0 <= k < d.len() implies s.contains(#[trigger] d[k]) by {
            if k < dedup_by_id(p).len() {
                assert(d[k] == dedup_by_id(p)[k]);
                let i = choose|i: int| 0 <= i < p.len() && p[i] == d[k];
                assert(s[i] == p[i]);
            } else {
                assert(d[k] == s.last());
                assert(s[s.len() - 1] == s.last());
            }
        }
    }
}

/// A candidate built from search result `t`: the track's title, artist,
/// album, duration and image, and the theme's tags.
pub open spec fn carries_track(c: CandidateView, t: TrackView, tags: Seq<Seq<char>>) -> bool {
    &&& c.track_title == t.title
    &&& c.artist_name == t.artist
    &&& c.album == t.album
    &&& c.duration == t.duration
    &&& c.image_url == t.image_url
    &&& c.source_tags == tags
}

/// Every candidate of a radio comes from its inputs: a familiar one from a
/// search result whose artist id is a favorite artist's, with id
/// `<artist id>|<track id>`; a discovery one from a search result by another
/// artist, with id `disc|<artist name>|<track id>`; a new release from a
/// favorite album, with id `nr|<artist id>|<album id>`, titled after the
/// album. Candidates from search results carry the track's own metadata and
/// the theme's tags.
pub proof fn lemma_candidates_come_from_inputs(
    results: Seq<TrackView>,
    favorites: Map<Seq<char>, crate::state::ArtistWeightView>,
    tags: Seq<Seq<char>>,
    albums: Seq<AlbumView>,
    cutoff: (i32, u32, u32),
)
    ensures
        forall|k: int|
            0 <= k < pool_candidates(results, favorites, tags, albums, cutoff).len() ==> {
                let c = #[trigger] pool_candidates(results, favorites, tags, albums, cutoff)[k];
                ||| c.pool == Pool::Familiar && exists|t: TrackView, aid: Seq<char>| #![trigger results.contains(t), favorites.contains_key(aid)]
                    results.contains(t) && t.artist_id == Some(aid) && favorites.contains_key(aid) && c.id == aid + "|"@
                        + t.id && carries_track(c, t, tags)
                ||| c.pool == Pool::Discovery && exists|t: TrackView| #![trigger results.contains(t)]
                    results.contains(t) && !(t.artist_id matches Some(aid) && favorites.contains_key(aid)) && c.id
                        == "disc|"@ + t.artist + "|"@ + t.id && carries_track(c, t, tags)
                ||| c.pool == Pool::NewRelease && exists|a: AlbumView| #![trigger albums.contains(a)]
                    albums.contains(a) && c.id == "nr|"@ + a.artist_id + "|"@ + a.id && c.track_title == a.title
                        && c.album == a.title && c.artist_name == a.artist_name
            },
{
    let unique = dedup_by_id(results);
    let ff = |t: TrackView| familiar_candidate(t, favorites, tags);
    let fd = |t: TrackView| discovery_candidate(t, favorites, tags);
    let fa = |a: AlbumView| new_release_candidate(a, cutoff);
    let x = filter_map(unique, ff);
    let y = filter_map(unique, fd);
    let z = filter_map(albums, fa);
    let pc = pool_candidates(results, favorites, tags, albums, cutoff);
    assert(pc == x + y + z);
    lemma_dedup_by_id_members(results);
    assert forall|k: int| 0 <= k < pc.len() implies {
        let c = #[trigger] pc[k];
        ||| c.pool == Pool::Familiar && exists|t: TrackView, aid: Seq<char>| #![trigger results.contains(t), favorites.contains_key(aid)]
            results.contains(t) && t.artist_id == Some(aid) && favorites.contains_key(aid) && c.id == aid + "|"@ + t.id
                && carries_track(c, t, tags)
        ||| c.pool == Pool::Discovery && exists|t: TrackView| #![trigger results.contains(t)]
            results.contains(t) && !(t.artist_id matches Some(aid) && favorites.contains_key(aid)) && c.id == "disc|"@
                + t.artist + "|"@ + t.id && carries_track(c, t, tags)
        ||| c.pool == Pool::NewRelease && exists|a: AlbumView| #![trigger albums.contains(a)]
            albums.contains(a) && c.id == "nr|"@ + a.artist_id + "|"@ + a.id && c.track_title == a.title && c.album
                == a.title && c.artist_name == a.artist_name
    } by {
        if k < x.len() {
            assert(pc[k] == x[k]);
            lemma_filter_map_source(unique, ff, k);
            let j = choose|j: int| 0 <= j < unique.len() && ff(unique[j]) == Some(x[k]);
            let t = unique[j];
            assert(results.contains(t));
            let aid = t.artist_id->0;
            assert(favorites.contains_key(aid));
        } else if k < x.len() + y.len() {
            assert(pc[k] == y[k - x.len()]);
            lemma_filter_map_source(unique, fd, k - x.len());
            let j = choose|j: int| 0 <= j < unique.len() && fd(unique[j]) == Some(y[k - x.len()]);
            let t = unique[j];
            assert(results.contains(t));
        } else {
            assert(pc[k] == z[k - x.len() - y.len()]);
            lemma_filter_map_source(albums, fa, k - x.len() - y.len());
            let j = choose|j: int| 0 <= j < albums.len() && fa(albums[j]) == Some(z[k - x.len() - y.len()]);
            assert(albums.contains(albums[j]));
        }
    }
}

proof fn lemma_split_by_favorite(
    s: Seq<TrackView>,
    favorites: Map<Seq<char>, crate::state::ArtistWeightView>,
    tags: Seq<Seq<char>>,
)
    ensures
        filter_map(s, |t: TrackView| familiar_candidate(t, favorites, tags)).len() + filter_map(
            s,
            |t: TrackView| discovery_candidate(t, favorites, tags),
        ).len() == s.len(),
    decreases s.len(),
{
    if s.len() > 0 {
        lemma_split_by_favorite(s.drop_last(), favorites, tags);
    }
}

/// Every search result (once per track id) is offered exactly once: either
/// as a familiar candidate, when it is by a favorite artist, or as a
/// discovery candidate otherwise. The new releases follow.
pub proof fn lemma_pools_split_results(
    results: Seq<TrackView>,
    favorites: Map<Seq<char>, crate::state::ArtistWeightView>,
    tags: Seq<Seq<char>>,
    albums: Seq<AlbumView>,
    cutoff: (i32, u32, u32),
)
    ensures
        pool_candidates(results, favorites, tags, albums, cutoff).len() == dedup_by_id(results).len()
            + filter_map(albums, |a: AlbumView| new_release_candidate(a, cutoff)).len(),
        forall|i: int|
            0 <= i < dedup_by_id(results).len() ==> (#[trigger] familiar_candidate(dedup_by_id(results)[i], favorites, tags)
                is Some) != (discovery_candidate(dedup_by_id(results)[i], favorites, tags) is Some),
{
    lemma_split_by_favorite(dedup_by_id(results), favorites, tags);
}

/// Whether the profile has an artist with id `id`.
fn is_favorite_artist(entries: &Vec<ArtistEntry>, id: &String) -> (r: bool)
    requires
        unique_ids(entries@),
    ensures
        r == artist_map(entries@).contains_key(id@),
{
    proof {
        crate::state::lemma_artist_map(entries@);
    }
    for j in 0..entries.len()
        invariant
            unique_ids(entries@),
            forall|k: int| 0 <= k < j ==> entries@[k].id@ != id@,
            forall|k: Seq<char>| #[trigger]
                artist_map(entries@).contains_key(k) <==> exists|i: int| 0 <= i < entries@.len() && entries@[i].id@ == k,
    {
        if entries[j].id == *id {
            assert(artist_map(entries@).contains_key(entries@[j as int].id@));
            return true;
        }
    }
    false
}

/// Whether a track is by a favorite artist of the profile.
fn track_by_favorite(entries: &Vec<ArtistEntry>, t: &TrackMetadata) -> (r: bool)
    requires
        unique_ids(entries@),
    ensures
        r == by_favorite(t@, artist_map(entries@)),
{
    match &t.artist_id {
        Some(aid) => is_favorite_artist(entries, aid),
        None => false,
    }
}

/// Assembles the candidates of a radio from the search results, the profile,
/// the theme tags and the release-date cutoff.
pub fn assemble_candidates(
    results: &Vec<TrackMetadata>,
    profile: &TasteProfile,
    theme_tags: &Vec<String>,
    cutoff: (i32, u32, u32),
) -> (r: Vec<Candidate>)
    requires
        profile.well_formed(),
    ensures
        candidates_view(r@) == pool_candidates(
            tracks_view(results@),
            profile.artist_weights(),
            strings_view(theme_tags@),
            albums_view(profile.albums@),
            cutoff,
        ),
{
    let unique = dedup_tracks(results);
    let ghost uv = tracks_view(unique@);
    let ghost favs = profile.artist_weights();
    let ghost tags = strings_view(theme_tags@);
    let ghost ff = |t: TrackView| familiar_candidate(t, favs, tags);
    let ghost fd = |t: TrackView| discovery_candidate(t, favs, tags);
    let mut familiar: Vec<Candidate> = Vec::new();
    for i in 0..unique.len()
        invariant
            uv == tracks_view(unique@),
            favs == profile.artist_weights(),
            tags == strings_view(theme_tags@),
            profile.well_formed(),
            ff == (|t: TrackView| familiar_candidate(t, favs, tags)),
            candidates_view(familiar@) == filter_map(uv.take(i as int), ff),
    {
        proof {
            lemma_filter_map_step(uv, ff, i as int);
        }
        let ghost before = candidates_view(familiar@);
        let t = &unique[i];
        if let Some(aid) = &t.artist_id {
            if is_favorite_artist(&profile.artists, aid) {
                let c = Candidate {
                    id: concat3(aid.as_str(), "|", t.id.as_str()),
                    track_title: t.title.clone(),
                    artist_name: t.artist.clone(),
                    album: t.album.clone(),
                    duration: t.duration,
                    image_url: crate::state::clone_opt_string(&t.image_url),
                    pool: Pool::Familiar,
                    source_tags: clone_strings(theme_tags),
                };
                familiar.push(c);
                assert(candidates_view(familiar@) == before.push(c@));
            }
        }
    }
    assert(uv.take(unique.len() as int) == uv);
    let mut discovery: Vec<Candidate> = Vec::new();
    for i in 0..unique.len()
        invariant
            uv == tracks_view(unique@),
            favs == profile.artist_weights(),
            tags == strings_view(theme_tags@),
            profile.well_formed(),
            fd == (|t: TrackView| discovery_candidate(t, favs, tags)),
            candidates_view(discovery@) == filter_map(uv.take(i as int), fd),
    {
        proof {
            lemma_filter_map_step(uv, fd, i as int);
        }
        let ghost before = candidates_view(discovery@);
        let t = &unique[i];
        if !track_by_favorite(&profile.artists, t) {
            let c = Candidate {
                id: concat4("disc|", t.artist.as_str(), "|", t.id.as_str()),
                track_title: t.title.clone(),
                artist_name: t.artist.clone(),
                album: t.album.clone(),
                duration: t.duration,
                image_url: crate::state::clone_opt_string(&t.image_url),
                pool: Pool::Discovery,
                source_tags: clone_strings(theme_tags),
            };
            discovery.push(c);
            assert(candidates_view(discovery@) == before.push(c@));
        }
    }
    let ghost av = albums_view(profile.albums@);
    let ghost fr = |a: AlbumView| new_release_candidate(a, cutoff);
    let mut releases: Vec<Candidate> = Vec::new();
    for i in 0..profile.albums.len()
        invariant
            av == albums_view(profile.albums@),
            fr == (|a: AlbumView| new_release_candidate(a, cutoff)),
            candidates_view(releases@) == filter_map(av.take(i as int), fr),
    {
        proof {
            lemma_filter_map_step(av, fr, i as int);
        }
        let ghost before = candidates_view(releases@);
        let a = &profile.albums[i];
        if let Some(d) = parse_date(a.release_date.as_str(), RELEASE_DATE_FORMAT) {
            if d.0 > cutoff.0 || (d.0 == cutoff.0 && (d.1 > cutoff.1 || (d.1 == cutoff.1 && d.2 >= cutoff.2))) {
                let c = Candidate {
                    id: concat4("nr|", a.artist_id.as_str(), "|", a.id.as_str()),
                    track_title: a.title.clone(),
                    artist_name: a.artist_name.clone(),
                    album: a.title.clone(),
                    duration: None,
                    image_url: None,
                    pool: Pool::NewRelease,
                    source_tags: Vec::new(),
                };
                releases.push(c);
                assert(strings_view(c.source_tags@) =~= Seq::<Seq<char>>::empty());
                assert(candidates_view(releases@) == before.push(c@));
            }
        }
    }
    assert(av.take(profile.albums.len() as int) == av);
    let ghost (fv, dv, rv) = (candidates_view(familiar@), candidates_view(discovery@), candidates_view(releases@));
    familiar.append(&mut discovery);
    familiar.append(&mut releases);
    assert(candidates_view(familiar@) =~= fv + dv + rv);
    familiar
}

} // verus!
