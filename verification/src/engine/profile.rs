//! Deriving the taste profile from the Qobuz favorites.
use vstd::prelude::*;

use crate::bindings::instant_now;
use crate::providers::qobuz::{artists_view, qalbums_view, QobuzAlbum, QobuzFavorites};
use crate::state::{
    albums_view, artist_map, lemma_artist_map, tracks_view, unique_ids, AlbumEntry, AlbumView, ArtistEntry,
    ArtistWeight, ArtistWeightView, TasteProfile, TrackMetadata, TrackView,
};

verus! {

/// Weight of a favorite artist, in tenths.
pub const FAVORITE_ARTIST_WEIGHT: u64 = 10;

/// Boost for each favorite track of an artist, in tenths.
pub const FAVORITE_TRACK_BOOST: u64 = 5;

/// Boost for each favorite album of an artist, in tenths.
pub const FAVORITE_ALBUM_BOOST: u64 = 3;

/// A weight with no session adjustment.
pub open spec fn weight_view(name: Seq<char>, base_weight: u64) -> ArtistWeightView {
    ArtistWeightView { name, base_weight, session_delta: 0 }
}

/// Number of favorite tracks credited to artist `id`.
pub open spec fn tracks_by(tracks: Seq<TrackView>, id: Seq<char>) -> nat
    decreases tracks.len(),
{
    if tracks.len() == 0 {
        0
    } else {
        tracks_by(tracks.drop_last(), id) + if tracks.last().artist_id == Some(id) {
            1nat
        } else {
            0nat
        }
    }
}

/// Number of favorite albums credited to artist `id`.
pub open spec fn albums_by(albums: Seq<AlbumView>, id: Seq<char>) -> nat
    decreases albums.len(),
{
    if albums.len() == 0 {
        0
    } else {
        albums_by(albums.drop_last(), id) + if albums.last().artist_id == id {
            1nat
        } else {
            0nat
        }
    }
}

/// The name of the last favorite artist with id `id`.
pub open spec fn last_name_of(artists: Seq<crate::providers::qobuz::QobuzArtistView>, id: Seq<char>) -> Seq<char>
    decreases artists.len(),
{
    if artists.len() == 0 {
        Seq::empty()
    } else if artists.last().id == id {
        artists.last().name
    } else {
        last_name_of(artists.drop_last(), id)
    }
}

/// Whether some favorite artist has id `id`.
pub open spec fn is_favorite(artists: Seq<crate::providers::qobuz::QobuzArtistView>, id: Seq<char>) -> bool {
    exists|i: int| 0 <= i < artists.len() && artists[i].id == id
}

/// The weight the profile gives artist `id`: 1.0, plus 0.5 for each favorite
/// track and 0.3 for each favorite album of the artist (in tenths), with no
/// session adjustment.
pub open spec fn favorite_weight(fav: QobuzFavorites, id: Seq<char>) -> ArtistWeightView {
    weight_view(last_name_of(artists_view(fav.artists@), id), (10 + 5 * tracks_by(tracks_view(fav.tracks@), id) + 3 * albums_by(
            qalbums_view(fav.albums@),
            id,
        )) as u64)
}

/// Some entry has id `id`.
pub open spec fn has_entry(entries: Seq<ArtistEntry>, id: Seq<char>) -> bool {
    exists|k: int| 0 <= k < entries.len() && entries[k].id@ == id
}

/// Replacing an entry by one with the same id keeps the set of ids and their
/// uniqueness.
proof fn lemma_set_keeps_ids(old: Seq<ArtistEntry>, new: Seq<ArtistEntry>, j: int)
    requires
        0 <= j < old.len(),
        new.len() == old.len(),
        new[j].id@ == old[j].id@,
        forall|k: int| 0 <= k < old.len() && k != j ==> new[k] == old[k],
        unique_ids(old),
    ensures
        unique_ids(new),
        forall|id: Seq<char>| #[trigger] has_entry(new, id) <==> has_entry(old, id),
        forall|k: int| 0 <= k < new.len() ==> #[trigger] new[k].id@ == old[k].id@,
{
    assert forall|k: int| 0 <= k < new.len() implies #[trigger] new[k].id@ == old[k].id@ by {
        if k != j {
            assert(new[k] == old[k]);
        }
    }
    assert forall|id: Seq<char>| #[trigger] has_entry(new, id) <==> has_entry(old, id) by {
        if has_entry(new, id) {
            let k = choose|k: int| 0 <= k < new.len() && new[k].id@ == id;
            assert(old[k].id@ == id);
        }
        if has_entry(old, id) {
            let k = choose|k: int| 0 <= k < old.len() && old[k].id@ == id;
            assert(new[k].id@ == id);
        }
    }
}

/// Index of the entry with id `id`, if any.
fn find_entry(entries: &Vec<ArtistEntry>, id: &String) -> (r: Option<usize>)
    ensures
        match r {
            Some(j) => j < entries@.len() && entries@[j as int].id@ == id@,
            None => forall|j: int| 0 <= j < entries@.len() ==> entries@[j].id@ != id@,
        },
{
    for j in 0..entries.len()
        invariant
            forall|k: int| 0 <= k < j ==> entries@[k].id@ != id@,
    {
        if entries[j].id == *id {
            return Some(j);
        }
    }
    None
}

proof fn lemma_tracks_by_bound(tracks: Seq<TrackView>, id: Seq<char>)
    ensures
        tracks_by(tracks, id) <= tracks.len(),
    decreases tracks.len(),
{
    if tracks.len() > 0 {
        lemma_tracks_by_bound(tracks.drop_last(), id);
    }
}

proof fn lemma_albums_by_bound(albums: Seq<AlbumView>, id: Seq<char>)
    ensures
        albums_by(albums, id) <= albums.len(),
    decreases albums.len(),
{
    if albums.len() > 0 {
        lemma_albums_by_bound(albums.drop_last(), id);
    }
}

/// Copies a favorite album into the profile.
fn album_entry(a: &QobuzAlbum) -> (r: AlbumEntry)
    ensures
        r@ == a@,
{
    AlbumEntry {
        id: a.id.clone(),
        title: a.title.clone(),
        artist_id: a.artist_id.clone(),
        artist_name: a.artist_name.clone(),
        release_date: a.release_date.clone(),
    }
}

/// Whether the weights of the favorites fit in a `u64`: the largest an
/// artist can get is its own weight plus a boost for every favorite track and
/// album.
pub fn favorites_fit(favorites: &QobuzFavorites) -> (r: bool)
    ensures
        r == (10 + 5 * favorites.tracks@.len() + 3 * favorites.albums@.len() <= u64::MAX),
{
    let t = favorites.tracks.len() as u128;
    let a = favorites.albums.len() as u128;
    10 + 5 * t + 3 * a <= u64::MAX as u128
}

/// Builds the taste profile from the favorites: every favorite artist, with
/// its weight; the favorite albums; the favorite tracks.
pub fn build_taste_profile(favorites: QobuzFavorites) -> (r: TasteProfile)
    requires
        10 + 5 * favorites.tracks@.len() + 3 * favorites.albums@.len() <= u64::MAX,
    ensures
        r.well_formed(),
        forall|id: Seq<char>| #[trigger]
            r.artist_weights().contains_key(id) <==> is_favorite(artists_view(favorites.artists@), id),
        forall|id: Seq<char>| #[trigger]
            r.artist_weights().contains_key(id) ==> r.artist_weights()[id] == favorite_weight(favorites, id),
        albums_view(r.albums@) == qalbums_view(favorites.albums@),
        tracks_view(r.tracks@) == tracks_view(favorites.tracks@),
{
    let ghost av = artists_view(favorites.artists@);
    let ghost tv = tracks_view(favorites.tracks@);
    let ghost bv = qalbums_view(favorites.albums@);
    let mut entries: Vec<ArtistEntry> = Vec::new();
    // Every favorite artist, first occurrence order, last name wins.
    for i in 0..favorites.artists.len()
        invariant
            av == artists_view(favorites.artists@),
            unique_ids(entries@),
            forall|k: int| 0 <= k < entries@.len() ==> is_favorite(av.take(i as int), #[trigger] entries@[k].id@),
            forall|m: int| 0 <= m < i ==> #[trigger] has_entry(entries@, av[m].id),
            forall|k: int| 0 <= k < entries@.len() ==> (#[trigger] entries@[k]).weight@ == weight_view(last_name_of(av.take(i as int), entries@[k].id@), 10),
    {
        let a = &favorites.artists[i];
        let ghost avi = av.take(i + 1);
        assert(avi.drop_last() == av.take(i as int));
        assert(avi.last() == a@);
        let w = ArtistWeight { name: a.name.clone(), base_weight: FAVORITE_ARTIST_WEIGHT, session_delta: 0 };
        match find_entry(&entries, &a.id) {
            Some(j) => {
                let ghost old_entries = entries@;
                let e = ArtistEntry { id: a.id.clone(), weight: w };
                entries.set(j, e);
                assert forall|k: int| 0 <= k < entries@.len() implies is_favorite(avi, #[trigger] entries@[k].id@) by {
                    assert(is_favorite(av.take(i as int), old_entries[k].id@));
                    let m = choose|m: int| 0 <= m < i && av.take(i as int)[m].id == old_entries[k].id@;
                    assert(avi[m] == av.take(i as int)[m]);
                }
                proof {
                    lemma_set_keeps_ids(old_entries, entries@, j as int);
                }
                assert forall|m: int| 0 <= m < i + 1 implies #[trigger] has_entry(entries@, av[m].id) by {
                    if m < i {
                        assert(has_entry(old_entries, av[m].id));
                    } else {
                        assert(entries@[j as int].id@ == av[m].id);
                    }
                }
            },
            None => {
                let ghost old_entries = entries@;
                let e = ArtistEntry { id: a.id.clone(), weight: w };
                entries.push(e);
                assert forall|k: int| 0 <= k < entries@.len() implies is_favorite(avi, #[trigger] entries@[k].id@) by {
                    if k < old_entries.len() {
                        assert(is_favorite(av.take(i as int), old_entries[k].id@));
                        let m = choose|m: int| 0 <= m < i && av.take(i as int)[m].id == old_entries[k].id@;
                        assert(avi[m] == av.take(i as int)[m]);
                    } else {
                        assert(avi[i as int].id == entries@[k].id@);
                    }
                }
                assert forall|m: int| 0 <= m < i + 1 implies #[trigger] has_entry(entries@, av[m].id) by {
                    if m < i {
                        assert(has_entry(old_entries, av[m].id));
                        let k = choose|k: int| 0 <= k < old_entries.len() && old_entries[k].id@ == av[m].id;
                        assert(entries@[k].id@ == av[m].id);
                    } else {
                        assert(entries@[old_entries.len() as int].id@ == av[m].id);
                    }
                }
            },
        }
    }
    assert(av.take(favorites.artists.len() as int) == av);
    assert forall|k: int| 0 <= k < entries@.len() implies is_favorite(av, #[trigger] entries@[k].id@) by {}
    proof {
        assert forall|id: Seq<char>| #[trigger] tracks_by(tv.take(0), id) == 0 by {}
    }
    // Boost artists of favorite tracks.
    for i in 0..favorites.tracks.len()
        invariant
            av == artists_view(favorites.artists@),
            tv == tracks_view(favorites.tracks@),
            10 + 5 * favorites.tracks@.len() + 3 * favorites.albums@.len() <= u64::MAX,
            unique_ids(entries@),
            forall|k: int| 0 <= k < entries@.len() ==> is_favorite(av, #[trigger] entries@[k].id@),
            forall|m: int| 0 <= m < av.len() ==> #[trigger] has_entry(entries@, av[m].id),
            forall|k: int| 0 <= k < entries@.len() ==> (#[trigger] entries@[k]).weight@ == weight_view(last_name_of(av, entries@[k].id@), (10 + 5 * tracks_by(tv.take(i as int), entries@[k].id@)) as u64),
    {
        let t = &favorites.tracks[i];
        let ghost tvi = tv.take(i + 1);
        assert(tvi.drop_last() == tv.take(i as int));
        assert(tvi.last() == t@);
        if let Some(aid) = &t.artist_id {
            match find_entry(&entries, aid) {
                Some(j) => {
                    let ghost old_entries = entries@;
                    proof {
                        lemma_tracks_by_bound(tv.take(i as int), entries@[j as int].id@);
                    }
                    let mut e = entries[j].clone_entry();
                    e.weight.base_weight = e.weight.base_weight + FAVORITE_TRACK_BOOST;
                    entries.set(j, e);
                    proof {
                        lemma_set_keeps_ids(old_entries, entries@, j as int);
                    }
                    assert forall|k: int| 0 <= k < entries@.len() implies (#[trigger] entries@[k]).weight@
                        == weight_view(last_name_of(av, entries@[k].id@), (10 + 5 * tracks_by(tvi, entries@[k].id@)) as u64) by {
                        if k != j {
                            assert(old_entries[k] == entries@[k]);
                            assert(old_entries[k].id@ != old_entries[j as int].id@);
                        }
                    }
                },
                None => {
                    assert forall|k: int| 0 <= k < entries@.len() implies (#[trigger] entries@[k]).weight@
                        == weight_view(last_name_of(av, entries@[k].id@), (10 + 5 * tracks_by(tvi, entries@[k].id@)) as u64) by {}
                },
            }
        }
    }
    assert(tv.take(favorites.tracks.len() as int) == tv);
    let mut albums: Vec<AlbumEntry> = Vec::new();
    // Boost artists of favorite albums, and keep the albums.
    for i in 0..favorites.albums.len()
        invariant
            av == artists_view(favorites.artists@),
            tv == tracks_view(favorites.tracks@),
            bv == qalbums_view(favorites.albums@),
            10 + 5 * favorites.tracks@.len() + 3 * favorites.albums@.len() <= u64::MAX,
            unique_ids(entries@),
            forall|k: int| 0 <= k < entries@.len() ==> is_favorite(av, #[trigger] entries@[k].id@),
            forall|m: int| 0 <= m < av.len() ==> #[trigger] has_entry(entries@, av[m].id),
            forall|k: int| 0 <= k < entries@.len() ==> (#[trigger] entries@[k]).weight@ == weight_view(last_name_of(av, entries@[k].id@), (10 + 5 * tracks_by(tv, entries@[k].id@) + 3 * albums_by(
                    bv.take(i as int),
                    entries@[k].id@,
                )) as u64),
            albums_view(albums@) == bv.take(i as int),
    {
        let a = &favorites.albums[i];
        let ghost bvi = bv.take(i + 1);
        assert(bvi.drop_last() == bv.take(i as int));
        assert(bvi.last() == a@);
        match find_entry(&entries, &a.artist_id) {
            Some(j) => {
                let ghost old_entries = entries@;
                proof {
                    lemma_tracks_by_bound(tv, entries@[j as int].id@);
                    lemma_albums_by_bound(bv.take(i as int), entries@[j as int].id@);
                }
                let mut e = entries[j].clone_entry();
                e.weight.base_weight = e.weight.base_weight + FAVORITE_ALBUM_BOOST;
                entries.set(j, e);
                proof {
                    lemma_set_keeps_ids(old_entries, entries@, j as int);
                }
                assert forall|k: int| 0 <= k < entries@.len() implies (#[trigger] entries@[k]).weight@
                    == weight_view(last_name_of(av, entries@[k].id@), (10 + 5 * tracks_by(tv, entries@[k].id@) + 3 * albums_by(bvi, entries@[k].id@)) as u64) by {
                    if k != j {
                        assert(old_entries[k] == entries@[k]);
                        assert(old_entries[k].id@ != old_entries[j as int].id@);
                    }
                }
            },
            None => {
                assert forall|k: int| 0 <= k < entries@.len() implies (#[trigger] entries@[k]).weight@
                    == weight_view(last_name_of(av, entries@[k].id@), (10 + 5 * tracks_by(tv, entries@[k].id@) + 3 * albums_by(bvi, entries@[k].id@)) as u64) by {}
            },
        }
        let ghost before = albums_view(albums@);
        let entry = album_entry(a);
        albums.push(entry);
        assert(albums_view(albums@) == before.push(entry@));
    }
    assert(bv.take(favorites.albums.len() as int) == bv);
    let mut tracks: Vec<TrackMetadata> = Vec::new();
    for i in 0..favorites.tracks.len()
        invariant
            tracks_view(tracks@) == tracks_view(favorites.tracks@.take(i as int)),
    {
        let t = favorites.tracks[i].duplicate();
        tracks.push(t);
        assert(tracks_view(favorites.tracks@.take(i + 1)) == tracks_view(favorites.tracks@.take(i as int)).push(t@));
    }
    assert(favorites.tracks@.take(favorites.tracks@.len() as int) == favorites.tracks@);
    proof {
        lemma_artist_map(entries@);
        assert forall|id: Seq<char>| #[trigger] artist_map(entries@).contains_key(id) <==> is_favorite(av, id) by {
            if is_favorite(av, id) {
                let m = choose|m: int| 0 <= m < av.len() && av[m].id == id;
                assert(has_entry(entries@, av[m].id));
                let k = choose|k: int| 0 <= k < entries@.len() && entries@[k].id@ == id;
                assert(artist_map(entries@).contains_key(entries@[k].id@));
            }
            if artist_map(entries@).contains_key(id) {
                let k = choose|k: int| 0 <= k < entries@.len() && entries@[k].id@ == id;
                assert(is_favorite(av, entries@[k].id@));
            }
        }
        assert forall|id: Seq<char>| #[trigger] artist_map(entries@).contains_key(id) implies artist_map(entries@)[id]
            == favorite_weight(favorites, id) by {
            let k = choose|k: int| 0 <= k < entries@.len() && entries@[k].id@ == id;
            assert(artist_map(entries@)[entries@[k].id@] == entries@[k].weight@);
        }
    }
    TasteProfile { artists: entries, albums, tracks, last_full_refresh: instant_now() }
}

} // verus!
