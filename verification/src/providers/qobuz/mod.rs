//! What the Qobuz client computes: reading the API's JSON answers into the
//! library's records, and signing requests.
pub mod auth;
pub mod bundle;
pub mod signing;

use vstd::prelude::*;

use crate::errors::AppError;
use crate::json::{
    array_in, elements_of, field_of, filter_map, get_in, i64_in, int64_of, lemma_filter_map_keeps,
    lemma_filter_map_source, lemma_filter_map_step, opt_deref,
    str_in, str_in_or_empty, text_of, text_or_empty, u64_in, uint64_of, JsonValue,
};
use crate::state::{opt_view, tracks_view, AlbumView, TrackMetadata, TrackView};
use crate::text::{concat5, decimal, i64_to_string, owned, signed_decimal, u64_to_string};

verus! {

/// An artist among the user's favorites.
#[derive(Clone, Debug)]
pub struct QobuzArtist {
    pub id: String,
    pub name: String,
}

pub struct QobuzArtistView {
    pub id: Seq<char>,
    pub name: Seq<char>,
}

impl View for QobuzArtist {
    type V = QobuzArtistView;

    open spec fn view(&self) -> QobuzArtistView {
        QobuzArtistView { id: self.id@, name: self.name@ }
    }
}

/// An album as Qobuz describes it.
#[derive(Clone, Debug)]
pub struct QobuzAlbum {
    pub id: String,
    pub title: String,
    pub artist_id: String,
    pub artist_name: String,
    pub release_date: String,
}

impl View for QobuzAlbum {
    type V = AlbumView;

    open spec fn view(&self) -> AlbumView {
        AlbumView {
            id: self.id@,
            title: self.title@,
            artist_id: self.artist_id@,
            artist_name: self.artist_name@,
            release_date: self.release_date@,
        }
    }
}

/// The user's favorites.
#[derive(Clone, Debug)]
pub struct QobuzFavorites {
    pub artists: Vec<QobuzArtist>,
    pub albums: Vec<QobuzAlbum>,
    pub tracks: Vec<TrackMetadata>,
}

/// An artist with albums.
#[derive(Clone, Debug)]
pub struct QobuzArtistDetail {
    pub albums: Vec<QobuzAlbum>,
}

/// The views of a list of artists.
pub open spec fn artists_view(v: Seq<QobuzArtist>) -> Seq<QobuzArtistView> {
    v.map_values(|a: QobuzArtist| a@)
}

/// The views of a list of albums.
pub open spec fn qalbums_view(v: Seq<QobuzAlbum>) -> Seq<AlbumView> {
    v.map_values(|a: QobuzAlbum| a@)
}

// ---------------------------------------------------------------------------
// Reading favorites
// ---------------------------------------------------------------------------

/// An integer id written in decimal, if the value is one.
pub open spec fn int_id(v: Option<JsonValue>) -> Option<Seq<char>> {
    match int64_of(v) {
        Some(i) => Some(signed_decimal(i as int)),
        None => None,
    }
}

/// The `items` of the section `section` of an answer.
pub open spec fn section_items(body: JsonValue, section: Seq<char>) -> Option<Seq<JsonValue>> {
    elements_of(field_of(body.field(section), "items"@))
}

/// A favorite artist: kept when its `id` is an integer.
pub open spec fn favorite_artist(item: JsonValue) -> Option<QobuzArtistView> {
    match int_id(item.field("id"@)) {
        Some(id) => Some(QobuzArtistView { id, name: text_or_empty(text_of(item.field("name"@))) }),
        None => None,
    }
}

/// The id of a favorite album: an integer id, else a string id.
pub open spec fn album_id_of(item: JsonValue) -> Option<Seq<char>> {
    match int_id(item.field("id"@)) {
        Some(id) => Some(id),
        None => text_of(item.field("id"@)),
    }
}

/// The artist id of a favorite album: `artist.id` as an integer, else the
/// string `artist_id`, else empty.
pub open spec fn album_artist_id(item: JsonValue) -> Seq<char> {
    match int_id(field_of(item.field("artist"@), "id"@)) {
        Some(id) => id,
        None => text_or_empty(text_of(item.field("artist_id"@))),
    }
}

/// The artist name of a favorite album: `artist.name`, else `artist` as a
/// string, else empty.
pub open spec fn album_artist_name(item: JsonValue) -> Seq<char> {
    match text_of(field_of(item.field("artist"@), "name"@)) {
        Some(n) => n,
        None => text_or_empty(text_of(item.field("artist"@))),
    }
}

/// A favorite album: kept when it has an id.
pub open spec fn favorite_album(item: JsonValue) -> Option<AlbumView> {
    match album_id_of(item) {
        Some(id) => Some(
            AlbumView {
                id,
                title: text_or_empty(text_of(item.field("title"@))),
                artist_id: album_artist_id(item),
                artist_name: album_artist_name(item),
                release_date: text_or_empty(text_of(item.field("release_date"@))),
            },
        ),
        None => None,
    }
}

/// Track metadata from a track item, with the id, title, artist and album
/// given, the optional fields read from the item.
pub open spec fn track_from_item(
    item: JsonValue,
    id: Seq<char>,
    title: Seq<char>,
    artist: Seq<char>,
    album: Seq<char>,
) -> TrackView {
    TrackView {
        id,
        title,
        artist,
        artist_id: int_id(field_of(item.field("performer"@), "id"@)),
        album,
        album_id: int_id(field_of(item.field("album"@), "id"@)),
        duration: uint64_of(item.field("duration"@)),
        image_url: text_of(field_of(field_of(item.field("album"@), "image"@), "large"@)),
    }
}

/// A favorite track: kept when its `id` is an integer; missing texts are
/// empty.
pub open spec fn favorite_track(item: JsonValue) -> Option<TrackView> {
    match int_id(item.field("id"@)) {
        Some(id) => Some(
            track_from_item(
                item,
                id,
                text_or_empty(text_of(item.field("title"@))),
                text_or_empty(text_of(field_of(item.field("performer"@), "name"@))),
                text_or_empty(text_of(field_of(item.field("album"@), "title"@))),
            ),
        ),
        None => None,
    }
}

/// Items of a section, read with `f`; nothing when the section is absent.
pub open spec fn read_section<B>(
    body: JsonValue,
    section: Seq<char>,
    f: spec_fn(JsonValue) -> Option<B>,
) -> Seq<B> {
    match section_items(body, section) {
        Some(items) => filter_map(items, f),
        None => Seq::empty(),
    }
}

/// The `items` array of a section of an answer, if there is one.
fn section_array<'a>(body: &'a JsonValue, section: &str) -> (r: Option<&'a Vec<JsonValue>>)
    ensures
        match r {
            Some(v) => section_items(*body, section@) == Some(v@),
            None => section_items(*body, section@) is None,
        },
{
    array_in(get_in(body.get(section), "items"))
}

/// An integer id in decimal, when the value is one.
fn int_id_in(o: Option<&JsonValue>) -> (r: Option<String>)
    ensures
        opt_view(r) == int_id(opt_deref(o)),
{
    match i64_in(o) {
        Some(i) => Some(i64_to_string(i)),
        None => None,
    }
}

/// Reads one favorite artist.
pub fn read_favorite_artist(item: &JsonValue) -> (r: Option<QobuzArtist>)
    ensures
        match r {
            Some(a) => favorite_artist(*item) == Some(a@),
            None => favorite_artist(*item) is None,
        },
{
    match int_id_in(item.get("id")) {
        Some(id) => Some(QobuzArtist { id, name: str_in_or_empty(item.get("name")) }),
        None => None,
    }
}

/// Reads one favorite album.
pub fn read_favorite_album(item: &JsonValue) -> (r: Option<QobuzAlbum>)
    ensures
        match r {
            Some(a) => favorite_album(*item) == Some(a@),
            None => favorite_album(*item) is None,
        },
{
    let id = match int_id_in(item.get("id")) {
        Some(id) => Some(id),
        None => str_in(item.get("id")),
    };
    match id {
        Some(id) => {
            let artist_id = match int_id_in(get_in(item.get("artist"), "id")) {
                Some(a) => a,
                None => str_in_or_empty(item.get("artist_id")),
            };
            let artist_name = match str_in(get_in(item.get("artist"), "name")) {
                Some(n) => n,
                None => str_in_or_empty(item.get("artist")),
            };
            Some(
                QobuzAlbum {
                    id,
                    title: str_in_or_empty(item.get("title")),
                    artist_id,
                    artist_name,
                    release_date: str_in_or_empty(item.get("release_date")),
                },
            )
        },
        None => None,
    }
}

/// Builds track metadata from an item with the given id, title, artist, album.
fn read_track_fields(item: &JsonValue, id: String, title: String, artist: String, album: String) -> (r: TrackMetadata)
    ensures
        r@ == track_from_item(*item, id@, title@, artist@, album@),
{
    TrackMetadata {
        id,
        title,
        artist,
        artist_id: int_id_in(get_in(item.get("performer"), "id")),
        album,
        album_id: int_id_in(get_in(item.get("album"), "id")),
        duration: u64_in(item.get("duration")),
        image_url: str_in(get_in(get_in(item.get("album"), "image"), "large")),
    }
}

/// Reads one favorite track.
pub fn read_favorite_track(item: &JsonValue) -> (r: Option<TrackMetadata>)
    ensures
        match r {
            Some(t) => favorite_track(*item) == Some(t@),
            None => favorite_track(*item) is None,
        },
{
    match int_id_in(item.get("id")) {
        Some(id) => {
            let title = str_in_or_empty(item.get("title"));
            let artist = str_in_or_empty(get_in(item.get("performer"), "name"));
            let album = str_in_or_empty(get_in(item.get("album"), "title"));
            Some(read_track_fields(item, id, title, artist, album))
        },
        None => None,
    }
}

/// The favorites that a `favorite/getUserFavorites` answer lists: artists with
/// an integer id, albums with an id, tracks with an integer id, each in the
/// order of the answer.
pub fn favorites_from_json(body: &JsonValue) -> (r: QobuzFavorites)
    ensures
        artists_view(r.artists@) == read_section(*body, "artists"@, |i: JsonValue| favorite_artist(i)),
        qalbums_view(r.albums@) == read_section(*body, "albums"@, |i: JsonValue| favorite_album(i)),
        tracks_view(r.tracks@) == read_section(*body, "tracks"@, |i: JsonValue| favorite_track(i)),
{
    let mut artists: Vec<QobuzArtist> = Vec::new();
    let mut albums: Vec<QobuzAlbum> = Vec::new();
    let mut tracks: Vec<TrackMetadata> = Vec::new();
    let ghost fa = |i: JsonValue| favorite_artist(i);
    let ghost fb = |i: JsonValue| favorite_album(i);
    let ghost ft = |i: JsonValue| favorite_track(i);
    if let Some(arr) = section_array(body, "artists") {
        for k in 0..arr.len()
            invariant
                artists_view(artists@) == filter_map(arr@.take(k as int), fa),
                fa == (|i: JsonValue| favorite_artist(i)),
        {
            proof {
                lemma_filter_map_step(arr@, fa, k as int);
            }
            let ghost before = artists@;
            if let Some(a) = read_favorite_artist(&arr[k]) {
                artists.push(a);
                assert(artists_view(artists@) == artists_view(before).push(a@));
            }
        }
        assert(arr@.take(arr@.len() as int) == arr@);
    }
    if let Some(arr) = section_array(body, "albums") {
        for k in 0..arr.len()
            invariant
                qalbums_view(albums@) == filter_map(arr@.take(k as int), fb),
                fb == (|i: JsonValue| favorite_album(i)),
        {
            proof {
                lemma_filter_map_step(arr@, fb, k as int);
            }
            let ghost before = albums@;
            if let Some(a) = read_favorite_album(&arr[k]) {
                albums.push(a);
                assert(qalbums_view(albums@) == qalbums_view(before).push(a@));
            }
        }
        assert(arr@.take(arr@.len() as int) == arr@);
    }
    if let Some(arr) = section_array(body, "tracks") {
        for k in 0..arr.len()
            invariant
                tracks_view(tracks@) == filter_map(arr@.take(k as int), ft),
                ft == (|i: JsonValue| favorite_track(i)),
        {
            proof {
                lemma_filter_map_step(arr@, ft, k as int);
            }
            let ghost before = tracks@;
            if let Some(t) = read_favorite_track(&arr[k]) {
                tracks.push(t);
                assert(tracks_view(tracks@) == tracks_view(before).push(t@));
            }
        }
        assert(arr@.take(arr@.len() as int) == arr@);
    }
    QobuzFavorites { artists, albums, tracks }
}

// ---------------------------------------------------------------------------
// Reading search results, track metadata and artist albums
// ---------------------------------------------------------------------------

/// A search result: kept when it has an integer id, a title, a performer name
/// and an album title.
pub open spec fn search_track(item: JsonValue) -> Option<TrackView> {
    match (
        int_id(item.field("id"@)),
        text_of(item.field("title"@)),
        text_of(field_of(item.field("performer"@), "name"@)),
        text_of(field_of(item.field("album"@), "title"@)),
    ) {
        (Some(id), Some(title), Some(artist), Some(album)) => Some(
            track_from_item(item, id, title, artist, album),
        ),
        _ => None,
    }
}

/// Reads one search result.
pub fn read_search_track(item: &JsonValue) -> (r: Option<TrackMetadata>)
    ensures
        match r {
            Some(t) => search_track(*item) == Some(t@),
            None => search_track(*item) is None,
        },
{
    let id = int_id_in(item.get("id"));
    let title = str_in(item.get("title"));
    let artist = str_in(get_in(item.get("performer"), "name"));
    let album = str_in(get_in(item.get("album"), "title"));
    match (id, title, artist, album) {
        (Some(id), Some(title), Some(artist), Some(album)) => Some(
            read_track_fields(item, id, title, artist, album),
        ),
        _ => None,
    }
}

/// The tracks that a `catalog/search` answer lists, in order.
pub fn search_results_from_json(body: &JsonValue) -> (r: Vec<TrackMetadata>)
    ensures
        tracks_view(r@) == read_section(*body, "tracks"@, |i: JsonValue| search_track(i)),
{
    let mut tracks: Vec<TrackMetadata> = Vec::new();
    let ghost f = |i: JsonValue| search_track(i);
    if let Some(arr) = section_array(body, "tracks") {
        for k in 0..arr.len()
            invariant
                tracks_view(tracks@) == filter_map(arr@.take(k as int), f),
                f == (|i: JsonValue| search_track(i)),
        {
            proof {
                lemma_filter_map_step(arr@, f, k as int);
            }
            let ghost before = tracks@;
            if let Some(t) = read_search_track(&arr[k]) {
                tracks.push(t);
                assert(tracks_view(tracks@) == tracks_view(before).push(t@));
            }
        }
        assert(arr@.take(arr@.len() as int) == arr@);
    }
    tracks
}

/// The metadata that a `track/get` answer gives for `track_id`.
pub open spec fn track_metadata_of(body: JsonValue, track_id: Seq<char>) -> TrackView {
    track_from_item(
        body,
        track_id,
        text_or_empty(text_of(body.field("title"@))),
        text_or_empty(text_of(field_of(body.field("performer"@), "name"@))),
        text_or_empty(text_of(field_of(body.field("album"@), "title"@))),
    )
}

/// Reads the metadata of a `track/get` answer for `track_id`.
pub fn track_metadata_from_json(body: &JsonValue, track_id: &str) -> (r: TrackMetadata)
    ensures
        r@ == track_metadata_of(*body, track_id@),
{
    let title = str_in_or_empty(body.get("title"));
    let artist = str_in_or_empty(get_in(body.get("performer"), "name"));
    let album = str_in_or_empty(get_in(body.get("album"), "title"));
    read_track_fields(body, owned(track_id), title, artist, album)
}

/// An album of an `artist/get` answer: kept when it has an integer id, a
/// title and a `release_date` member (whose text, if any, is the date).
pub open spec fn artist_album(item: JsonValue, artist_id: Seq<char>, artist_name: Seq<char>) -> Option<AlbumView> {
    match (int_id(item.field("id"@)), text_of(item.field("title"@)), item.field("release_date"@)) {
        (Some(id), Some(title), Some(date)) => Some(
            AlbumView {
                id,
                title,
                artist_id,
                artist_name,
                release_date: text_or_empty(date.text()),
            },
        ),
        _ => None,
    }
}

/// The albums that an `artist/get?extra=albums` answer lists for `artist_id`.
pub fn artist_albums_from_json(body: &JsonValue, artist_id: &str) -> (r: QobuzArtistDetail)
    ensures
        qalbums_view(r.albums@) == read_section(
            *body,
            "albums"@,
            |i: JsonValue| artist_album(i, artist_id@, text_or_empty(text_of(body.field("name"@)))),
        ),
{
    let artist_name = str_in_or_empty(body.get("name"));
    let mut albums: Vec<QobuzAlbum> = Vec::new();
    let ghost f = |i: JsonValue| artist_album(i, artist_id@, artist_name@);
    if let Some(arr) = section_array(body, "albums") {
        for k in 0..arr.len()
            invariant
                qalbums_view(albums@) == filter_map(arr@.take(k as int), f),
                f == (|i: JsonValue| artist_album(i, artist_id@, artist_name@)),
        {
            proof {
                lemma_filter_map_step(arr@, f, k as int);
            }
            let ghost before = albums@;
            let item = &arr[k];
            let id = int_id_in(item.get("id"));
            let title = str_in(item.get("title"));
            let date = item.get("release_date");
            match (id, title, date) {
                (Some(id), Some(title), Some(date)) => {
                    let release_date = match date.as_str() {
                        Some(d) => d,
                        None => String::new(),
                    };
                    let a = QobuzAlbum {
                        id,
                        title,
                        artist_id: owned(artist_id),
                        artist_name: artist_name.clone(),
                        release_date,
                    };
                    albums.push(a);
                    assert(qalbums_view(albums@) == qalbums_view(before).push(a@));
                },
                _ => {},
            }
        }
        assert(arr@.take(arr@.len() as int) == arr@);
    }
    QobuzArtistDetail { albums }
}

// ---------------------------------------------------------------------------
// Answers and stream URLs
// ---------------------------------------------------------------------------

/// The error for a failed answer: its `message`, else `fallback`.
pub open spec fn failure_message(body: JsonValue, fallback: Seq<char>) -> Seq<char> {
    match text_of(body.field("message"@)) {
        Some(m) => m,
        None => fallback,
    }
}

/// Checks an API answer: a success status passes, otherwise the error is a
/// `Qobuz` error with the answer's `message` (or `fallback`).
pub fn check_answer(success: bool, body: &JsonValue, fallback: &str) -> (r: Result<(), AppError>)
    ensures
        success <==> r is Ok,
        r matches Err(e) ==> e matches AppError::Qobuz(m) && m@ == failure_message(*body, fallback@),
{
    if success {
        Ok(())
    } else {
        match str_in(body.get("message")) {
            Some(m) => Err(AppError::Qobuz(m)),
            None => Err(AppError::Qobuz(owned(fallback))),
        }
    }
}

/// The name of a Qobuz stream format.
pub open spec fn format_name_of(format_id: u32) -> Seq<char> {
    if format_id == 5 {
        "MP3 320"@
    } else if format_id == 6 {
        "FLAC 16-bit"@
    } else if format_id == 7 {
        "FLAC 24-bit"@
    } else if format_id == 27 {
        "FLAC 24-bit >96kHz"@
    } else {
        "Unknown"@
    }
}

/// The name of a Qobuz stream format.
pub fn stream_format_name(format_id: u32) -> (r: &'static str)
    ensures
        r@ == format_name_of(format_id),
{
    match format_id {
        5 => "MP3 320",
        6 => "FLAC 16-bit",
        7 => "FLAC 24-bit",
        27 => "FLAC 24-bit >96kHz",
        _ => "Unknown",
    }
}

/// The stream URL of a `track/getFileUrl` answer that passed `check_answer`:
/// its `url`, which must be present and non-empty.
pub fn stream_url_from_json(body: &JsonValue, track_id: &str, format_id: u32) -> (r: Result<String, AppError>)
    ensures
        match text_of(body.field("url"@)) {
            Some(u) => if u.len() > 0 {
                r matches Ok(s) && s@ == u
            } else {
                r matches Err(e) && e matches AppError::Qobuz(m) && m@
                    == "Qobuz returned empty stream URL for track "@ + track_id@ + " (format_id="@
                    + decimal(format_id as nat) + ")"@
            },
            None => r matches Err(e) && e matches AppError::Qobuz(m) && m@ == "Missing stream URL"@,
        },
{
    match str_in(body.get("url")) {
        Some(u) => {
            if u.as_str().is_empty() {
                let num = u64_to_string(format_id as u64);
                Err(
                    AppError::Qobuz(
                        concat5(
                            "Qobuz returned empty stream URL for track ",
                            track_id,
                            " (format_id=",
                            num.as_str(),
                            ")",
                        ),
                    ),
                )
            } else {
                Ok(u)
            }
        },
        None => Err(AppError::Qobuz("Missing stream URL".to_owned())),
    }
}

/// The bit depth of a `track/getFileUrl` answer (`bit_depth` as `u64`, cast to
/// `u32`).
pub fn bit_depth_from_json(body: &JsonValue) -> (r: Option<u32>)
    ensures
        r == (match uint64_of(body.field("bit_depth"@)) {
            Some(d) => Some(d as u32),
            None => None,
        }),
{
    match u64_in(body.get("bit_depth")) {
        Some(d) => Some(d as u32),
        None => None,
    }
}

/// The tracks a search answer lists (see `search_results_from_json`).
pub open spec fn search_results_of(body: JsonValue) -> Seq<TrackView> {
    read_section(body, "tracks"@, |i: JsonValue| search_track(i))
}

/// The favorite albums a favorites answer lists (see `favorites_from_json`).
pub open spec fn favorite_albums_of(body: JsonValue) -> Seq<AlbumView> {
    read_section(body, "albums"@, |i: JsonValue| favorite_album(i))
}

/// Each track of a search answer is read from one of the answer's items,
/// field by field: its id is the item's integer `id` in decimal, its title the
/// item's `title`, its artist the item's `performer.name`, its album the
/// item's `album.title`; its artist and album ids, duration and image are the
/// item's `performer.id`, `album.id`, `duration` and `album.image.large`.
/// Every item that has the first four gives a track with them.
pub proof fn lemma_search_results_read_items(body: JsonValue, items: Seq<JsonValue>)
    requires
        section_items(body, "tracks"@) == Some(items),
    ensures
        forall|k: int|
            0 <= k < search_results_of(body).len() ==> exists|j: int| #![trigger items[j]]
                0 <= j < items.len() && {
                    let t = #[trigger] search_results_of(body)[k];
                    &&& int_id(items[j].field("id"@)) == Some(t.id)
                    &&& text_of(items[j].field("title"@)) == Some(t.title)
                    &&& text_of(field_of(items[j].field("performer"@), "name"@)) == Some(t.artist)
                    &&& text_of(field_of(items[j].field("album"@), "title"@)) == Some(t.album)
                    &&& t.artist_id == int_id(field_of(items[j].field("performer"@), "id"@))
                    &&& t.album_id == int_id(field_of(items[j].field("album"@), "id"@))
                    &&& t.duration == uint64_of(items[j].field("duration"@))
                    &&& t.image_url == text_of(field_of(field_of(items[j].field("album"@), "image"@), "large"@))
                },
        forall|j: int|
            0 <= j < items.len() && int_id(#[trigger] items[j].field("id"@)) is Some && text_of(items[j].field("title"@)) is Some
                && text_of(field_of(items[j].field("performer"@), "name"@)) is Some && text_of(
                field_of(items[j].field("album"@), "title"@),
            ) is Some ==> exists|k: int|
                0 <= k < search_results_of(body).len() && {
                    let t = #[trigger] search_results_of(body)[k];
                    &&& Some(t.id) == int_id(items[j].field("id"@))
                    &&& Some(t.title) == text_of(items[j].field("title"@))
                    &&& Some(t.artist) == text_of(field_of(items[j].field("performer"@), "name"@))
                    &&& Some(t.album) == text_of(field_of(items[j].field("album"@), "title"@))
                },
{
    let f = |i: JsonValue| search_track(i);
    let rs = read_section(body, "tracks"@, f);
    assert(rs == filter_map(items, f));
    assert forall|k: int| 0 <= k < rs.len() implies exists|j: int| #![trigger items[j]]
        0 <= j < items.len() && {
            let t = #[trigger] rs[k];
            &&& int_id(items[j].field("id"@)) == Some(t.id)
            &&& text_of(items[j].field("title"@)) == Some(t.title)
            &&& text_of(field_of(items[j].field("performer"@), "name"@)) == Some(t.artist)
            &&& text_of(field_of(items[j].field("album"@), "title"@)) == Some(t.album)
            &&& t.artist_id == int_id(field_of(items[j].field("performer"@), "id"@))
            &&& t.album_id == int_id(field_of(items[j].field("album"@), "id"@))
            &&& t.duration == uint64_of(items[j].field("duration"@))
            &&& t.image_url == text_of(field_of(field_of(items[j].field("album"@), "image"@), "large"@))
        } by {
        lemma_filter_map_source(items, f, k);
        let j = choose|j: int| 0 <= j < items.len() && f(items[j]) == Some(rs[k]);
        assert(f(items[j]) == search_track(items[j]));
    }
    assert forall|j: int|
        0 <= j < items.len() && int_id(#[trigger] items[j].field("id"@)) is Some && text_of(items[j].field("title"@)) is Some
            && text_of(field_of(items[j].field("performer"@), "name"@)) is Some && text_of(
            field_of(items[j].field("album"@), "title"@),
        ) is Some implies exists|k: int|
            0 <= k < rs.len() && {
                let t = #[trigger] rs[k];
                &&& Some(t.id) == int_id(items[j].field("id"@))
                &&& Some(t.title) == text_of(items[j].field("title"@))
                &&& Some(t.artist) == text_of(field_of(items[j].field("performer"@), "name"@))
                &&& Some(t.album) == text_of(field_of(items[j].field("album"@), "title"@))
            } by {
        assert(f(items[j]) == search_track(items[j]));
        assert(f(items[j]) is Some);
        lemma_filter_map_keeps(items, f, j);
        let k = choose|k: int| 0 <= k < rs.len() && rs[k] == f(items[j])->0;
        assert(rs[k] == f(items[j])->0);
    }
}

/// Each favorite album of a favorites answer is read from one of the
/// answer's album items: its id is the item's `id` (an integer in decimal, or
/// a string), its title the item's `title`, and, when the item's `artist`
/// has an integer `id`, its artist id is that integer in decimal (else the
/// item's string `artist_id`, else empty); its artist name is `artist.name`
/// when that is a string.
pub proof fn lemma_favorite_albums_read_items(body: JsonValue, items: Seq<JsonValue>)
    requires
        section_items(body, "albums"@) == Some(items),
    ensures
        forall|k: int|
            0 <= k < favorite_albums_of(body).len() ==> exists|j: int| #![trigger items[j]]
                0 <= j < items.len() && {
                    let a = #[trigger] favorite_albums_of(body)[k];
                    &&& (int_id(items[j].field("id"@)) == Some(a.id) || (int_id(items[j].field("id"@)) is None
                        && text_of(items[j].field("id"@)) == Some(a.id)))
                    &&& a.title == text_or_empty(text_of(items[j].field("title"@)))
                    &&& a.release_date == text_or_empty(text_of(items[j].field("release_date"@)))
                    &&& (int64_of(field_of(items[j].field("artist"@), "id"@)) matches Some(n) ==> a.artist_id
                        == signed_decimal(n as int))
                    &&& (int64_of(field_of(items[j].field("artist"@), "id"@)) is None ==> a.artist_id == text_or_empty(
                        text_of(items[j].field("artist_id"@)),
                    ))
                    &&& (text_of(field_of(items[j].field("artist"@), "name"@)) matches Some(nm) ==> a.artist_name == nm)
                },
{
    let f = |i: JsonValue| favorite_album(i);
    let rs = read_section(body, "albums"@, f);
    assert(rs == filter_map(items, f));
    assert forall|k: int| 0 <= k < rs.len() implies exists|j: int| #![trigger items[j]]
        0 <= j < items.len() && {
            let a = #[trigger] rs[k];
            &&& (int_id(items[j].field("id"@)) == Some(a.id) || (int_id(items[j].field("id"@)) is None && text_of(
                items[j].field("id"@),
            ) == Some(a.id)))
            &&& a.title == text_or_empty(text_of(items[j].field("title"@)))
            &&& a.release_date == text_or_empty(text_of(items[j].field("release_date"@)))
            &&& (int64_of(field_of(items[j].field("artist"@), "id"@)) matches Some(n) ==> a.artist_id == signed_decimal(
                n as int,
            ))
            &&& (int64_of(field_of(items[j].field("artist"@), "id"@)) is None ==> a.artist_id == text_or_empty(
                text_of(items[j].field("artist_id"@)),
            ))
            &&& (text_of(field_of(items[j].field("artist"@), "name"@)) matches Some(nm) ==> a.artist_name == nm)
        } by {
        lemma_filter_map_source(items, f, k);
        let j = choose|j: int| 0 <= j < items.len() && f(items[j]) == Some(rs[k]);
        assert(f(items[j]) == favorite_album(items[j]));
    }
}

/// The favorite artists a favorites answer lists (see `favorites_from_json`).
pub open spec fn favorite_artists_of(body: JsonValue) -> Seq<QobuzArtistView> {
    read_section(body, "artists"@, |i: JsonValue| favorite_artist(i))
}

/// The favorite tracks a favorites answer lists (see `favorites_from_json`).
pub open spec fn favorite_tracks_of(body: JsonValue) -> Seq<TrackView> {
    read_section(body, "tracks"@, |i: JsonValue| favorite_track(i))
}

/// Each favorite artist of a favorites answer is one of its artist items
/// with an integer `id`: that id in decimal, and the item's `name` (empty when
/// missing). Every such item gives an artist.
pub proof fn lemma_favorite_artists_read_items(body: JsonValue, items: Seq<JsonValue>)
    requires
        section_items(body, "artists"@) == Some(items),
    ensures
        forall|k: int|
            0 <= k < favorite_artists_of(body).len() ==> exists|j: int| #![trigger items[j]]
                0 <= j < items.len() && {
                    let a = #[trigger] favorite_artists_of(body)[k];
                    &&& int_id(items[j].field("id"@)) == Some(a.id)
                    &&& a.name == text_or_empty(text_of(items[j].field("name"@)))
                },
        forall|j: int|
            0 <= j < items.len() && int_id(#[trigger] items[j].field("id"@)) is Some ==> favorite_artists_of(body).contains(
                QobuzArtistView {
                    id: int_id(items[j].field("id"@))->0,
                    name: text_or_empty(text_of(items[j].field("name"@))),
                },
            ),
{
    let f = |i: JsonValue| favorite_artist(i);
    let rs = read_section(body, "artists"@, f);
    assert(rs == filter_map(items, f));
    assert forall|k: int| 0 <= k < rs.len() implies exists|j: int| #![trigger items[j]]
        0 <= j < items.len() && {
            let a = #[trigger] rs[k];
            &&& int_id(items[j].field("id"@)) == Some(a.id)
            &&& a.name == text_or_empty(text_of(items[j].field("name"@)))
        } by {
        lemma_filter_map_source(items, f, k);
        let j = choose|j: int| 0 <= j < items.len() && f(items[j]) == Some(rs[k]);
        assert(f(items[j]) == favorite_artist(items[j]));
    }
    assert forall|j: int| 0 <= j < items.len() && int_id(#[trigger] items[j].field("id"@)) is Some implies rs.contains(
        QobuzArtistView { id: int_id(items[j].field("id"@))->0, name: text_or_empty(text_of(items[j].field("name"@))) },
    ) by {
        assert(f(items[j]) == favorite_artist(items[j]));
        lemma_filter_map_keeps(items, f, j);
    }
}

/// Each favorite track of a favorites answer is one of its track items with
/// an integer `id`: that id in decimal, its title the item's `title`, its
/// artist `performer.name` and its album `album.title` (each empty when
/// missing), its artist id the integer `performer.id`.
pub proof fn lemma_favorite_tracks_read_items(body: JsonValue, items: Seq<JsonValue>)
    requires
        section_items(body, "tracks"@) == Some(items),
    ensures
        forall|k: int|
            0 <= k < favorite_tracks_of(body).len() ==> exists|j: int| #![trigger items[j]]
                0 <= j < items.len() && {
                    let t = #[trigger] favorite_tracks_of(body)[k];
                    &&& int_id(items[j].field("id"@)) == Some(t.id)
                    &&& t.title == text_or_empty(text_of(items[j].field("title"@)))
                    &&& t.artist == text_or_empty(text_of(field_of(items[j].field("performer"@), "name"@)))
                    &&& t.album == text_or_empty(text_of(field_of(items[j].field("album"@), "title"@)))
                    &&& t.artist_id == int_id(field_of(items[j].field("performer"@), "id"@))
                },
{
    let f = |i: JsonValue| favorite_track(i);
    let rs = read_section(body, "tracks"@, f);
    assert(rs == filter_map(items, f));
    assert forall|k: int| 0 <= k < rs.len() implies exists|j: int| #![trigger items[j]]
        0 <= j < items.len() && {
            let t = #[trigger] rs[k];
            &&& int_id(items[j].field("id"@)) == Some(t.id)
            &&& t.title == text_or_empty(text_of(items[j].field("title"@)))
            &&& t.artist == text_or_empty(text_of(field_of(items[j].field("performer"@), "name"@)))
            &&& t.album == text_or_empty(text_of(field_of(items[j].field("album"@), "title"@)))
            &&& t.artist_id == int_id(field_of(items[j].field("performer"@), "id"@))
        } by {
        lemma_filter_map_source(items, f, k);
        let j = choose|j: int| 0 <= j < items.len() && f(items[j]) == Some(rs[k]);
        assert(f(items[j]) == favorite_track(items[j]));
    }
}

} // verus!
