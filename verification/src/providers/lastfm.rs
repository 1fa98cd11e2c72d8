//! The Last.fm API: the query of each method, and the reading of its answers.
//! Sending the requests is left to the caller.
use vstd::prelude::*;

use crate::json::{
    array_in, elements_of, field_of, filter_map, get_in, lemma_filter_map_step, str_in, text_of,
    JsonValue,
};
use crate::text::owned;

verus! {

/// The Last.fm API key and endpoint.
#[derive(Clone, Debug)]
pub struct LastfmClient {
    pub api_key: String,
    pub base_url: String,
}

/// A query parameter, as plain text.
pub open spec fn param_view(p: (String, String)) -> (Seq<char>, Seq<char>) {
    (p.0@, p.1@)
}

/// The views of a list of query parameters.
pub open spec fn params_view(v: Seq<(String, String)>) -> Seq<(Seq<char>, Seq<char>)> {
    v.map_values(|p: (String, String)| param_view(p))
}

/// The query of a Last.fm method on one subject (`artist` or `tag`), with an
/// optional result limit.
pub open spec fn method_query(
    method: Seq<char>,
    subject_key: Seq<char>,
    subject: Seq<char>,
    api_key: Seq<char>,
    limit: Option<Seq<char>>,
) -> Seq<(Seq<char>, Seq<char>)> {
    let base = seq![
        ("method"@, method),
        (subject_key, subject),
        ("api_key"@, api_key),
        ("format"@, "json"@),
    ];
    match limit {
        Some(l) => base.push(("limit"@, l)),
        None => base,
    }
}

fn pair(a: &str, b: &str) -> (r: (String, String))
    ensures
        param_view(r) == (a@, b@),
{
    (owned(a), owned(b))
}

fn build_query(method: &str, subject_key: &str, subject: &str, api_key: &str, limit: Option<&str>) -> (r: Vec<(String, String)>)
    ensures
        params_view(r@) == method_query(
            method@,
            subject_key@,
            subject@,
            api_key@,
            match limit {
                Some(l) => Some(l@),
                None => None,
            },
        ),
{
    let mut v: Vec<(String, String)> = Vec::new();
    v.push(pair("method", method));
    v.push(pair(subject_key, subject));
    v.push(pair("api_key", api_key));
    v.push(pair("format", "json"));
    match limit {
        Some(l) => {
            v.push(pair("limit", l));
        },
        None => {},
    }
    assert(params_view(v@) =~= method_query(
        method@,
        subject_key@,
        subject@,
        api_key@,
        match limit {
            Some(l) => Some(l@),
            None => None,
        },
    ));
    v
}

impl LastfmClient {
    /// A client with the given API key, on the public endpoint.
    pub fn new(api_key: String) -> (r: LastfmClient)
        ensures
            r.api_key@ == api_key@,
            r.base_url@ == "https://ws.audioscrobbler.com/2.0"@,
    {
        LastfmClient { api_key, base_url: owned("https://ws.audioscrobbler.com/2.0") }
    }

    /// The query for the artists similar to `artist` (at most 20).
    pub fn similar_artists_query(&self, artist: &str) -> (r: Vec<(String, String)>)
        ensures
            params_view(r@) == method_query("artist.getSimilar"@, "artist"@, artist@, self.api_key@, Some("20"@)),
    {
        build_query("artist.getSimilar", "artist", artist, self.api_key.as_str(), Some("20"))
    }

    /// The query for the top tracks of `artist` (at most 10).
    pub fn top_tracks_query(&self, artist: &str) -> (r: Vec<(String, String)>)
        ensures
            params_view(r@) == method_query("artist.getTopTracks"@, "artist"@, artist@, self.api_key@, Some("10"@)),
    {
        build_query("artist.getTopTracks", "artist", artist, self.api_key.as_str(), Some("10"))
    }

    /// The query for the top tracks of `tag` (at most 50).
    pub fn top_tracks_by_tag_query(&self, tag: &str) -> (r: Vec<(String, String)>)
        ensures
            params_view(r@) == method_query("tag.getTopTracks"@, "tag"@, tag@, self.api_key@, Some("50"@)),
    {
        build_query("tag.getTopTracks", "tag", tag, self.api_key.as_str(), Some("50"))
    }

    /// The query for the tags similar to `tag`.
    pub fn similar_tags_query(&self, tag: &str) -> (r: Vec<(String, String)>)
        ensures
            params_view(r@) == method_query("tag.getSimilar"@, "tag"@, tag@, self.api_key@, None),
    {
        build_query("tag.getSimilar", "tag", tag, self.api_key.as_str(), None)
    }
}

impl Default for LastfmClient {
    fn default() -> (r: LastfmClient)
        ensures
            r.api_key@.len() == 0,
            r.base_url@ == "https://ws.audioscrobbler.com/2.0"@,
    {
        LastfmClient::new(String::new())
    }
}

/// A track of a tag's top tracks.
#[derive(Clone, Debug)]
pub struct TagTrack {
    pub title: String,
    pub artist: String,
}

pub struct TagTrackView {
    pub title: Seq<char>,
    pub artist: Seq<char>,
}

impl View for TagTrack {
    type V = TagTrackView;

    open spec fn view(&self) -> TagTrackView {
        TagTrackView { title: self.title@, artist: self.artist@ }
    }
}

/// Last.fm answers an error with a body that has an `error` field; such an
/// answer lists nothing.
pub open spec fn is_error_answer(data: JsonValue) -> bool {
    data.field("error"@) is Some
}

/// The items listed under `section.list` of an answer, if that is an array.
pub open spec fn listed_items(data: JsonValue, section: Seq<char>, list: Seq<char>) -> Option<Seq<JsonValue>> {
    elements_of(field_of(data.field(section), list))
}

/// The `name` text of an item.
pub open spec fn item_name(item: JsonValue) -> Option<Seq<char>> {
    text_of(item.field("name"@))
}

/// A top track of a tag: its `name` and its artist's `name`.
pub open spec fn tag_track(item: JsonValue) -> Option<TagTrackView> {
    match (text_of(item.field("name"@)), text_of(field_of(item.field("artist"@), "name"@))) {
        (Some(title), Some(artist)) => Some(TagTrackView { title, artist }),
        _ => None,
    }
}

/// A similar artist: its `name` and the text of its `match` score.
pub open spec fn similar_artist(item: JsonValue) -> Option<(Seq<char>, Seq<char>)> {
    match (text_of(item.field("name"@)), text_of(item.field("match"@))) {
        (Some(name), Some(score)) => Some((name, score)),
        _ => None,
    }
}

/// What an answer lists under `section.list`, read by `f`: nothing for an
/// error answer or a missing list, else the items that `f` keeps, in order.
pub open spec fn read_list<B>(data: JsonValue, section: Seq<char>, list: Seq<char>, f: spec_fn(JsonValue) -> Option<B>) -> Seq<B> {
    if is_error_answer(data) {
        Seq::empty()
    } else {
        match listed_items(data, section, list) {
            Some(items) => filter_map(items, f),
            None => Seq::empty(),
        }
    }
}

/// The names listed under `section.list` of an answer (the top tracks of an
/// artist: `toptracks.track`; similar tags: `similartags.tag`).
pub fn listed_names(data: &JsonValue, section: &str, list: &str) -> (r: Vec<String>)
    ensures
        r@.map_values(|s: String| s@) == read_list(*data, section@, list@, |i: JsonValue| item_name(i)),
{
    let mut out: Vec<String> = Vec::new();
    let ghost f = |i: JsonValue| item_name(i);
    if data.get("error").is_some() {
        return out;
    }
    if let Some(arr) = array_in(get_in(data.get(section), list)) {
        for k in 0..arr.len()
            invariant
                out@.map_values(|s: String| s@) == filter_map(arr@.take(k as int), f),
                f == (|i: JsonValue| item_name(i)),
        {
            proof {
                lemma_filter_map_step(arr@, f, k as int);
            }
            let ghost before = out@.map_values(|s: String| s@);
            if let Some(n) = str_in(arr[k].get("name")) {
                out.push(n);
                assert(out@.map_values(|s: String| s@) == before.push(n@));
            }
        }
        assert(arr@.take(arr@.len() as int) == arr@);
    }
    out
}

/// The names of the top tracks of an artist (`artist.getTopTracks`).
pub fn top_tracks_from_json(data: &JsonValue) -> (r: Vec<String>)
    ensures
        r@.map_values(|s: String| s@) == read_list(*data, "toptracks"@, "track"@, |i: JsonValue| item_name(i)),
{
    listed_names(data, "toptracks", "track")
}

/// The names of the tags similar to a tag (`tag.getSimilar`).
pub fn similar_tags_from_json(data: &JsonValue) -> (r: Vec<String>)
    ensures
        r@.map_values(|s: String| s@) == read_list(*data, "similartags"@, "tag"@, |i: JsonValue| item_name(i)),
{
    listed_names(data, "similartags", "tag")
}

/// The top tracks of a tag (`tag.getTopTracks`).
pub fn tag_tracks_from_json(data: &JsonValue) -> (r: Vec<TagTrack>)
    ensures
        r@.map_values(|t: TagTrack| t@) == read_list(*data, "tracks"@, "track"@, |i: JsonValue| tag_track(i)),
{
    let mut out: Vec<TagTrack> = Vec::new();
    let ghost f = |i: JsonValue| tag_track(i);
    if data.get("error").is_some() {
        return out;
    }
    if let Some(arr) = array_in(get_in(data.get("tracks"), "track")) {
        for k in 0..arr.len()
            invariant
                out@.map_values(|t: TagTrack| t@) == filter_map(arr@.take(k as int), f),
                f == (|i: JsonValue| tag_track(i)),
        {
            proof {
                lemma_filter_map_step(arr@, f, k as int);
            }
            let ghost before = out@.map_values(|t: TagTrack| t@);
            let title = str_in(arr[k].get("name"));
            let artist = str_in(get_in(arr[k].get("artist"), "name"));
            match (title, artist) {
                (Some(title), Some(artist)) => {
                    let t = TagTrack { title, artist };
                    out.push(t);
                    assert(out@.map_values(|t: TagTrack| t@) == before.push(t@));
                },
                _ => {},
            }
        }
        assert(arr@.take(arr@.len() as int) == arr@);
    }
    out
}

/// The similar artists of an answer to `artist.getSimilar`, each as its name
/// and the text of its match score (the score is a decimal number, read by the
/// caller).
pub fn similar_artists_from_json(data: &JsonValue) -> (r: Vec<(String, String)>)
    ensures
        params_view(r@) == read_list(*data, "similarartists"@, "artist"@, |i: JsonValue| similar_artist(i)),
{
    let mut out: Vec<(String, String)> = Vec::new();
    let ghost f = |i: JsonValue| similar_artist(i);
    if data.get("error").is_some() {
        return out;
    }
    if let Some(arr) = array_in(get_in(data.get("similarartists"), "artist")) {
        for k in 0..arr.len()
            invariant
                params_view(out@) == filter_map(arr@.take(k as int), f),
                f == (|i: JsonValue| similar_artist(i)),
        {
            proof {
                lemma_filter_map_step(arr@, f, k as int);
            }
            let ghost before = params_view(out@);
            let name = str_in(arr[k].get("name"));
            let score = str_in(arr[k].get("match"));
            match (name, score) {
                (Some(name), Some(score)) => {
                    let p = (name, score);
                    out.push(p);
                    assert(params_view(out@) == before.push(param_view(p)));
                },
                _ => {},
            }
        }
        assert(arr@.take(arr@.len() as int) == arr@);
    }
    out
}

} // verus!
