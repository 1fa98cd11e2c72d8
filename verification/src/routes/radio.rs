//! Starting a radio, reporting on it and moving on to the next track.
use vstd::prelude::*;

use crate::bindings::{to_lowercase, unicode_lowercase};
use crate::errors::AppError;
use crate::state::{
    clone_opt_string, clone_strings, opt_view, pool_name, pool_name_of, strings_view, PlaybackTarget,
    PlayedTrack, PlayedView, Pool, QueuedTrack, QueuedView, RadioSession, TasteProfile,
};
use crate::text::{concat3, contains_seq, occurs_at, owned, split_whitespace, str_contains, str_eq, words};
use std::collections::VecDeque;

verus! {

/// One queued track as the API reports it.
#[derive(Clone, Debug)]
pub struct QueuedTrackResponse {
    pub track_id: String,
    pub title: String,
    pub artist: String,
    pub album: String,
    pub image_url: Option<String>,
    pub duration: Option<u64>,
    pub pool: String,
}

pub struct QueuedTrackResponseView {
    pub track_id: Seq<char>,
    pub title: Seq<char>,
    pub artist: Seq<char>,
    pub album: Seq<char>,
    pub image_url: Option<Seq<char>>,
    pub duration: Option<u64>,
    pub pool: Seq<char>,
}

impl View for QueuedTrackResponse {
    type V = QueuedTrackResponseView;

    open spec fn view(&self) -> QueuedTrackResponseView {
        QueuedTrackResponseView {
            track_id: self.track_id@,
            title: self.title@,
            artist: self.artist@,
            album: self.album@,
            image_url: opt_view(self.image_url),
            duration: self.duration,
            pool: self.pool@,
        }
    }
}

/// The answer to a radio start.
#[derive(Clone, Debug)]
pub struct StartRadioResponse {
    pub session_id: String,
    pub theme_tags: Vec<String>,
    pub queue: Vec<QueuedTrackResponse>,
    pub target: String,
}

/// The answer to a status request on a session.
#[derive(Clone, Debug)]
pub struct SessionStatusResponse {
    pub session_id: String,
    pub theme: String,
    pub current_track: Option<QueuedTrackResponse>,
    pub queue_remaining: usize,
    pub target: String,
}

/// How a queued track is reported.
pub open spec fn response_of(q: QueuedView) -> QueuedTrackResponseView {
    QueuedTrackResponseView {
        track_id: q.track_id,
        title: q.metadata.title,
        artist: q.metadata.artist,
        album: q.metadata.album,
        image_url: q.metadata.image_url,
        duration: q.metadata.duration,
        pool: pool_name_of(q.pool),
    }
}

/// How a whole queue is reported.
pub open spec fn queue_report(q: Seq<QueuedTrack>) -> Seq<QueuedTrackResponseView> {
    q.map_values(|t: QueuedTrack| response_of(t@))
}

/// The name of a playback target in answers.
pub open spec fn target_name_of(t: PlaybackTarget) -> Seq<char> {
    match t {
        PlaybackTarget::Phone => "phone"@,
        PlaybackTarget::Wiim => "wiim"@,
    }
}

/// The name of a playback target in answers.
pub fn target_name(t: PlaybackTarget) -> (r: String)
    ensures
        r@ == target_name_of(t),
{
    match t {
        PlaybackTarget::Phone => owned("phone"),
        PlaybackTarget::Wiim => owned("wiim"),
    }
}

/// The playback target a request names: `wiim`, or else the phone.
pub fn parse_target(target: &str) -> (r: PlaybackTarget)
    ensures
        r == (if target@ == "wiim"@ { PlaybackTarget::Wiim } else { PlaybackTarget::Phone }),
{
    if str_eq(target, "wiim") {
        PlaybackTarget::Wiim
    } else {
        PlaybackTarget::Phone
    }
}

/// Reports one queued track.
pub fn track_response(q: &QueuedTrack) -> (r: QueuedTrackResponse)
    ensures
        r@ == response_of(q@),
{
    QueuedTrackResponse {
        track_id: q.track_id.clone(),
        title: q.metadata.title.clone(),
        artist: q.metadata.artist.clone(),
        album: q.metadata.album.clone(),
        image_url: clone_opt_string(&q.metadata.image_url),
        duration: q.metadata.duration,
        pool: owned(pool_name(q.pool)),
    }
}

/// A queue is reported track by track, front first, each with its own track
/// id, title, artist, album, image and duration, and its pool by name.
pub proof fn lemma_queue_report_fields(q: Seq<QueuedTrack>)
    ensures
        queue_report(q).len() == q.len(),
        forall|i: int|
            0 <= i < q.len() ==> {
                let r = #[trigger] queue_report(q)[i];
                &&& r.track_id == q[i].track_id@
                &&& r.title == q[i].metadata.title@
                &&& r.artist == q[i].metadata.artist@
                &&& r.album == q[i].metadata.album@
                &&& r.image_url == opt_view(q[i].metadata.image_url)
                &&& r.duration == q[i].metadata.duration
                &&& (q[i].pool == Pool::Familiar ==> r.pool == "Familiar"@)
                &&& (q[i].pool == Pool::NewRelease ==> r.pool == "NewRelease"@)
                &&& (q[i].pool == Pool::Discovery ==> r.pool == "Discovery"@)
            },
{
}

/// Reports a whole queue, front first.
pub fn queue_responses(queue: &VecDeque<QueuedTrack>) -> (r: Vec<QueuedTrackResponse>)
    ensures
        r@.map_values(|t: QueuedTrackResponse| t@) == queue_report(queue@),
{
    let mut out: Vec<QueuedTrackResponse> = Vec::new();
    let n = queue.len();
    for i in 0..n
        invariant
            n == queue@.len(),
            out@.map_values(|t: QueuedTrackResponse| t@) == queue_report(queue@.take(i as int)),
    {
        let t = track_response(&queue[i]);
        let ghost before = out@.map_values(|t: QueuedTrackResponse| t@);
        out.push(t);
        assert(out@.map_values(|t: QueuedTrackResponse| t@) == before.push(t@));
        assert(queue_report(queue@.take(i + 1)) == queue_report(queue@.take(i as int)).push(response_of(queue@[i as int]@)));
    }
    assert(queue@.take(n as int) == queue@);
    out
}

// ---------------------------------------------------------------------------
// Theme tags
// ---------------------------------------------------------------------------

/// `acc` with `tag` added at the end unless it is already there.
pub open spec fn add_tag(acc: Seq<Seq<char>>, tag: Seq<char>) -> Seq<Seq<char>> {
    if acc.contains(tag) {
        acc
    } else {
        acc.push(tag)
    }
}

/// `acc` with each of `tags` added in turn (see `add_tag`).
pub open spec fn add_tags(acc: Seq<Seq<char>>, tags: Seq<Seq<char>>) -> Seq<Seq<char>>
    decreases tags.len(),
{
    if tags.len() == 0 {
        acc
    } else {
        add_tag(add_tags(acc, tags.drop_last()), tags.last())
    }
}

/// One entry of the theme dictionary: when the theme contains `key`, its
/// tags are added.
pub open spec fn dictionary_step(acc: Seq<Seq<char>>, theme: Seq<char>, key: Seq<char>, tags: Seq<Seq<char>>) -> Seq<Seq<char>> {
    if contains_seq(theme, key) {
        add_tags(acc, tags)
    } else {
        acc
    }
}

/// The tags that the theme dictionary gives for a theme, entry by entry: for
/// "chill folk soir" they are chill, folk, acoustic, mellow; for "running"
/// energetic, electronic, upbeat; for "shoegaze" shoegaze, dream-pop,
/// noise-pop.
pub open spec fn dictionary_tags(theme: Seq<char>) -> Seq<Seq<char>> {
    let a = dictionary_step(Seq::empty(), theme, "chill"@, seq!["chill"@]);
    let b = dictionary_step(a, theme, "folk"@, seq!["folk"@, "acoustic"@]);
    let c = dictionary_step(b, theme, "soir"@, seq!["mellow"@]);
    let d = dictionary_step(c, theme, "running"@, seq!["energetic"@, "electronic"@, "upbeat"@]);
    let e = dictionary_step(d, theme, "shoegaze"@, seq!["shoegaze"@, "dream-pop"@, "noise-pop"@]);
    dictionary_step(e, theme, "winter"@, seq!["ambient"@, "mellow"@, "acoustic"@])
}

/// The tags of a theme: those of the dictionary, or, when no entry matches,
/// the words of the theme.
pub open spec fn theme_tags_of(theme: Seq<char>) -> Seq<Seq<char>> {
    let tags = dictionary_tags(theme);
    if tags.len() == 0 {
        words(theme)
    } else {
        tags
    }
}

fn add_tag_exec(tags: &mut Vec<String>, tag: &str)
    ensures
        strings_view(final(tags)@) == add_tag(strings_view(old(tags)@), tag@),
{
    let ghost views = strings_view(tags@);
    let mut i: usize = 0;
    while i < tags.len()
        invariant
            i <= tags@.len(),
            views == strings_view(tags@),
            forall|j: int| 0 <= j < i ==> views[j] != tag@,
        decreases tags.len() - i,
    {
        if str_eq(tags[i].as_str(), tag) {
            assert(views.contains(tag@)) by {
                assert(views[i as int] == tag@);
            }
            return;
        }
        i = i + 1;
    }
    assert(!views.contains(tag@));
    tags.push(owned(tag));
    assert(strings_view(tags@) == views.push(tag@));
}

fn dictionary_entry(tags: &mut Vec<String>, theme: &str, key: &str, vals: &[&str])
    ensures
        strings_view(final(tags)@) == dictionary_step(
            strings_view(old(tags)@),
            theme@,
            key@,
            vals@.map_values(|v: &str| v@),
        ),
{
    let ghost views = vals@.map_values(|v: &str| v@);
    if str_contains(theme, key) {
        let ghost start = strings_view(tags@);
        assert(views.take(0) == Seq::<Seq<char>>::empty());
        for i in 0..vals.len()
            invariant
                views == vals@.map_values(|v: &str| v@),
                strings_view(tags@) == add_tags(start, views.take(i as int)),
        {
            add_tag_exec(tags, vals[i]);
            assert(views.take(i + 1).drop_last() == views.take(i as int));
            assert(views.take(i + 1).last() == vals@[i as int]@);
        }
        assert(views.take(vals.len() as int) == views);
    }
}

/// The tags of a radio theme: each dictionary entry whose key occurs in the
/// theme adds its tags, skipping those already present; when none matches,
/// the words of the theme are the tags.
pub fn expand_theme_tags(theme: &str) -> (r: Vec<String>)
    ensures
        strings_view(r@) == theme_tags_of(theme@),
{
    let mut tags: Vec<String> = Vec::new();
    assert(strings_view(tags@) == Seq::<Seq<char>>::empty());
    let a: [&str; 1] = ["chill"];
    assert(a@.map_values(|v: &str| v@) == seq!["chill"@]);
    dictionary_entry(&mut tags, theme, "chill", &a);
    let b: [&str; 2] = ["folk", "acoustic"];
    assert(b@.map_values(|v: &str| v@) == seq!["folk"@, "acoustic"@]);
    dictionary_entry(&mut tags, theme, "folk", &b);
    let c: [&str; 1] = ["mellow"];
    assert(c@.map_values(|v: &str| v@) == seq!["mellow"@]);
    dictionary_entry(&mut tags, theme, "soir", &c);
    let d: [&str; 3] = ["energetic", "electronic", "upbeat"];
    assert(d@.map_values(|v: &str| v@) == seq!["energetic"@, "electronic"@, "upbeat"@]);
    dictionary_entry(&mut tags, theme, "running", &d);
    let e: [&str; 3] = ["shoegaze", "dream-pop", "noise-pop"];
    assert(e@.map_values(|v: &str| v@) == seq!["shoegaze"@, "dream-pop"@, "noise-pop"@]);
    dictionary_entry(&mut tags, theme, "shoegaze", &e);
    let f: [&str; 3] = ["ambient", "mellow", "acoustic"];
    assert(f@.map_values(|v: &str| v@) == seq!["ambient"@, "mellow"@, "acoustic"@]);
    dictionary_entry(&mut tags, theme, "winter", &f);
    if tags.len() == 0 {
        let w = split_whitespace(theme);
        assert(strings_view(w@) == w@.map_values(|s: String| s@));
        return w;
    }
    tags
}

/// The theme of a radio request, lowercased, and its tags.
pub fn theme_and_tags(theme: &str) -> (r: (String, Vec<String>))
    ensures
        r.0@ == unicode_lowercase(theme@),
        strings_view(r.1@) == theme_tags_of(r.0@),
{
    let lowered = to_lowercase(theme);
    let tags = expand_theme_tags(lowered.as_str());
    (lowered, tags)
}

/// No tag occurs twice.
pub open spec fn no_repeats(s: Seq<Seq<char>>) -> bool {
    forall|i: int, j: int| 0 <= i < j < s.len() ==> s[i] != s[j]
}

proof fn lemma_add_tag_no_repeats(acc: Seq<Seq<char>>, tag: Seq<char>)
    requires
        no_repeats(acc),
    ensures
        no_repeats(add_tag(acc, tag)),
{
    if !acc.contains(tag) {
        let r = acc.push(tag);
        assert forall|i: int, j: int| 0 <= i < j < r.len() implies r[i] != r[j] by {
            if j == acc.len() {
                assert(r[i] == acc[i]);
            }
        }
    }
}

proof fn lemma_add_tags_no_repeats(acc: Seq<Seq<char>>, tags: Seq<Seq<char>>)
    requires
        no_repeats(acc),
    ensures
        no_repeats(add_tags(acc, tags)),
    decreases tags.len(),
{
    if tags.len() > 0 {
        lemma_add_tags_no_repeats(acc, tags.drop_last());
        lemma_add_tag_no_repeats(add_tags(acc, tags.drop_last()), tags.last());
    }
}

/// The tags that the dictionary gives for a theme never repeat one another.
pub proof fn lemma_dictionary_tags_distinct(theme: Seq<char>)
    ensures
        no_repeats(dictionary_tags(theme)),
{
    let a = dictionary_step(Seq::empty(), theme, "chill"@, seq!["chill"@]);
    let b = dictionary_step(a, theme, "folk"@, seq!["folk"@, "acoustic"@]);
    let c = dictionary_step(b, theme, "soir"@, seq!["mellow"@]);
    let d = dictionary_step(c, theme, "running"@, seq!["energetic"@, "electronic"@, "upbeat"@]);
    let e = dictionary_step(d, theme, "shoegaze"@, seq!["shoegaze"@, "dream-pop"@, "noise-pop"@]);
    lemma_add_tags_no_repeats(Seq::empty(), seq!["chill"@]);
    lemma_add_tags_no_repeats(a, seq!["folk"@, "acoustic"@]);
    lemma_add_tags_no_repeats(b, seq!["mellow"@]);
    lemma_add_tags_no_repeats(c, seq!["energetic"@, "electronic"@, "upbeat"@]);
    lemma_add_tags_no_repeats(d, seq!["shoegaze"@, "dream-pop"@, "noise-pop"@]);
    lemma_add_tags_no_repeats(e, seq!["ambient"@, "mellow"@, "acoustic"@]);
}

proof fn lemma_add_tag_members(acc: Seq<Seq<char>>, tag: Seq<char>)
    ensures
        forall|x: Seq<char>| #[trigger] add_tag(acc, tag).contains(x) <==> (acc.contains(x) || x == tag),
{
    if !acc.contains(tag) {
        let r = acc.push(tag);
        assert forall|x: Seq<char>| #[trigger] r.contains(x) <==> (acc.contains(x) || x == tag) by {
            if r.contains(x) {
                let i = choose|i: int| 0 <= i < r.len() && r[i] == x;
                if i < acc.len() {
                    assert(acc[i] == x);
                }
            }
            if acc.contains(x) {
                let i = choose|i: int| 0 <= i < acc.len() && acc[i] == x;
                assert(r[i] == x);
            }
            if x == tag {
                assert(r[acc.len() as int] == x);
            }
        }
    }
}

proof fn lemma_add_tags_members(acc: Seq<Seq<char>>, tags: Seq<Seq<char>>)
    ensures
        forall|x: Seq<char>| #[trigger] add_tags(acc, tags).contains(x) <==> (acc.contains(x) || tags.contains(x)),
    decreases tags.len(),
{
    if tags.len() > 0 {
        let p = tags.drop_last();
        lemma_add_tags_members(acc, p);
        lemma_add_tag_members(add_tags(acc, p), tags.last());
        assert forall|x: Seq<char>| #[trigger] add_tags(acc, tags).contains(x) <==> (acc.contains(x) || tags.contains(
            x,
        )) by {
            if p.contains(x) {
                let i = choose|i: int| 0 <= i < p.len() && p[i] == x;
                assert(tags[i] == x);
            }
            if tags.contains(x) {
                let i = choose|i: int| 0 <= i < tags.len() && tags[i] == x;
                if i < p.len() {
                    assert(p[i] == x);
                } else {
                    assert(tags.last() == x);
                }
            }
            if x == tags.last() {
                assert(tags[tags.len() - 1] == x);
            }
        }
    }
}

proof fn lemma_step_members(acc: Seq<Seq<char>>, theme: Seq<char>, key: Seq<char>, vals: Seq<Seq<char>>)
    ensures
        forall|x: Seq<char>| #[trigger] dictionary_step(acc, theme, key, vals).contains(x) <==> (acc.contains(x) || (
        contains_seq(theme, key) && vals.contains(x))),
{
    lemma_add_tags_members(acc, vals);
}

/// The tags of a theme are those of the dictionary entries whose key occurs
/// in the theme, each such entry giving all of its tags and no other tag
/// being given: "chill" gives chill; "folk" gives folk and acoustic; "soir"
/// gives mellow; "running" gives energetic, electronic and upbeat;
/// "shoegaze" gives shoegaze, dream-pop and noise-pop; "winter" gives
/// ambient, mellow and acoustic.
pub proof fn lemma_dictionary_entries(theme: Seq<char>)
    ensures
        ({
            let t = dictionary_tags(theme);
            &&& contains_seq(theme, "chill"@) ==> t.contains("chill"@)
            &&& contains_seq(theme, "folk"@) ==> t.contains("folk"@) && t.contains("acoustic"@)
            &&& contains_seq(theme, "soir"@) ==> t.contains("mellow"@)
            &&& contains_seq(theme, "running"@) ==> t.contains("energetic"@) && t.contains("electronic"@) && t.contains(
                "upbeat"@,
            )
            &&& contains_seq(theme, "shoegaze"@) ==> t.contains("shoegaze"@) && t.contains("dream-pop"@) && t.contains(
                "noise-pop"@,
            )
            &&& contains_seq(theme, "winter"@) ==> t.contains("ambient"@) && t.contains("mellow"@) && t.contains(
                "acoustic"@,
            )
            &&& forall|x: Seq<char>|
                #[trigger] t.contains(x) ==> {
                    ||| contains_seq(theme, "chill"@) && x == "chill"@
                    ||| contains_seq(theme, "folk"@) && (x == "folk"@ || x == "acoustic"@)
                    ||| contains_seq(theme, "soir"@) && x == "mellow"@
                    ||| contains_seq(theme, "running"@) && (x == "energetic"@ || x == "electronic"@ || x == "upbeat"@)
                    ||| contains_seq(theme, "shoegaze"@) && (x == "shoegaze"@ || x == "dream-pop"@ || x
                        == "noise-pop"@)
                    ||| contains_seq(theme, "winter"@) && (x == "ambient"@ || x == "mellow"@ || x == "acoustic"@)
                }
        }),
{
    let z = Seq::<Seq<char>>::empty();
    let a = dictionary_step(z, theme, "chill"@, seq!["chill"@]);
    let b = dictionary_step(a, theme, "folk"@, seq!["folk"@, "acoustic"@]);
    let c = dictionary_step(b, theme, "soir"@, seq!["mellow"@]);
    let d = dictionary_step(c, theme, "running"@, seq!["energetic"@, "electronic"@, "upbeat"@]);
    let e = dictionary_step(d, theme, "shoegaze"@, seq!["shoegaze"@, "dream-pop"@, "noise-pop"@]);
    let f = dictionary_step(e, theme, "winter"@, seq!["ambient"@, "mellow"@, "acoustic"@]);
    assert(f == dictionary_tags(theme));
    lemma_step_members(z, theme, "chill"@, seq!["chill"@]);
    lemma_step_members(a, theme, "folk"@, seq!["folk"@, "acoustic"@]);
    lemma_step_members(b, theme, "soir"@, seq!["mellow"@]);
    lemma_step_members(c, theme, "running"@, seq!["energetic"@, "electronic"@, "upbeat"@]);
    lemma_step_members(d, theme, "shoegaze"@, seq!["shoegaze"@, "dream-pop"@, "noise-pop"@]);
    lemma_step_members(e, theme, "winter"@, seq!["ambient"@, "mellow"@, "acoustic"@]);
    let s1 = seq!["chill"@];
    let s2 = seq!["folk"@, "acoustic"@];
    let s3 = seq!["mellow"@];
    let s4 = seq!["energetic"@, "electronic"@, "upbeat"@];
    let s5 = seq!["shoegaze"@, "dream-pop"@, "noise-pop"@];
    let s6 = seq!["ambient"@, "mellow"@, "acoustic"@];
    assert(s1[0] == "chill"@);
    assert(s2[0] == "folk"@ && s2[1] == "acoustic"@);
    assert(s3[0] == "mellow"@);
    assert(s4[0] == "energetic"@ && s4[1] == "electronic"@ && s4[2] == "upbeat"@);
    assert(s5[0] == "shoegaze"@ && s5[1] == "dream-pop"@ && s5[2] == "noise-pop"@);
    assert(s6[0] == "ambient"@ && s6[1] == "mellow"@ && s6[2] == "acoustic"@);
    assert forall|x: Seq<char>| #[trigger] s2.contains(x) implies x == "folk"@ || x == "acoustic"@ by {
        let i = choose|i: int| 0 <= i < s2.len() && s2[i] == x;
    }
    assert forall|x: Seq<char>| #[trigger] s1.contains(x) implies x == "chill"@ by {
        let i = choose|i: int| 0 <= i < s1.len() && s1[i] == x;
    }
    assert forall|x: Seq<char>| #[trigger] s3.contains(x) implies x == "mellow"@ by {
        let i = choose|i: int| 0 <= i < s3.len() && s3[i] == x;
    }
    assert forall|x: Seq<char>| #[trigger] s4.contains(x) implies x == "energetic"@ || x == "electronic"@ || x
        == "upbeat"@ by {
        let i = choose|i: int| 0 <= i < s4.len() && s4[i] == x;
    }
    assert forall|x: Seq<char>| #[trigger] s5.contains(x) implies x == "shoegaze"@ || x == "dream-pop"@ || x
        == "noise-pop"@ by {
        let i = choose|i: int| 0 <= i < s5.len() && s5[i] == x;
    }
    assert forall|x: Seq<char>| #[trigger] s6.contains(x) implies x == "ambient"@ || x == "mellow"@ || x
        == "acoustic"@ by {
        let i = choose|i: int| 0 <= i < s6.len() && s6[i] == x;
    }
    assert(s1.contains("chill"@) && s2.contains("folk"@) && s2.contains("acoustic"@) && s3.contains("mellow"@));
    assert(s4.contains(s4[0]) && s4.contains(s4[1]) && s4.contains(s4[2]));
    assert(s5.contains(s5[0]) && s5.contains(s5[1]) && s5.contains(s5[2]));
    assert(s6.contains(s6[0]) && s6.contains(s6[1]) && s6.contains(s6[2]));
    assert(!z.contains("chill"@));
}

/// `add_tags` on tags that are all different, starting from nothing, keeps
/// them all in order.
proof fn lemma_add_distinct_tags(tags: Seq<Seq<char>>)
    requires
        no_repeats(tags),
    ensures
        add_tags(Seq::empty(), tags) == tags,
    decreases tags.len(),
{
    if tags.len() > 0 {
        let p = tags.drop_last();
        assert(no_repeats(p)) by {
            assert forall|i: int, j: int| 0 <= i < j < p.len() implies p[i] != p[j] by {
                assert(p[i] == tags[i] && p[j] == tags[j]);
            }
        }
        lemma_add_distinct_tags(p);
        assert(!p.contains(tags.last())) by {
            if p.contains(tags.last()) {
                let i = choose|i: int| 0 <= i < p.len() && p[i] == tags.last();
                assert(tags[i] == tags[tags.len() - 1]);
            }
        }
        assert(p.push(tags.last()) == tags);
    }
}

/// A theme in which exactly one key of the dictionary occurs gets exactly
/// that entry's tags, in the entry's order; e.g. "winter" gives ambient,
/// mellow, acoustic.
pub proof fn lemma_single_entry_tags(theme: Seq<char>)
    ensures
        ({
            let ch = contains_seq(theme, "chill"@);
            let fo = contains_seq(theme, "folk"@);
            let so = contains_seq(theme, "soir"@);
            let ru = contains_seq(theme, "running"@);
            let sh = contains_seq(theme, "shoegaze"@);
            let wi = contains_seq(theme, "winter"@);
            let t = dictionary_tags(theme);
            &&& ch && !fo && !so && !ru && !sh && !wi ==> t == seq!["chill"@]
            &&& !ch && fo && !so && !ru && !sh && !wi ==> t == seq!["folk"@, "acoustic"@]
            &&& !ch && !fo && so && !ru && !sh && !wi ==> t == seq!["mellow"@]
            &&& !ch && !fo && !so && ru && !sh && !wi ==> t == seq!["energetic"@, "electronic"@, "upbeat"@]
            &&& !ch && !fo && !so && !ru && sh && !wi ==> t == seq!["shoegaze"@, "dream-pop"@, "noise-pop"@]
            &&& !ch && !fo && !so && !ru && !sh && wi ==> t == seq!["ambient"@, "mellow"@, "acoustic"@]
            &&& !ch && !fo && !so && !ru && !sh && !wi ==> t.len() == 0
        }),
{
    reveal_strlit("folk");
    reveal_strlit("acoustic");
    reveal_strlit("energetic");
    reveal_strlit("electronic");
    reveal_strlit("upbeat");
    reveal_strlit("shoegaze");
    reveal_strlit("dream-pop");
    reveal_strlit("noise-pop");
    reveal_strlit("ambient");
    reveal_strlit("mellow");
    let s1 = seq!["chill"@];
    let s2 = seq!["folk"@, "acoustic"@];
    let s3 = seq!["mellow"@];
    let s4 = seq!["energetic"@, "electronic"@, "upbeat"@];
    let s5 = seq!["shoegaze"@, "dream-pop"@, "noise-pop"@];
    let s6 = seq!["ambient"@, "mellow"@, "acoustic"@];
    assert("dream-pop"@[0] != "noise-pop"@[0]);
    assert(no_repeats(s1));
    assert(no_repeats(s2)) by {
        assert(s2[0].len() != s2[1].len());
    }
    assert(no_repeats(s3));
    assert(no_repeats(s4)) by {
        assert(s4[0].len() != s4[1].len() && s4[0].len() != s4[2].len() && s4[1].len() != s4[2].len());
    }
    assert(no_repeats(s5)) by {
        assert(s5[0].len() != s5[1].len() && s5[0].len() != s5[2].len() && s5[1] != s5[2]);
    }
    assert(no_repeats(s6)) by {
        assert(s6[0].len() != s6[1].len() && s6[0].len() != s6[2].len() && s6[1].len() != s6[2].len());
    }
    lemma_add_distinct_tags(s1);
    lemma_add_distinct_tags(s2);
    lemma_add_distinct_tags(s3);
    lemma_add_distinct_tags(s4);
    lemma_add_distinct_tags(s5);
    lemma_add_distinct_tags(s6);
}

proof fn lemma_absent_by_first_char(s: Seq<char>, p: Seq<char>)
    requires
        p.len() > 0,
        forall|i: int| 0 <= i <= s.len() - p.len() ==> s[i] != p[0],
    ensures
        !contains_seq(s, p),
{
    if contains_seq(s, p) {
        let i = choose|i: int| occurs_at(s, p, i);
        assert(s.subrange(i, i + p.len())[0] == s[i]);
    }
}

proof fn lemma_absent_by_length(s: Seq<char>, p: Seq<char>)
    requires
        p.len() > s.len(),
    ensures
        !contains_seq(s, p),
{
}

proof fn lemma_winter_keys()
    ensures
        contains_seq("winter"@, "winter"@),
        !contains_seq("winter"@, "chill"@),
        !contains_seq("winter"@, "folk"@),
        !contains_seq("winter"@, "soir"@),
        !contains_seq("winter"@, "running"@),
        !contains_seq("winter"@, "shoegaze"@),
{
    let w = "winter"@;
    assert(w.len() == 6 && w[0] == 'w' && w[1] == 'i' && w[2] == 'n') by {
        reveal_strlit("winter");
    }
    assert(occurs_at(w, w, 0)) by {
        assert(w.subrange(0, 6) =~= w);
    }
    assert("chill"@.len() == 5 && "chill"@[0] == 'c') by {
        reveal_strlit("chill");
    }
    assert("folk"@.len() == 4 && "folk"@[0] == 'f') by {
        reveal_strlit("folk");
    }
    assert("soir"@.len() == 4 && "soir"@[0] == 's') by {
        reveal_strlit("soir");
    }
    assert("running"@.len() == 7) by {
        reveal_strlit("running");
    }
    assert("shoegaze"@.len() == 8) by {
        reveal_strlit("shoegaze");
    }
    lemma_absent_by_first_char(w, "chill"@);
    lemma_absent_by_first_char(w, "folk"@);
    lemma_absent_by_first_char(w, "soir"@);
    lemma_absent_by_length(w, "running"@);
    lemma_absent_by_length(w, "shoegaze"@);
}

/// The tags of the theme "winter" are ambient, mellow and acoustic.
pub proof fn lemma_winter_tags()
    ensures
        dictionary_tags("winter"@) == seq!["ambient"@, "mellow"@, "acoustic"@],
{
    lemma_winter_keys();
    lemma_single_entry_tags("winter"@);
}

// ---------------------------------------------------------------------------
// Starting a radio
// ---------------------------------------------------------------------------

/// The refusal of a radio start before the taste profile is built.
pub open spec fn profile_not_ready_message() -> Seq<char> {
    "Taste profile not yet ready. Please wait a moment after authentication and try again."@
}

/// The refusal of a radio start for which too few tracks were found.
pub open spec fn too_few_tracks_message(theme: Seq<char>) -> Seq<char> {
    "Not enough tracks found for theme '"@ + theme
        + "'. Try a broader theme or check your Qobuz favorites."@
}

/// The fewest candidates a radio starts with.
pub const MIN_CANDIDATES: usize = 5;

/// A radio starts only once the taste profile knows an artist.
pub fn check_profile_ready(profile: &TasteProfile) -> (r: Result<(), AppError>)
    ensures
        profile.artists@.len() == 0 <==> r is Err,
        r matches Err(e) ==> e matches AppError::BadRequest(m) && m@ == profile_not_ready_message(),
{
    if profile.has_no_artists() {
        Err(AppError::BadRequest(
            owned("Taste profile not yet ready. Please wait a moment after authentication and try again."),
        ))
    } else {
        Ok(())
    }
}

/// A radio starts only with at least five candidates.
pub fn check_candidate_count(theme: &str, count: usize) -> (r: Result<(), AppError>)
    ensures
        count < 5 <==> r is Err,
        r matches Err(e) ==> e matches AppError::BadRequest(m) && m@ == too_few_tracks_message(theme@),
{
    if count < MIN_CANDIDATES {
        Err(AppError::BadRequest(concat3(
            "Not enough tracks found for theme '",
            theme,
            "'. Try a broader theme or check your Qobuz favorites.",
        )))
    } else {
        Ok(())
    }
}

/// The playlist address a WiiM player is sent for a session: the session's
/// `.m3u` file.
pub fn wiim_playlist_url(public_base_url: &str, session_id: &str) -> (r: String)
    ensures
        r@ == public_base_url@ + "/playback/wiim/"@ + session_id@ + ".m3u"@,
{
    let mut r = concat3(public_base_url, "/playback/wiim/", session_id);
    r.append(".m3u");
    r
}

/// Opens a session on a hydrated queue, and the answer that reports it.
pub fn open_session(
    session_id: String,
    theme: String,
    theme_tags: Vec<String>,
    queue: VecDeque<QueuedTrack>,
    target: PlaybackTarget,
    now: std::time::Instant,
) -> (r: (RadioSession, StartRadioResponse))
    ensures
        r.0.id@ == session_id@,
        r.0.theme_input@ == theme@,
        strings_view(r.0.theme_tags@) == strings_view(theme_tags@),
        r.0.queue@ == queue@,
        r.0.history@.len() == 0,
        r.0.target == target,
        r.0.started_at == now,
        r.1.session_id@ == session_id@,
        strings_view(r.1.theme_tags@) == strings_view(theme_tags@),
        r.1.queue@.map_values(|t: QueuedTrackResponse| t@) == queue_report(queue@),
        r.1.target@ == target_name_of(target),
{
    let report = queue_responses(&queue);
    let response = StartRadioResponse {
        session_id: session_id.clone(),
        theme_tags: clone_strings(&theme_tags),
        queue: report,
        target: target_name(target),
    };
    let session = RadioSession {
        id: session_id,
        theme_input: theme,
        theme_tags,
        queue,
        history: Vec::new(),
        target,
        started_at: now,
    };
    (session, response)
}

// ---------------------------------------------------------------------------
// Status and next track
// ---------------------------------------------------------------------------

/// The state of a session: its theme, the track at the front of its queue and
/// how many tracks are queued.
pub fn session_status(session: &RadioSession) -> (r: SessionStatusResponse)
    ensures
        r.session_id@ == session.id@,
        r.theme@ == session.theme_input@,
        r.queue_remaining == session.queue@.len(),
        r.target@ == target_name_of(session.target),
        match r.current_track {
            Some(t) => session.queue@.len() > 0 && t@ == response_of(session.queue@[0]@),
            None => session.queue@.len() == 0,
        },
{
    let current = if session.queue.len() > 0 {
        Some(track_response(&session.queue[0]))
    } else {
        None
    };
    SessionStatusResponse {
        session_id: session.id.clone(),
        theme: session.theme_input.clone(),
        current_track: current,
        queue_remaining: session.queue.len(),
        target: target_name(session.target),
    }
}

/// The history entry of a track that was moved on from.
pub open spec fn played_entry(q: QueuedView) -> PlayedView {
    PlayedView { track_id: q.track_id, pool: q.pool, completed: None, listened_ms: 0 }
}

/// Moves on to the next track: the front of the queue leaves it for the
/// history, and the new front is reported. An empty queue is `NotFound`; a
/// queue that runs out is `BadRequest("End of queue")`, with the move done.
pub fn next_track(session: &mut RadioSession) -> (r: Result<QueuedTrackResponse, AppError>)
    ensures
        old(session).queue@.len() == 0 ==> {
            &&& r matches Err(AppError::NotFound)
            &&& final(session).queue@ == old(session).queue@
            &&& final(session).history@ == old(session).history@
        },
        old(session).queue@.len() > 0 ==> {
            &&& final(session).queue@ == old(session).queue@.drop_first()
            &&& final(session).history@.len() == old(session).history@.len() + 1
            &&& final(session).history@.drop_last() == old(session).history@
            &&& final(session).history@.last()@ == played_entry(old(session).queue@[0]@)
            &&& match r {
                Ok(t) => old(session).queue@.len() > 1 && t@ == response_of(old(session).queue@[1]@),
                Err(e) => old(session).queue@.len() == 1 && (e matches AppError::BadRequest(m) && m@ == "End of queue"@),
            }
        },
        final(session).id == old(session).id,
        final(session).theme_input == old(session).theme_input,
        final(session).theme_tags == old(session).theme_tags,
        final(session).target == old(session).target,
        final(session).started_at == old(session).started_at,
{
    let finished = match session.queue.pop_front() {
        Some(q) => q,
        None => {
            return Err(AppError::NotFound);
        },
    };
    let entry = PlayedTrack { track_id: finished.track_id, pool: finished.pool, completed: None, listened_ms: 0 };
    let ghost old_history = session.history@;
    session.history.push(entry);
    assert(session.history@.drop_last() == old_history);
    if session.queue.len() == 0 {
        return Err(AppError::BadRequest(owned("End of queue")));
    }
    Ok(track_response(&session.queue[0]))
}

} // verus!
