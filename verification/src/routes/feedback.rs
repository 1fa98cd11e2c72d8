//! Listening feedback on a session's tracks.
use vstd::prelude::*;

use crate::errors::AppError;
use crate::state::{history_view, ArtistEntry, PlayedTrack, PlayedView, RadioSession, TasteProfile};
use crate::text::{owned, str_eq};

verus! {

/// A feedback report on one track of a session.
#[derive(Clone, Debug)]
pub struct FeedbackRequest {
    pub track_id: String,
    /// `skip`, `complete` or `progress`.
    pub action: String,
    pub progress_ms: Option<u64>,
    pub duration_ms: Option<u64>,
}

/// The answer to an accepted feedback report.
#[derive(Clone, Debug)]
pub struct FeedbackResponse {
    pub ok: bool,
}

/// What a feedback action says of the track: finished (`Some(true)`),
/// skipped (`Some(false)`) or not yet known (`None`); `None` for an unknown
/// action. `past_threshold` says whether more than 80% of the track was heard.
pub open spec fn completion_of(action: Seq<char>, past_threshold: bool) -> Option<Option<bool>> {
    if action == "complete"@ {
        Some(Some(true))
    } else if action == "skip"@ {
        Some(Some(false))
    } else if action == "progress"@ {
        Some(if past_threshold { Some(true) } else { None })
    } else {
        None
    }
}

/// Reads a feedback action; an unknown one is `BadRequest("Unknown action")`.
pub fn feedback_completion(action: &str, past_threshold: bool) -> (r: Result<Option<bool>, AppError>)
    ensures
        match completion_of(action@, past_threshold) {
            Some(c) => r == Ok::<Option<bool>, AppError>(c),
            None => r matches Err(e) && (e matches AppError::BadRequest(m) && m@ == "Unknown action"@),
        },
{
    if str_eq(action, "complete") {
        Ok(Some(true))
    } else if str_eq(action, "skip") {
        Ok(Some(false))
    } else if str_eq(action, "progress") {
        Ok(if past_threshold { Some(true) } else { None })
    } else {
        Err(AppError::BadRequest(owned("Unknown action")))
    }
}

/// Index of the first history entry of `id`, if any.
pub open spec fn first_played(h: Seq<PlayedView>, id: Seq<char>) -> Option<int>
    decreases h.len(),
{
    if h.len() == 0 {
        None
    } else if h[0].track_id == id {
        Some(0)
    } else {
        match first_played(h.drop_first(), id) {
            Some(i) => Some(i + 1),
            None => None,
        }
    }
}

pub proof fn lemma_first_played(h: Seq<PlayedView>, id: Seq<char>)
    ensures
        match first_played(h, id) {
            Some(i) => 0 <= i < h.len() && h[i].track_id == id && forall|j: int| 0 <= j < i ==> h[j].track_id != id,
            None => forall|j: int| 0 <= j < h.len() ==> h[j].track_id != id,
        },
    decreases h.len(),
{
    if h.len() > 0 && h[0].track_id != id {
        lemma_first_played(h.drop_first(), id);
        assert forall|j: int| 0 < j < h.len() implies h[j] == h.drop_first()[j - 1] by {}
    }
}

/// The history after feedback on `id`: its first entry takes the new
/// completion and listening time; without an entry nothing changes.
pub open spec fn history_after_feedback(
    h: Seq<PlayedView>,
    id: Seq<char>,
    completed: Option<bool>,
    listened_ms: u64,
) -> Seq<PlayedView> {
    match first_played(h, id) {
        Some(i) => h.update(i, PlayedView { track_id: h[i].track_id, pool: h[i].pool, completed, listened_ms }),
        None => h,
    }
}

/// How much of the track was heard, as reported (0 when not reported).
pub open spec fn reported_progress(req: FeedbackRequest) -> u64 {
    match req.progress_ms {
        Some(p) => p,
        None => 0,
    }
}

/// Index of the first history entry of `id`.
fn find_played(h: &Vec<PlayedTrack>, id: &str) -> (r: Option<usize>)
    ensures
        match r {
            Some(i) => first_played(history_view(h@), id@) == Some(i as int) && i < h@.len(),
            None => first_played(history_view(h@), id@) is None,
        },
{
    let ghost hv = history_view(h@);
    proof {
        lemma_first_played(hv, id@);
    }
    let n = h.len();
    let mut i: usize = 0;
    while i < n
        invariant
            n == h@.len(),
            hv == history_view(h@),
            i <= n,
            forall|j: int| 0 <= j < i ==> hv[j].track_id != id@,
            match first_played(hv, id@) {
                Some(k) => 0 <= k < hv.len() && hv[k].track_id == id@ && forall|j: int| 0 <= j < k ==> hv[j].track_id != id@,
                None => forall|j: int| 0 <= j < hv.len() ==> hv[j].track_id != id@,
            },
        decreases n - i,
    {
        if str_eq(h[i].track_id.as_str(), id) {
            assert(hv[i as int].track_id == id@);
            return Some(i);
        }
        i = i + 1;
    }
    None
}

/// Records feedback on a session's track. `past_threshold` says whether the
/// reported progress is past 80% of the reported duration (the caller
/// computes that ratio). An unknown action is refused and changes nothing.
pub fn submit_feedback(session: &mut RadioSession, req: &FeedbackRequest, past_threshold: bool) -> (r: Result<FeedbackResponse, AppError>)
    ensures
        match completion_of(req.action@, past_threshold) {
            None => {
                &&& r matches Err(e) && (e matches AppError::BadRequest(m) && m@ == "Unknown action"@)
                &&& final(session).history@ == old(session).history@
            },
            Some(c) => {
                &&& r matches Ok(resp) && resp.ok
                &&& history_view(final(session).history@) == history_after_feedback(
                    history_view(old(session).history@),
                    req.track_id@,
                    c,
                    reported_progress(*req),
                )
            },
        },
        final(session).history@.len() == old(session).history@.len(),
        final(session).queue@ == old(session).queue@,
        final(session).id == old(session).id,
        final(session).theme_input == old(session).theme_input,
        final(session).theme_tags == old(session).theme_tags,
        final(session).target == old(session).target,
        final(session).started_at == old(session).started_at,
{
    let completed = match feedback_completion(req.action.as_str(), past_threshold) {
        Ok(c) => c,
        Err(e) => {
            return Err(e);
        },
    };
    let progress: u64 = match req.progress_ms {
        Some(p) => p,
        None => 0,
    };
    let ghost h = history_view(session.history@);
    match find_played(&session.history, req.track_id.as_str()) {
        Some(i) => {
            let entry = PlayedTrack {
                track_id: session.history[i].track_id.clone(),
                pool: session.history[i].pool,
                completed,
                listened_ms: progress,
            };
            session.history.set(i, entry);
            assert(history_view(session.history@) == h.update(
                i as int,
                PlayedView { track_id: h[i as int].track_id, pool: h[i as int].pool, completed, listened_ms: progress },
            ));
        },
        None => {},
    }
    Ok(FeedbackResponse { ok: true })
}


// ---------------------------------------------------------------------------
// Taste signals
// ---------------------------------------------------------------------------

/// The reported duration of the track (1 when not reported).
pub open spec fn reported_duration(req: FeedbackRequest) -> u64 {
    match req.duration_ms {
        Some(d) => d,
        None => 1,
    }
}

/// Whether more than 80% of the track was heard, by the reported progress
/// and duration (never, when the duration is 0).
pub open spec fn heard_past_80(req: FeedbackRequest) -> bool {
    reported_duration(req) > 0 && reported_progress(req) * 5 > reported_duration(req) * 4
}

/// Whether less than 20% of the track was heard (always, when the duration
/// is 0).
pub open spec fn heard_under_20(req: FeedbackRequest) -> bool {
    reported_duration(req) == 0 || reported_progress(req) * 5 < reported_duration(req)
}

/// The strongest session adjustment of an artist's weight, either way, in
/// tenths.
pub const MAX_SESSION_DELTA: i64 = 100;

/// The signal of a skip within the first 20% of a track, in tenths.
pub const SKIP_SIGNAL: i64 = -20;

/// The signal of a track heard to its end or past 80%, in tenths.
pub const PLAYED_SIGNAL: i64 = 10;

/// What a feedback report says of the listener's taste for the track's
/// artist: a strong negative signal for a skip within the first 20%, a
/// positive one for a track completed or heard past 80%, none otherwise.
pub open spec fn signal_of(req: FeedbackRequest) -> int {
    if req.action@ == "skip"@ && heard_under_20(req) {
        SKIP_SIGNAL as int
    } else if req.action@ == "complete"@ || ((req.action@ == "skip"@ || req.action@ == "progress"@) && heard_past_80(req)) {
        PLAYED_SIGNAL as int
    } else {
        0
    }
}

/// `d` moved a tenth of the way back to zero (rounding toward zero), the
/// decay of a session adjustment at each new signal.
pub open spec fn decayed(d: int) -> int {
    if d >= 0 {
        d - d / 10
    } else {
        -((-d) - (-d) / 10)
    }
}

/// `x` held within the session bounds.
pub open spec fn clamp_delta(x: int) -> int {
    if x > MAX_SESSION_DELTA {
        MAX_SESSION_DELTA as int
    } else if x < -MAX_SESSION_DELTA {
        -MAX_SESSION_DELTA as int
    } else {
        x
    }
}

/// An artist's session adjustment after a signal: the old one decayed, plus
/// the signal, within the bounds.
pub open spec fn delta_after_signal(old_delta: i64, signal: int) -> int {
    clamp_delta(decayed(old_delta as int) + signal)
}

/// Whether the reported progress is past 80% of the reported duration.
pub fn past_threshold(req: &FeedbackRequest) -> (r: bool)
    ensures
        r == heard_past_80(*req),
{
    let p: u128 = match req.progress_ms {
        Some(p) => p as u128,
        None => 0,
    };
    let d: u128 = match req.duration_ms {
        Some(d) => d as u128,
        None => 1,
    };
    d > 0 && p * 5 > d * 4
}

/// The taste signal of a feedback report (see `signal_of`).
pub fn feedback_signal(req: &FeedbackRequest) -> (r: i64)
    ensures
        r == signal_of(*req),
{
    let p: u128 = match req.progress_ms {
        Some(p) => p as u128,
        None => 0,
    };
    let d: u128 = match req.duration_ms {
        Some(d) => d as u128,
        None => 1,
    };
    let skip = str_eq(req.action.as_str(), "skip");
    let complete = str_eq(req.action.as_str(), "complete");
    let progress = str_eq(req.action.as_str(), "progress");
    if skip && (d == 0 || p * 5 < d) {
        SKIP_SIGNAL
    } else if complete || ((skip || progress) && d > 0 && p * 5 > d * 4) {
        PLAYED_SIGNAL
    } else {
        0
    }
}

/// An artist's session adjustment after a signal (see `delta_after_signal`).
pub fn next_session_delta(old_delta: i64, signal: i64) -> (r: i64)
    requires
        -MAX_SESSION_DELTA <= signal <= MAX_SESSION_DELTA,
    ensures
        r == delta_after_signal(old_delta, signal as int),
{
    let neg = old_delta < 0;
    let m: u128 = if neg {
        (0i128 - old_delta as i128) as u128
    } else {
        old_delta as u128
    };
    let kept: u128 = m - m / 10;
    let signed: i128 = if neg {
        0i128 - kept as i128
    } else {
        kept as i128
    };
    let x: i128 = signed + signal as i128;
    if x > MAX_SESSION_DELTA as i128 {
        MAX_SESSION_DELTA
    } else if x < -MAX_SESSION_DELTA as i128 {
        -MAX_SESSION_DELTA
    } else {
        x as i64
    }
}

/// Applies a taste signal to the artist of the profile with id `artist_id`
/// (in a well-formed profile there is at most one): its session adjustment
/// decays and takes the signal (see `delta_after_signal`). Ids, names and
/// favorites weights do not change, nor does any other artist, album or
/// track.
pub fn apply_taste_signal(profile: &mut TasteProfile, artist_id: &str, signal: i64)
    requires
        -MAX_SESSION_DELTA <= signal <= MAX_SESSION_DELTA,
    ensures
        final(profile).artists@.len() == old(profile).artists@.len(),
        forall|i: int|
            0 <= i < old(profile).artists@.len() ==> {
                let a = #[trigger] old(profile).artists@[i];
                let b = final(profile).artists@[i];
                &&& b.id@ == a.id@
                &&& b.weight.name@ == a.weight.name@
                &&& b.weight.base_weight == a.weight.base_weight
                &&& b.weight.session_delta == (if a.id@ == artist_id@ {
                    delta_after_signal(a.weight.session_delta, signal as int)
                } else {
                    a.weight.session_delta as int
                })
            },
        old(profile).well_formed() ==> final(profile).well_formed(),
        final(profile).albums@ == old(profile).albums@,
        final(profile).tracks@ == old(profile).tracks@,
        final(profile).last_full_refresh == old(profile).last_full_refresh,
{
    let n = profile.artists.len();
    let ghost before = profile.artists@;
    for i in 0..n
        invariant
            n == before.len(),
            profile.artists@.len() == n,
            profile.albums@ == old(profile).albums@,
            profile.tracks@ == old(profile).tracks@,
            profile.last_full_refresh == old(profile).last_full_refresh,
            before == old(profile).artists@,
            -MAX_SESSION_DELTA <= signal <= MAX_SESSION_DELTA,
            forall|k: int| i <= k < n ==> #[trigger] profile.artists@[k] == before[k],
            forall|k: int|
                0 <= k < i ==> {
                    let a = #[trigger] before[k];
                    let b = profile.artists@[k];
                    &&& b.id@ == a.id@
                    &&& b.weight.name@ == a.weight.name@
                    &&& b.weight.base_weight == a.weight.base_weight
                    &&& b.weight.session_delta == (if a.id@ == artist_id@ {
                        delta_after_signal(a.weight.session_delta, signal as int)
                    } else {
                        a.weight.session_delta as int
                    })
                },
    {
        if str_eq(profile.artists[i].id.as_str(), artist_id) {
            let mut e: ArtistEntry = profile.artists[i].clone_entry();
            e.weight.session_delta = next_session_delta(e.weight.session_delta, signal);
            profile.artists.set(i, e);
        }
    }
    proof {
        if old(profile).well_formed() {
            assert forall|j: int, k: int| 0 <= j < k < profile.artists@.len() implies profile.artists@[j].id@
                != profile.artists@[k].id@ by {
                assert(before[j].id@ != before[k].id@);
            }
        }
    }
}

/// Applies what a feedback report says of the listener's taste: the artist
/// of the profile with id `artist_id` (the artist of the reported track)
/// takes the report's signal (see `signal_of` and `delta_after_signal`).
/// Nothing else in the profile changes.
pub fn record_taste_feedback(profile: &mut TasteProfile, req: &FeedbackRequest, artist_id: &str)
    ensures
        final(profile).artists@.len() == old(profile).artists@.len(),
        forall|i: int|
            0 <= i < old(profile).artists@.len() ==> {
                let a = #[trigger] old(profile).artists@[i];
                let b = final(profile).artists@[i];
                &&& b.id@ == a.id@
                &&& b.weight.name@ == a.weight.name@
                &&& b.weight.base_weight == a.weight.base_weight
                &&& b.weight.session_delta == (if a.id@ == artist_id@ {
                    delta_after_signal(a.weight.session_delta, signal_of(*req))
                } else {
                    a.weight.session_delta as int
                })
            },
        old(profile).well_formed() ==> final(profile).well_formed(),
        final(profile).albums@ == old(profile).albums@,
        final(profile).tracks@ == old(profile).tracks@,
        final(profile).last_full_refresh == old(profile).last_full_refresh,
{
    let signal = feedback_signal(req);
    apply_taste_signal(profile, artist_id, signal);
}

/// `after` is `before` with the artist `artist_id` (alone) having taken
/// `signal`: same ids, names and favorites weights, and only that artist's
/// session adjustment moved (see `delta_after_signal`).
pub open spec fn signal_taken(before: Seq<ArtistEntry>, after: Seq<ArtistEntry>, artist_id: Seq<char>, signal: int) -> bool {
    &&& after.len() == before.len()
    &&& forall|i: int|
        0 <= i < before.len() ==> {
            let a = #[trigger] before[i];
            let b = after[i];
            &&& b.id@ == a.id@
            &&& b.weight.name@ == a.weight.name@
            &&& b.weight.base_weight == a.weight.base_weight
            &&& b.weight.session_delta == (if a.id@ == artist_id {
                delta_after_signal(a.weight.session_delta, signal)
            } else {
                a.weight.session_delta as int
            })
        }
}

/// Feedback on a session's track, with what it says of the listener's
/// taste. The history is updated as by `submit_feedback`, with the threshold
/// of `heard_past_80`; when the report is accepted and the track's artist id
/// is known, that artist of the profile takes the report's signal (see
/// `signal_of`). A refused report changes neither the history nor the
/// profile.
pub fn apply_feedback(
    session: &mut RadioSession,
    profile: &mut TasteProfile,
    req: &FeedbackRequest,
    track_artist_id: Option<&str>,
) -> (r: Result<FeedbackResponse, AppError>)
    ensures
        match completion_of(req.action@, heard_past_80(*req)) {
            None => {
                &&& r matches Err(e) && (e matches AppError::BadRequest(m) && m@ == "Unknown action"@)
                &&& final(session).history@ == old(session).history@
                &&& final(profile).artists@ == old(profile).artists@
            },
            Some(c) => {
                &&& r matches Ok(resp) && resp.ok
                &&& history_view(final(session).history@) == history_after_feedback(
                    history_view(old(session).history@),
                    req.track_id@,
                    c,
                    reported_progress(*req),
                )
                &&& match track_artist_id {
                    Some(id) => signal_taken(old(profile).artists@, final(profile).artists@, id@, signal_of(*req)),
                    None => final(profile).artists@ == old(profile).artists@,
                }
            },
        },
        final(session).queue@ == old(session).queue@,
        final(session).id == old(session).id,
        final(session).theme_input == old(session).theme_input,
        final(session).theme_tags == old(session).theme_tags,
        final(session).target == old(session).target,
        final(session).started_at == old(session).started_at,
        old(profile).well_formed() ==> final(profile).well_formed(),
        final(profile).albums@ == old(profile).albums@,
        final(profile).tracks@ == old(profile).tracks@,
        final(profile).last_full_refresh == old(profile).last_full_refresh,
{
    let past = past_threshold(req);
    let r = submit_feedback(session, req, past);
    if r.is_ok() {
        match track_artist_id {
            Some(id) => record_taste_feedback(profile, req, id),
            None => {},
        }
    }
    r
}

/// A skip within the first 20% of a track lowers the artist's session
/// adjustment, and a track heard to its end or past 80% raises it, unless the
/// adjustment is already at that bound; a report with no signal only lets it
/// decay toward zero. The adjustment never leaves its bounds.
pub proof fn lemma_signal_moves_delta(old_delta: i64, req: FeedbackRequest)
    requires
        -MAX_SESSION_DELTA <= old_delta <= MAX_SESSION_DELTA,
    ensures
        -MAX_SESSION_DELTA <= delta_after_signal(old_delta, signal_of(req)) <= MAX_SESSION_DELTA,
        req.action@ == "skip"@ && heard_under_20(req) && old_delta > -MAX_SESSION_DELTA
            ==> delta_after_signal(old_delta, signal_of(req)) < old_delta,
        (req.action@ == "complete"@ || (req.action@ == "progress"@ && heard_past_80(req))) && old_delta
            < MAX_SESSION_DELTA ==> delta_after_signal(old_delta, signal_of(req)) > old_delta,
        signal_of(req) == 0 ==> {
            let d = delta_after_signal(old_delta, 0);
            &&& old_delta >= 0 ==> 0 <= d <= old_delta
            &&& old_delta < 0 ==> old_delta <= d <= 0
        },
{
    reveal_strlit("skip");
    reveal_strlit("complete");
    reveal_strlit("progress");
    assert("complete"@.len() == 8 && "progress"@.len() == 8 && "skip"@.len() == 4);
    assert("complete"@ != "skip"@ && "progress"@ != "skip"@);
    let o = old_delta as int;
    if o >= 0 {
        assert(0 <= o / 10 <= o);
        assert(o < 100 ==> o / 10 < 10);
    } else {
        assert(0 <= (-o) / 10 <= -o);
        assert((-o) / 10 <= 10);
    }
}

} // verus!
