//! Streaming a track, the WiiM playlist of a session and the WiiM remote
//! control.
use vstd::prelude::*;

use crate::errors::{status_of, AppError};
use crate::providers::linkplay::{command_url_of, not_configured_message, LinkplayClient};
use crate::state::{
    history_view, queue_view, PlayedTrack, PlayedView, Pool, QueuedTrack, QueuedView, RadioSession,
};
use crate::text::{
    chars_of, concat2, concat4, concat5, decimal, first_index_of, find_first, has_prefix,
    join_seq, join_strings, owned, parse_unsigned, parse_unsigned_str, slice_string,
    str_eq, str_starts_with, u64_to_string,
};

verus! {

/// The query of a stream request.
#[derive(Clone, Debug)]
pub struct StreamQuery {
    pub session: Option<String>,
    pub format_id: Option<u32>,
}

/// What a stream probe found out about a track's stream.
#[derive(Clone, Debug)]
pub struct StreamDebugResponse {
    pub track_id: String,
    pub requested_format_id: u32,
    pub qobuz_format: String,
    pub stream_url: String,
    pub content_type: Option<String>,
    pub content_length: Option<u64>,
    pub status: u16,
    pub cors: Option<String>,
}

/// A value answered as JSON.
pub struct JsonResponse<T>(pub T);

/// The query of a WiiM remote-control request.
#[derive(Clone, Debug)]
pub struct WiimControlQuery {
    pub command: String,
}

/// The format a stream is asked in: the one of the query, else the preferred
/// one.
pub fn stream_format(query: &StreamQuery, preferred_format_id: u32) -> (r: u32)
    ensures
        r == match query.format_id {
            Some(f) => f,
            None => preferred_format_id,
        },
{
    match query.format_id {
        Some(f) => f,
        None => preferred_format_id,
    }
}

/// The error of a failed stream lookup, a timeout or any failure of Qobuz:
/// the service is unavailable for now (answered 503, so that the player
/// retries).
pub fn stream_lookup_error(timed_out: bool) -> (e: AppError)
    ensures
        status_of(e) == 503,
        e matches AppError::Unavailable(m) && m@ == (if timed_out {
            "Timeout getting stream URL"@
        } else {
            "Service temporarily unavailable"@
        }),
{
    if timed_out {
        AppError::Unavailable(owned("Timeout getting stream URL"))
    } else {
        AppError::Unavailable(owned("Service temporarily unavailable"))
    }
}

/// The history entry of a track that starts streaming.
pub open spec fn started_entry(track_id: Seq<char>) -> PlayedView {
    PlayedView { track_id, pool: Pool::Familiar, completed: None, listened_ms: 0 }
}

/// The history after `track_id` starts streaming: the play is logged as a new
/// entry, unless the last entry already is that track (a player that asks
/// for the same stream again).
pub open spec fn history_after_start(h: Seq<PlayedView>, track_id: Seq<char>) -> Seq<PlayedView> {
    if h.len() > 0 && h.last().track_id == track_id {
        h
    } else {
        h.push(started_entry(track_id))
    }
}

/// Records in a session's history that `track_id` started streaming.
pub fn note_stream_start(session: &mut RadioSession, track_id: &str)
    ensures
        history_view(final(session).history@) == history_after_start(history_view(old(session).history@), track_id@),
        final(session).queue@ == old(session).queue@,
        final(session).id == old(session).id,
        final(session).theme_input == old(session).theme_input,
        final(session).theme_tags == old(session).theme_tags,
        final(session).target == old(session).target,
        final(session).started_at == old(session).started_at,
{
    let n = session.history.len();
    let ghost h = history_view(session.history@);
    if n > 0 {
        assert(h.last() == session.history@[n - 1]@);
        if str_eq(session.history[n - 1].track_id.as_str(), track_id) {
            return;
        }
    }
    let entry = PlayedTrack { track_id: owned(track_id), pool: Pool::Familiar, completed: None, listened_ms: 0 };
    session.history.push(entry);
    assert(history_view(session.history@) == h.push(started_entry(track_id@)));
}

// ---------------------------------------------------------------------------
// The WiiM playlist
// ---------------------------------------------------------------------------

/// The `#EXTINF` line of a queued track: its duration in seconds (0 when
/// unknown), then `artist - title`.
pub open spec fn extinf_line(t: QueuedView) -> Seq<char> {
    "#EXTINF:"@ + decimal(
        match t.metadata.duration {
            Some(d) => d as nat,
            None => 0,
        },
    ) + ","@ + t.metadata.artist + " - "@ + t.metadata.title
}

/// The stream address of a queued track within a session.
pub open spec fn stream_line(base: Seq<char>, t: QueuedView, session_id: Seq<char>) -> Seq<char> {
    base + "/stream/"@ + t.track_id + "?session="@ + session_id
}

/// The lines of the playlist of a queue: the header, then two lines for each
/// track.
pub open spec fn m3u_lines(base: Seq<char>, session_id: Seq<char>, q: Seq<QueuedView>) -> Seq<Seq<char>>
    decreases q.len(),
{
    if q.len() == 0 {
        seq!["#EXTM3U"@]
    } else {
        m3u_lines(base, session_id, q.drop_last()) + seq![
            extinf_line(q.last()),
            stream_line(base, q.last(), session_id),
        ]
    }
}

/// The playlist lists every queued track, in queue order, each as its
/// `#EXTINF` line followed by its stream address.
pub proof fn lemma_m3u_lists_queue(base: Seq<char>, session_id: Seq<char>, q: Seq<QueuedView>)
    ensures
        m3u_lines(base, session_id, q).len() == 1 + 2 * q.len(),
        m3u_lines(base, session_id, q)[0] == "#EXTM3U"@,
        forall|i: int| 0 <= i < q.len() ==> {
            &&& #[trigger] m3u_lines(base, session_id, q)[1 + 2 * i] == extinf_line(q[i])
            &&& m3u_lines(base, session_id, q)[2 + 2 * i] == stream_line(base, q[i], session_id)
        },
    decreases q.len(),
{
    if q.len() > 0 {
        let p = q.drop_last();
        lemma_m3u_lists_queue(base, session_id, p);
        assert forall|i: int| 0 <= i < q.len() implies {
            &&& #[trigger] m3u_lines(base, session_id, q)[1 + 2 * i] == extinf_line(q[i])
            &&& m3u_lines(base, session_id, q)[2 + 2 * i] == stream_line(base, q[i], session_id)
        } by {
            if i < p.len() {
                assert(m3u_lines(base, session_id, p)[1 + 2 * i] == extinf_line(p[i]));
                assert(p[i] == q[i]);
            }
        }
    }
}

/// Spelled out, the playlist of a queue starts with `#EXTM3U`, and the i-th
/// queued track gives the line `#EXTINF:<seconds>,<artist> - <title>`
/// (seconds 0 when the duration is unknown) followed by
/// `<base>/stream/<track id>?session=<session id>`.
pub proof fn lemma_m3u_line_text(base: Seq<char>, session_id: Seq<char>, q: Seq<QueuedView>, i: int)
    requires
        0 <= i < q.len(),
    ensures
        m3u_lines(base, session_id, q).len() == 1 + 2 * q.len(),
        m3u_lines(base, session_id, q)[0] == "#EXTM3U"@,
        m3u_lines(base, session_id, q)[1 + 2 * i] == "#EXTINF:"@ + decimal(
            match q[i].metadata.duration {
                Some(d) => d as nat,
                None => 0,
            },
        ) + ","@ + q[i].metadata.artist + " - "@ + q[i].metadata.title,
        m3u_lines(base, session_id, q)[2 + 2 * i] == base + "/stream/"@ + q[i].track_id + "?session="@ + session_id,
{
    lemma_m3u_lists_queue(base, session_id, q);
}

fn extinf_text(t: &QueuedTrack) -> (r: String)
    ensures
        r@ == extinf_line(t@),
{
    let d: u64 = match t.metadata.duration {
        Some(d) => d,
        None => 0,
    };
    let digits = u64_to_string(d);
    let head = concat2("#EXTINF:", digits.as_str());
    concat5(head.as_str(), ",", t.metadata.artist.as_str(), " - ", t.metadata.title.as_str())
}

/// The session a playlist file name stands for: the name without its
/// `.m3u` extension (a name without it is the session id itself).
pub open spec fn playlist_session_of(file: Seq<char>) -> Seq<char> {
    if file.len() >= 4 && file.subrange(file.len() - 4, file.len() as int) == ".m3u"@ {
        file.subrange(0, file.len() - 4)
    } else {
        file
    }
}

/// The session id of a requested playlist file (see `playlist_session_of`).
pub fn playlist_session_id(file: &str) -> (r: String)
    ensures
        r@ == playlist_session_of(file@),
{
    proof {
        reveal_strlit(".m3u");
    }
    let cs = chars_of(file);
    let n = cs.len();
    if n >= 4 && cs[n - 4] == '.' && cs[n - 3] == 'm' && cs[n - 2] == '3' && cs[n - 1] == 'u' {
        assert(file@.subrange(n - 4, n as int) == ".m3u"@);
        slice_string(&cs, 0, n - 4)
    } else {
        assert(n >= 4 ==> file@.subrange(n - 4, n as int) != ".m3u"@) by {
            if n >= 4 && file@.subrange(n - 4, n as int) == ".m3u"@ {
                assert(file@.subrange(n - 4, n as int)[0] == file@[n - 4]);
                assert(file@.subrange(n - 4, n as int)[1] == file@[n - 3]);
                assert(file@.subrange(n - 4, n as int)[2] == file@[n - 2]);
                assert(file@.subrange(n - 4, n as int)[3] == file@[n - 1]);
            }
        }
        owned(file)
    }
}

/// The playlist file a WiiM player is sent for a session (the last segment
/// of `wiim_playlist_url`) names that session again.
pub proof fn lemma_playlist_file_names_its_session(session_id: Seq<char>)
    ensures
        playlist_session_of(session_id + ".m3u"@) == session_id,
{
    reveal_strlit(".m3u");
    let f = session_id + ".m3u"@;
    assert(f.subrange(f.len() - 4, f.len() as int) == ".m3u"@);
    assert(f.subrange(0, f.len() - 4) == session_id);
}

/// The M3U playlist of a session's queue, as sent to a WiiM player: lines
/// joined with `\n`.
pub fn wiim_m3u(public_base_url: &str, session: &RadioSession, session_id: &str) -> (r: String)
    ensures
        r@ == join_seq(m3u_lines(public_base_url@, session_id@, queue_view(session.queue@)), "\n"@),
{
    let ghost q = queue_view(session.queue@);
    let mut lines: Vec<String> = Vec::new();
    lines.push(owned("#EXTM3U"));
    let n = session.queue.len();
    assert(q.take(0) == Seq::<QueuedView>::empty());
    for i in 0..n
        invariant
            n == session.queue@.len(),
            q == queue_view(session.queue@),
            lines@.map_values(|s: String| s@) == m3u_lines(public_base_url@, session_id@, q.take(i as int)),
    {
        let t = &session.queue[i];
        let info = extinf_text(t);
        let url = concat5(public_base_url, "/stream/", t.track_id.as_str(), "?session=", session_id);
        let ghost before = lines@.map_values(|s: String| s@);
        lines.push(info);
        lines.push(url);
        assert(lines@.map_values(|s: String| s@) == before + seq![info@, url@]);
        assert(q.take(i + 1).drop_last() == q.take(i as int));
        assert(q.take(i + 1).last() == t@);
    }
    assert(q.take(n as int) == q);
    join_strings(lines.as_slice(), "\n")
}

// ---------------------------------------------------------------------------
// WiiM remote control
// ---------------------------------------------------------------------------

/// The volume a `vol:` command asks for: the text between the first and the
/// second `:` (or the end), read as a byte; 50 when it does not read as one.
pub open spec fn requested_volume(command: Seq<char>) -> u8 {
    let rest = command.skip(4);
    let field = match first_index_of(rest, ':') {
        Some(k) => rest.take(k),
        None => rest,
    };
    match parse_unsigned(field, 255) {
        Some(v) => v as u8,
        None => 50,
    }
}

/// The player command that a remote-control command stands for, as the
/// LinkPlay command text; `None` for an unknown command.
pub open spec fn control_command_of(command: Seq<char>) -> Option<Seq<char>> {
    if command == "play"@ || command == "resume"@ {
        Some("setPlayerCmd:resume"@)
    } else if command == "pause"@ {
        Some("setPlayerCmd:pause"@)
    } else if command == "stop"@ {
        Some("setPlayerCmd:stop"@)
    } else if command == "next"@ {
        Some("setPlayerCmd:next"@)
    } else if command == "prev"@ {
        Some("setPlayerCmd:prev"@)
    } else if has_prefix(command, "vol:"@) {
        let v = requested_volume(command);
        Some("setPlayerCmd:vol:"@ + decimal(if v < 100 { v as nat } else { 100 }))
    } else {
        None
    }
}

fn volume_of(command: &str) -> (r: u8)
    requires
        has_prefix(command@, "vol:"@),
    ensures
        r == requested_volume(command@),
{
    proof {
        reveal_strlit("vol:");
    }
    let v = chars_of(command);
    let rest = slice_string(v.as_slice(), 4, v.len());
    assert(rest@ == command@.skip(4));
    let rv = chars_of(rest.as_str());
    let field = match find_first(rv.as_slice(), ':') {
        Some(k) => slice_string(rv.as_slice(), 0, k),
        None => rest,
    };
    assert(rv@.subrange(0, rv@.len() as int) == rv@);
    match parse_unsigned_str(field.as_str(), 255) {
        Some(n) => n as u8,
        None => 50,
    }
}

/// The LinkPlay request for a remote-control command. An unknown command is a
/// `BadRequest`; a known one fails only when no player is configured.
pub fn wiim_control(client: &LinkplayClient, command: &str) -> (r: Result<String, AppError>)
    ensures
        match control_command_of(command@) {
            None => r matches Err(e) && (e matches AppError::BadRequest(m) && m@ == "Unknown command: "@ + command@),
            Some(c) => match client.base_url {
                Some(b) => r matches Ok(u) && u@ == command_url_of(b@, c),
                None => r matches Err(e) && (e matches AppError::LinkPlay(m) && m@ == not_configured_message()),
            },
        },
{
    if str_eq(command, "play") || str_eq(command, "resume") {
        client.resume()
    } else if str_eq(command, "pause") {
        client.pause()
    } else if str_eq(command, "stop") {
        client.stop()
    } else if str_eq(command, "next") {
        client.next()
    } else if str_eq(command, "prev") {
        client.prev()
    } else if str_starts_with(command, "vol:") {
        let vol = volume_of(command);
        client.set_volume(vol)
    } else {
        Err(AppError::BadRequest(concat2("Unknown command: ", command)))
    }
}

// ---------------------------------------------------------------------------
// Stream probe
// ---------------------------------------------------------------------------

/// What probing a stream address gave: the answer's status and headers, or
/// the text of the failure.
pub enum ProbeOutcome {
    Answered {
        status: u16,
        content_type: Option<String>,
        content_length: Option<String>,
        cors: Option<String>,
    },
    Failed(String),
}

/// The `Content-Length` header read as a number, if it is one.
pub open spec fn length_of(header: Option<String>) -> Option<u64> {
    match header {
        Some(h) => match parse_unsigned(h@, u64::MAX as nat) {
            Some(v) => Some(v as u64),
            None => None,
        },
        None => None,
    }
}

/// The report of a stream probe.
pub fn stream_debug(
    track_id: String,
    requested_format_id: u32,
    qobuz_format: String,
    stream_url: String,
    probe: ProbeOutcome,
) -> (r: StreamDebugResponse)
    ensures
        r.track_id@ == track_id@,
        r.requested_format_id == requested_format_id,
        r.qobuz_format@ == qobuz_format@,
        r.stream_url@ == stream_url@,
        match probe {
            ProbeOutcome::Answered { status, content_type, content_length, cors } => {
                &&& r.status == status
                &&& r.content_type == content_type
                &&& r.content_length == length_of(content_length)
                &&& r.cors == cors
            },
            ProbeOutcome::Failed(e) => {
                &&& r.status == 0
                &&& r.content_type matches Some(t) && t@ == "HEAD request failed: "@ + e@
                &&& r.content_length is None
                &&& r.cors is None
            },
        },
{
    match probe {
        ProbeOutcome::Answered { status, content_type, content_length, cors } => {
            let len = match &content_length {
                Some(h) => parse_unsigned_str(h.as_str(), u64::MAX),
                None => None,
            };
            StreamDebugResponse {
                track_id,
                requested_format_id,
                qobuz_format,
                stream_url,
                content_type,
                content_length: len,
                status,
                cors,
            }
        },
        ProbeOutcome::Failed(e) => StreamDebugResponse {
            track_id,
            requested_format_id,
            qobuz_format,
            stream_url,
            content_type: Some(concat2("HEAD request failed: ", e.as_str())),
            content_length: None,
            status: 0,
            cors: None,
        },
    }
}

} // verus!
