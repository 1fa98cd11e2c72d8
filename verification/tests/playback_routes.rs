use std::time::Instant;

use ostinato_radio::errors::AppError;
use ostinato_radio::providers::linkplay::LinkplayClient;
use ostinato_radio::routes::playback::{
    note_stream_start, playlist_session_id, stream_debug, stream_format, stream_lookup_error, wiim_control, wiim_m3u,
    ProbeOutcome, StreamQuery,
};
use ostinato_radio::state::{
    PlaybackTarget, PlayedTrack, Pool, QueuedTrack, RadioSession, TrackMetadata,
};

fn queued(id: &str, title: &str, artist: &str, duration: Option<u64>) -> QueuedTrack {
    QueuedTrack {
        track_id: id.to_string(),
        pool: Pool::Familiar,
        metadata: TrackMetadata {
            id: id.to_string(),
            title: title.to_string(),
            artist: artist.to_string(),
            artist_id: None,
            album: String::new(),
            album_id: None,
            duration,
            image_url: None,
        },
    }
}

fn session_with(queue: Vec<QueuedTrack>, history: Vec<PlayedTrack>) -> RadioSession {
    RadioSession {
        id: "sess".to_string(),
        theme_input: "folk".to_string(),
        theme_tags: vec!["folk".to_string()],
        queue: queue.into_iter().collect(),
        history,
        target: PlaybackTarget::Wiim,
        started_at: Instant::now(),
    }
}

fn played(id: &str) -> PlayedTrack {
    PlayedTrack { track_id: id.to_string(), pool: Pool::Discovery, completed: Some(true), listened_ms: 5 }
}

#[test]
fn m3u_lists_every_queued_track() {
    let s = session_with(
        vec![queued("11", "Song", "Artist", Some(215)), queued("22", "Other", "Band", None)],
        Vec::new(),
    );
    let body = wiim_m3u("http://10.0.0.2:8080", &s, "sess");
    assert_eq!(
        body,
        "#EXTM3U\n#EXTINF:215,Artist - Song\nhttp://10.0.0.2:8080/stream/11?session=sess\n#EXTINF:0,Band - Other\nhttp://10.0.0.2:8080/stream/22?session=sess"
    );
    let empty = session_with(Vec::new(), Vec::new());
    assert_eq!(wiim_m3u("http://x", &empty, "sess"), "#EXTM3U");
}

#[test]
fn stream_start_is_recorded_once() {
    let mut s = session_with(Vec::new(), vec![played("1")]);
    note_stream_start(&mut s, "2");
    assert_eq!(s.history.len(), 2);
    assert_eq!(s.history[1].track_id, "2");
    assert_eq!(s.history[1].pool, Pool::Familiar);
    assert_eq!(s.history[1].completed, None);
    assert_eq!(s.history[1].listened_ms, 0);
    note_stream_start(&mut s, "2");
    assert_eq!(s.history.len(), 2);
    let mut fresh = session_with(Vec::new(), Vec::new());
    note_stream_start(&mut fresh, "9");
    assert_eq!(fresh.history.len(), 1);
    assert_eq!(fresh.history[0].track_id, "9");
    assert_eq!(fresh.history[0].completed, None);
    note_stream_start(&mut fresh, "9");
    assert_eq!(fresh.history.len(), 1);
}

#[test]
fn stream_format_and_errors() {
    let q = StreamQuery { session: None, format_id: Some(6) };
    assert_eq!(stream_format(&q, 27), 6);
    let q = StreamQuery { session: Some("s".to_string()), format_id: None };
    assert_eq!(stream_format(&q, 27), 27);
    let e = stream_lookup_error(true);
    assert_eq!(e.status_code(), 503);
    match e {
        AppError::Unavailable(m) => assert_eq!(m, "Timeout getting stream URL"),
        _ => panic!("expected an unavailable service"),
    }
    let e = stream_lookup_error(false);
    assert_eq!(e.status_code(), 503);
    assert_eq!(e.describe(), "Service unavailable: Service temporarily unavailable");
    match e {
        AppError::Unavailable(m) => assert_eq!(m, "Service temporarily unavailable"),
        _ => panic!("expected an unavailable service"),
    }
}

#[test]
fn remote_control_commands() {
    let client = LinkplayClient::new(Some("192.168.1.42".to_string()), 5);
    let base = "http://192.168.1.42/httpapi.asp?command=";
    assert_eq!(wiim_control(&client, "play").unwrap(), format!("{}setPlayerCmd%3Aresume", base));
    assert_eq!(wiim_control(&client, "resume").unwrap(), format!("{}setPlayerCmd%3Aresume", base));
    assert_eq!(wiim_control(&client, "pause").unwrap(), format!("{}setPlayerCmd%3Apause", base));
    assert_eq!(wiim_control(&client, "stop").unwrap(), format!("{}setPlayerCmd%3Astop", base));
    assert_eq!(wiim_control(&client, "next").unwrap(), format!("{}setPlayerCmd%3Anext", base));
    assert_eq!(wiim_control(&client, "prev").unwrap(), format!("{}setPlayerCmd%3Aprev", base));
    assert_eq!(wiim_control(&client, "vol:30").unwrap(), format!("{}setPlayerCmd%3Avol%3A30", base));
    assert_eq!(wiim_control(&client, "vol:250").unwrap(), format!("{}setPlayerCmd%3Avol%3A100", base));
    assert_eq!(wiim_control(&client, "vol:abc").unwrap(), format!("{}setPlayerCmd%3Avol%3A50", base));
    assert_eq!(wiim_control(&client, "vol:300").unwrap(), format!("{}setPlayerCmd%3Avol%3A50", base));
    assert_eq!(wiim_control(&client, "vol:20:5").unwrap(), format!("{}setPlayerCmd%3Avol%3A20", base));
    match wiim_control(&client, "shuffle") {
        Err(AppError::BadRequest(m)) => assert_eq!(m, "Unknown command: shuffle"),
        _ => panic!("expected a refusal"),
    }
    let unconfigured = LinkplayClient::new(None, 5);
    match wiim_control(&unconfigured, "pause") {
        Err(AppError::LinkPlay(m)) => assert_eq!(m, "WiiM IP not configured"),
        _ => panic!("expected a LinkPlay error"),
    }
    assert!(matches!(wiim_control(&unconfigured, "dance"), Err(AppError::BadRequest(_))));
}

#[test]
fn stream_probe_report() {
    let ok = stream_debug(
        "5".to_string(),
        27,
        "FLAC 24-bit".to_string(),
        "https://cdn/x".to_string(),
        ProbeOutcome::Answered {
            status: 200,
            content_type: Some("audio/flac".to_string()),
            content_length: Some("12345".to_string()),
            cors: None,
        },
    );
    assert_eq!(ok.status, 200);
    assert_eq!(ok.content_length, Some(12345));
    assert_eq!(ok.content_type.as_deref(), Some("audio/flac"));
    let bad_len = stream_debug(
        "5".to_string(),
        27,
        "f".to_string(),
        "u".to_string(),
        ProbeOutcome::Answered { status: 206, content_type: None, content_length: Some("-1".to_string()), cors: Some("*".to_string()) },
    );
    assert_eq!(bad_len.content_length, None);
    assert_eq!(bad_len.cors.as_deref(), Some("*"));
    let failed = stream_debug("5".to_string(), 6, "f".to_string(), "u".to_string(), ProbeOutcome::Failed("timeout".to_string()));
    assert_eq!(failed.status, 0);
    assert_eq!(failed.content_type.as_deref(), Some("HEAD request failed: timeout"));
    assert_eq!(failed.content_length, None);
    assert_eq!(failed.requested_format_id, 6);
}

#[test]
fn playlist_file_names_the_session() {
    assert_eq!(playlist_session_id("abc.m3u"), "abc");
    assert_eq!(playlist_session_id("abc"), "abc");
    assert_eq!(playlist_session_id(".m3u"), "");
    assert_eq!(playlist_session_id("m3u"), "m3u");
    assert_eq!(playlist_session_id("abc.m3u8"), "abc.m3u8");
}
