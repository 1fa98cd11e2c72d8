use std::collections::VecDeque;
use std::time::Instant;

use ostinato_radio::errors::AppError;
use ostinato_radio::routes::radio::{
    check_candidate_count, check_profile_ready, expand_theme_tags, next_track, open_session,
    parse_target, session_status, target_name, theme_and_tags, wiim_playlist_url,
};
use ostinato_radio::state::{
    ArtistEntry, ArtistWeight, PlaybackTarget, Pool, QueuedTrack, RadioSession, TasteProfile,
    TrackMetadata,
};

fn track(id: &str, pool: Pool, title: &str, artist: &str, duration: Option<u64>) -> QueuedTrack {
    QueuedTrack {
        track_id: id.to_string(),
        pool,
        metadata: TrackMetadata {
            id: id.to_string(),
            title: title.to_string(),
            artist: artist.to_string(),
            artist_id: None,
            album: format!("{} album", artist),
            album_id: None,
            duration,
            image_url: Some(format!("https://img/{}", id)),
        },
    }
}

fn session(queue: Vec<QueuedTrack>) -> RadioSession {
    RadioSession {
        id: "s1".to_string(),
        theme_input: "chill".to_string(),
        theme_tags: vec!["chill".to_string()],
        queue: queue.into_iter().collect(),
        history: Vec::new(),
        target: PlaybackTarget::Phone,
        started_at: Instant::now(),
    }
}

#[test]
fn theme_tags_from_dictionary() {
    assert_eq!(expand_theme_tags("chill"), vec!["chill"]);
    assert_eq!(expand_theme_tags("chill folk soir"), vec!["chill", "folk", "acoustic", "mellow"]);
    assert_eq!(expand_theme_tags("running"), vec!["energetic", "electronic", "upbeat"]);
    assert_eq!(
        expand_theme_tags("soir d'hiver running"),
        vec!["mellow", "energetic", "electronic", "upbeat"]
    );
    assert_eq!(expand_theme_tags("shoegaze"), vec!["shoegaze", "dream-pop", "noise-pop"]);
}

#[test]
fn theme_tags_fall_back_to_words() {
    assert_eq!(expand_theme_tags("jazz  manouche"), vec!["jazz", "manouche"]);
    assert!(expand_theme_tags("   ").is_empty());
}

#[test]
fn theme_tags_never_repeat() {
    let tags = expand_theme_tags("chill soir winter folk");
    for i in 0..tags.len() {
        for j in (i + 1)..tags.len() {
            assert_ne!(tags[i], tags[j]);
        }
    }
    assert_eq!(
        tags,
        vec!["chill", "folk", "acoustic", "mellow", "ambient"]
    );
}

#[test]
fn targets_and_names() {
    assert_eq!(parse_target("wiim"), PlaybackTarget::Wiim);
    assert_eq!(parse_target("phone"), PlaybackTarget::Phone);
    assert_eq!(parse_target("WiiM"), PlaybackTarget::Phone);
    assert_eq!(target_name(PlaybackTarget::Wiim), "wiim");
    assert_eq!(target_name(PlaybackTarget::Phone), "phone");
}

#[test]
fn radio_start_guards() {
    let empty = TasteProfile::empty(Instant::now());
    match check_profile_ready(&empty) {
        Err(AppError::BadRequest(m)) => assert_eq!(
            m,
            "Taste profile not yet ready. Please wait a moment after authentication and try again."
        ),
        _ => panic!("expected a refusal"),
    }
    let mut ready = TasteProfile::empty(Instant::now());
    ready.artists.push(ArtistEntry {
        id: "1".to_string(),
        weight: ArtistWeight { name: "A".to_string(), base_weight: 10, session_delta: 0 },
    });
    assert!(check_profile_ready(&ready).is_ok());
    match check_candidate_count("chill", 4) {
        Err(AppError::BadRequest(m)) => assert_eq!(
            m,
            "Not enough tracks found for theme 'chill'. Try a broader theme or check your Qobuz favorites."
        ),
        _ => panic!("expected a refusal"),
    }
    assert!(check_candidate_count("chill", 5).is_ok());
    assert_eq!(
        wiim_playlist_url("http://192.168.1.10:8080", "abc"),
        "http://192.168.1.10:8080/playback/wiim/abc.m3u"
    );
}

#[test]
fn opening_a_session_reports_its_queue() {
    let queue: VecDeque<QueuedTrack> = vec![
        track("t1", Pool::Familiar, "One", "A", Some(200)),
        track("t2", Pool::Discovery, "Two", "B", None),
    ]
    .into_iter()
    .collect();
    let now = Instant::now();
    let (s, resp) = open_session(
        "sid".to_string(),
        "chill".to_string(),
        vec!["chill".to_string(), "mellow".to_string()],
        queue,
        PlaybackTarget::Wiim,
        now,
    );
    assert_eq!(s.id, "sid");
    assert_eq!(s.queue.len(), 2);
    assert!(s.history.is_empty());
    assert_eq!(resp.session_id, "sid");
    assert_eq!(resp.target, "wiim");
    assert_eq!(resp.theme_tags, vec!["chill", "mellow"]);
    assert_eq!(resp.queue.len(), 2);
    assert_eq!(resp.queue[0].track_id, "t1");
    assert_eq!(resp.queue[0].pool, "Familiar");
    assert_eq!(resp.queue[0].duration, Some(200));
    assert_eq!(resp.queue[1].pool, "Discovery");
    assert_eq!(resp.queue[1].image_url.as_deref(), Some("https://img/t2"));
}

#[test]
fn status_reports_the_front_track() {
    let s = session(vec![
        track("t1", Pool::NewRelease, "One", "A", Some(10)),
        track("t2", Pool::Familiar, "Two", "B", None),
    ]);
    let st = session_status(&s);
    assert_eq!(st.session_id, "s1");
    assert_eq!(st.theme, "chill");
    assert_eq!(st.queue_remaining, 2);
    assert_eq!(st.target, "phone");
    let cur = st.current_track.expect("a current track");
    assert_eq!(cur.track_id, "t1");
    assert_eq!(cur.title, "One");
    assert_eq!(cur.pool, "NewRelease");
    let empty = session(Vec::new());
    assert!(session_status(&empty).current_track.is_none());
}

#[test]
fn next_track_moves_the_front_to_history() {
    let mut s = session(vec![
        track("t1", Pool::Familiar, "One", "A", None),
        track("t2", Pool::Discovery, "Two", "B", None),
    ]);
    let r = next_track(&mut s).expect("a next track");
    assert_eq!(r.track_id, "t2");
    assert_eq!(r.pool, "Discovery");
    assert_eq!(s.queue.len(), 1);
    assert_eq!(s.history.len(), 1);
    assert_eq!(s.history[0].track_id, "t1");
    assert_eq!(s.history[0].pool, Pool::Familiar);
    assert_eq!(s.history[0].completed, None);
    assert_eq!(s.history[0].listened_ms, 0);
    match next_track(&mut s) {
        Err(AppError::BadRequest(m)) => assert_eq!(m, "End of queue"),
        _ => panic!("expected the end of the queue"),
    }
    assert!(s.queue.is_empty());
    assert_eq!(s.history.len(), 2);
    assert!(matches!(next_track(&mut s), Err(AppError::NotFound)));
    assert_eq!(s.history.len(), 2);
}

#[test]
fn request_theme_is_lowercased_before_expansion() {
    let (theme, tags) = theme_and_tags("Chill FOLK");
    assert_eq!(theme, "chill folk");
    assert_eq!(tags, vec!["chill", "folk", "acoustic"]);
    let (theme, tags) = theme_and_tags("Éclat Doré");
    assert_eq!(theme, "éclat doré");
    assert_eq!(tags, vec!["éclat", "doré"]);
}
