use std::time::Instant;

use ostinato_radio::errors::AppError;
use ostinato_radio::routes::feedback::{
    apply_feedback, feedback_completion, feedback_signal, next_session_delta, past_threshold, record_taste_feedback,
    submit_feedback, FeedbackRequest,
};
use ostinato_radio::state::{ArtistEntry, ArtistWeight, PlaybackTarget, PlayedTrack, Pool, RadioSession, TasteProfile};

fn session_with_history(ids: &[&str]) -> RadioSession {
    RadioSession {
        id: "s".to_string(),
        theme_input: "t".to_string(),
        theme_tags: Vec::new(),
        queue: Default::default(),
        history: ids
            .iter()
            .map(|id| PlayedTrack { track_id: id.to_string(), pool: Pool::Familiar, completed: None, listened_ms: 0 })
            .collect(),
        target: PlaybackTarget::Phone,
        started_at: Instant::now(),
    }
}

fn request(id: &str, action: &str, progress: Option<u64>) -> FeedbackRequest {
    FeedbackRequest { track_id: id.to_string(), action: action.to_string(), progress_ms: progress, duration_ms: Some(1000) }
}

#[test]
fn feedback_actions() {
    assert_eq!(feedback_completion("complete", false).unwrap(), Some(true));
    assert_eq!(feedback_completion("skip", true).unwrap(), Some(false));
    assert_eq!(feedback_completion("progress", true).unwrap(), Some(true));
    assert_eq!(feedback_completion("progress", false).unwrap(), None);
    match feedback_completion("like", true) {
        Err(AppError::BadRequest(m)) => assert_eq!(m, "Unknown action"),
        _ => panic!("expected a refusal"),
    }
}

#[test]
fn feedback_updates_the_first_entry_of_the_track() {
    let mut s = session_with_history(&["a", "b", "a"]);
    let r = submit_feedback(&mut s, &request("a", "skip", Some(1200)), false).unwrap();
    assert!(r.ok);
    assert_eq!(s.history[0].completed, Some(false));
    assert_eq!(s.history[0].listened_ms, 1200);
    assert_eq!(s.history[2].completed, None);
    assert_eq!(s.history[2].listened_ms, 0);
    let r = submit_feedback(&mut s, &request("b", "progress", None), true).unwrap();
    assert!(r.ok);
    assert_eq!(s.history[1].completed, Some(true));
    assert_eq!(s.history[1].listened_ms, 0);
}

#[test]
fn feedback_on_unknown_track_or_action() {
    let mut s = session_with_history(&["a"]);
    assert!(submit_feedback(&mut s, &request("zzz", "complete", Some(5)), false).unwrap().ok);
    assert_eq!(s.history[0].completed, None);
    assert!(matches!(submit_feedback(&mut s, &request("a", "love", Some(5)), false), Err(AppError::BadRequest(_))));
    assert_eq!(s.history[0].completed, None);
    assert_eq!(s.history[0].listened_ms, 0);
}

fn artist(id: &str, name: &str, delta: i64) -> ArtistEntry {
    ArtistEntry {
        id: id.to_string(),
        weight: ArtistWeight { name: name.to_string(), base_weight: 30, session_delta: delta },
    }
}

#[test]
fn listening_thresholds() {
    assert!(past_threshold(&request("t", "progress", Some(801))));
    assert!(!past_threshold(&request("t", "progress", Some(800))));
    assert!(!past_threshold(&request("t", "progress", None)));
    let no_duration = FeedbackRequest { track_id: "t".to_string(), action: "progress".to_string(), progress_ms: Some(5), duration_ms: None };
    assert!(past_threshold(&no_duration));
    let zero = FeedbackRequest { track_id: "t".to_string(), action: "skip".to_string(), progress_ms: Some(5), duration_ms: Some(0) };
    assert!(!past_threshold(&zero));
    assert_eq!(feedback_signal(&zero), -20);
}

#[test]
fn feedback_signals() {
    assert_eq!(feedback_signal(&request("t", "skip", Some(100))), -20);
    assert_eq!(feedback_signal(&request("t", "skip", Some(199))), -20);
    assert_eq!(feedback_signal(&request("t", "skip", Some(200))), 0);
    assert_eq!(feedback_signal(&request("t", "skip", Some(900))), 10);
    assert_eq!(feedback_signal(&request("t", "complete", None)), 10);
    assert_eq!(feedback_signal(&request("t", "progress", Some(850))), 10);
    assert_eq!(feedback_signal(&request("t", "progress", Some(500))), 0);
    assert_eq!(feedback_signal(&request("t", "dance", Some(900))), 0);
}

#[test]
fn session_delta_decays_and_is_bounded() {
    assert_eq!(next_session_delta(0, -20), -20);
    assert_eq!(next_session_delta(-20, -20), -38);
    assert_eq!(next_session_delta(-95, -20), -100);
    assert_eq!(next_session_delta(-100, -20), -100);
    assert_eq!(next_session_delta(95, 10), 96);
    assert_eq!(next_session_delta(100, 10), 100);
    assert_eq!(next_session_delta(57, 0), 52);
    assert_eq!(next_session_delta(-57, 0), -52);
    assert_eq!(next_session_delta(i64::MIN, 0), -100);
    assert_eq!(next_session_delta(i64::MAX, -20), 100);
}

#[test]
fn feedback_moves_the_artist_weight() {
    let mut profile = TasteProfile::empty(Instant::now());
    profile.artists = vec![artist("1", "Nick Drake", 0), artist("2", "Low", 5), artist("3", "Nick Drake", 40)];
    record_taste_feedback(&mut profile, &request("t", "skip", Some(50)), "1");
    assert_eq!(profile.artists[0].weight.session_delta, -20);
    assert_eq!(profile.artists[1].weight.session_delta, 5);
    assert_eq!(profile.artists[2].weight.session_delta, 40);
    assert_eq!(profile.artists[0].weight.base_weight, 30);
    assert_eq!(profile.artists[0].weight.name, "Nick Drake");
    record_taste_feedback(&mut profile, &request("t", "complete", Some(1000)), "2");
    assert_eq!(profile.artists[1].weight.session_delta, 15);
    assert_eq!(profile.artists[0].weight.session_delta, -20);
    record_taste_feedback(&mut profile, &request("t", "progress", Some(400)), "2");
    assert_eq!(profile.artists[1].weight.session_delta, 14);
    record_taste_feedback(&mut profile, &request("t", "complete", None), "99");
    assert_eq!(profile.artists.len(), 3);
    assert_eq!(profile.artists[1].weight.session_delta, 14);
    assert!(profile.is_well_formed());
}

#[test]
fn feedback_updates_history_and_taste_together() {
    let mut profile = TasteProfile::empty(Instant::now());
    profile.artists = vec![artist("1", "Nick Drake", 0), artist("2", "Low", 0)];
    let mut s = session_with_history(&["t1", "t2"]);
    let r = apply_feedback(&mut s, &mut profile, &request("t2", "skip", Some(100)), Some("2"));
    assert!(r.unwrap().ok);
    assert_eq!(s.history[1].completed, Some(false));
    assert_eq!(s.history[1].listened_ms, 100);
    assert_eq!(profile.artists[1].weight.session_delta, -20);
    assert_eq!(profile.artists[0].weight.session_delta, 0);
    let r = apply_feedback(&mut s, &mut profile, &request("t1", "progress", Some(900)), Some("1"));
    assert!(r.is_ok());
    assert_eq!(s.history[0].completed, Some(true));
    assert_eq!(profile.artists[0].weight.session_delta, 10);
    let r = apply_feedback(&mut s, &mut profile, &request("t1", "dance", Some(900)), Some("1"));
    match r {
        Err(AppError::BadRequest(m)) => assert_eq!(m, "Unknown action"),
        _ => panic!("expected a refusal"),
    }
    assert_eq!(profile.artists[0].weight.session_delta, 10);
    let r = apply_feedback(&mut s, &mut profile, &request("t1", "complete", None), None);
    assert!(r.is_ok());
    assert_eq!(profile.artists[0].weight.session_delta, 10);
}
