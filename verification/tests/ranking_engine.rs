use std::time::Instant;

use ostinato_radio::engine::ranker::{
    after_model_reply, merge_ranking, model_ranks, ranking_or_fallback, sort_candidates, ModelAttempt, ModelReply,
    RankingStep,
};
use ostinato_radio::engine::window::{
    append_to_session, hydrate_queue, pool_from_candidate, track_id_from_candidate,
};
use ostinato_radio::errors::AppError;
use ostinato_radio::providers::ai::workers_ai::{
    build_prompt, extract_json_array, json_array_bounds_ok, stricter_prompt, workers_ai_url, WorkersRankItem,
};
use ostinato_radio::providers::ai::{
    select_provider, AnthropicProvider, Candidate, DeterministicRanker, MusicAI, OpenAICompatProvider,
    PoolRatioText, ProviderChoice, RankedTrack, RankingContext,
};
use ostinato_radio::state::{PlaybackTarget, Pool, QueuedTrack, RadioSession, TasteProfile, TrackMetadata};

fn cand(id: &str, pool: Pool) -> Candidate {
    Candidate {
        id: id.to_string(),
        track_title: format!("title {}", id),
        artist_name: format!("artist {}", id),
        album: "album".to_string(),
        duration: Some(180),
        image_url: None,
        pool,
        source_tags: vec!["chill".to_string()],
    }
}

fn ids(r: &[RankedTrack]) -> Vec<(String, usize)> {
    r.iter().map(|t| (t.candidate_id.clone(), t.rank)).collect()
}

fn ratios() -> PoolRatioText {
    PoolRatioText { familiar: "60".to_string(), new_release: "25".to_string(), discovery: "15".to_string() }
}

#[test]
fn deterministic_ranking_is_pool_ordered() {
    let cands = vec![
        cand("disc|X|1", Pool::Discovery),
        cand("a|2", Pool::Familiar),
        cand("nr|b|3", Pool::NewRelease),
        cand("a|4", Pool::Familiar),
    ];
    let r = DeterministicRanker.rank(&cands);
    assert_eq!(
        ids(&r),
        vec![
            ("a|2".to_string(), 0),
            ("a|4".to_string(), 1),
            ("nr|b|3".to_string(), 2),
            ("disc|X|1".to_string(), 3)
        ]
    );
    let profile = TasteProfile::empty(Instant::now());
    let ctx = RankingContext {
        theme: "chill",
        taste_profile: &profile,
        candidates: &cands,
        already_played: &[],
        target_count: 20,
        pool_ratios: ratios(),
    };
    assert_eq!(ids(&DeterministicRanker.rank_candidates(&ctx).unwrap()), ids(&r));
    match AnthropicProvider::new("k".to_string(), "m".to_string()).rank_candidates(&ctx) {
        Err(AppError::Ai(m)) => assert_eq!(m, "Anthropic not yet implemented"),
        _ => panic!("expected the stub error"),
    }
    match OpenAICompatProvider::new("k".to_string(), "u".to_string(), "m".to_string()).rank_candidates(&ctx) {
        Err(AppError::Ai(m)) => assert_eq!(m, "OpenAICompat not yet implemented"),
        _ => panic!("expected the stub error"),
    }
}

#[test]
fn model_ranking_is_completed_with_the_rest() {
    let cands = vec![
        cand("disc|X|9", Pool::Discovery),
        cand("a|2", Pool::Familiar),
        cand("nr|b|3", Pool::NewRelease),
        cand("a|1", Pool::Familiar),
    ];
    let items = vec![
        WorkersRankItem { candidate_id: "nr|b|3".to_string(), rank: Some(1) },
        WorkersRankItem { candidate_id: "a|2".to_string(), rank: None },
    ];
    let r = merge_ranking(&items, &cands);
    assert_eq!(
        ids(&r),
        vec![
            ("nr|b|3".to_string(), 1),
            ("a|2".to_string(), 1),
            ("a|1".to_string(), 2),
            ("disc|X|9".to_string(), 3)
        ]
    );
    let fallback = ranking_or_fallback(Err(AppError::Ai("down".to_string())), &cands);
    assert_eq!(ids(&fallback), ids(&DeterministicRanker.rank(&cands)));
    let kept = ranking_or_fallback(Ok(r.clone()), &cands);
    assert_eq!(ids(&kept), ids(&r));
    assert!(!model_ranks(4));
    assert!(model_ranks(5));
    let sorted = sort_candidates(&cands);
    let order: Vec<String> = sorted.iter().map(|c| c.id.clone()).collect();
    assert_eq!(order, vec!["a|1", "a|2", "nr|b|3", "disc|X|9"]);
}

#[test]
fn model_never_invents_tracks() {
    let cands = vec![
        cand("a|1", Pool::Familiar),
        cand("a|2", Pool::Familiar),
        cand("nr|b|3", Pool::NewRelease),
        cand("disc|X|9", Pool::Discovery),
        cand("a|5", Pool::Familiar),
    ];
    let items = vec![
        WorkersRankItem { candidate_id: "zz".to_string(), rank: Some(1) },
        WorkersRankItem { candidate_id: "a|2".to_string(), rank: None },
        WorkersRankItem { candidate_id: "a|2".to_string(), rank: Some(7) },
        WorkersRankItem { candidate_id: "nr|b|3".to_string(), rank: Some(2) },
    ];
    let r = merge_ranking(&items, &cands);
    assert_eq!(
        ids(&r),
        vec![
            ("a|2".to_string(), 0),
            ("nr|b|3".to_string(), 2),
            ("a|1".to_string(), 2),
            ("a|5".to_string(), 3),
            ("disc|X|9".to_string(), 4)
        ]
    );
    let only_invented = vec![WorkersRankItem { candidate_id: "zz".to_string(), rank: Some(1) }];
    let r = merge_ranking(&only_invented, &cands);
    assert_eq!(ids(&r), ids(&DeterministicRanker.rank(&cands)));
}

#[test]
fn every_left_out_candidate_is_ranked() {
    let cands = vec![
        cand("a|1", Pool::Familiar),
        cand("disc|X|9", Pool::Discovery),
        cand("a|1", Pool::Familiar),
        cand("a|0", Pool::Familiar),
    ];
    let r = merge_ranking(&Vec::new(), &cands);
    assert_eq!(
        ids(&r),
        vec![
            ("a|0".to_string(), 0),
            ("a|1".to_string(), 1),
            ("a|1".to_string(), 2),
            ("disc|X|9".to_string(), 3)
        ]
    );
    let items = vec![WorkersRankItem { candidate_id: "a|1".to_string(), rank: Some(5) }];
    let r = merge_ranking(&items, &cands);
    assert_eq!(
        ids(&r),
        vec![("a|1".to_string(), 5), ("a|0".to_string(), 1), ("disc|X|9".to_string(), 2)]
    );
}

#[test]
fn unreadable_reply_is_asked_again_once() {
    let cands: Vec<Candidate> = (1..=5).map(|i| cand(&format!("a|{}", i), Pool::Familiar)).collect();
    let profile = TasteProfile::empty(Instant::now());
    let ctx = RankingContext {
        theme: "chill",
        taste_profile: &profile,
        candidates: &cands,
        already_played: &[],
        target_count: 20,
        pool_ratios: ratios(),
    };
    let deterministic = ids(&DeterministicRanker.rank(&cands));
    match after_model_reply(&ctx, ModelAttempt::First, ModelReply::Unreadable) {
        RankingStep::AskAgain(p) => {
            assert_eq!(p, stricter_prompt(&ctx));
            assert!(p.starts_with(build_prompt(&ctx).as_str()));
            assert!(p.len() > build_prompt(&ctx).len());
        }
        RankingStep::Done(_) => panic!("expected a second request"),
    }
    match after_model_reply(&ctx, ModelAttempt::Stricter, ModelReply::Unreadable) {
        RankingStep::Done(v) => assert_eq!(ids(&v), deterministic),
        RankingStep::AskAgain(_) => panic!("expected the deterministic ranking"),
    }
    match after_model_reply(&ctx, ModelAttempt::First, ModelReply::Unreachable) {
        RankingStep::Done(v) => assert_eq!(ids(&v), deterministic),
        RankingStep::AskAgain(_) => panic!("expected the deterministic ranking"),
    }
    let items = vec![WorkersRankItem { candidate_id: "a|4".to_string(), rank: Some(1) }];
    match after_model_reply(&ctx, ModelAttempt::Stricter, ModelReply::Ranked(items)) {
        RankingStep::Done(v) => assert_eq!(
            ids(&v),
            vec![
                ("a|4".to_string(), 1),
                ("a|1".to_string(), 1),
                ("a|2".to_string(), 2),
                ("a|3".to_string(), 3),
                ("a|5".to_string(), 4)
            ]
        ),
        RankingStep::AskAgain(_) => panic!("expected the model's ranking"),
    }
}

#[test]
fn workers_ai_helpers() {
    assert_eq!(
        workers_ai_url("acc", "@cf/google/gemma"),
        "https://api.cloudflare.com/client/v4/accounts/acc/ai/run/@cf/google/gemma"
    );
    let reply = "Sure! [{\"candidate_id\":\"a\",\"rank\":1}] hope it helps";
    assert!(json_array_bounds_ok(reply));
    assert_eq!(extract_json_array(reply), "[{\"candidate_id\":\"a\",\"rank\":1}]");
    assert!(json_array_bounds_ok("no array here"));
    assert_eq!(extract_json_array("no array here"), "no array here");
    assert!(!json_array_bounds_ok("] then ["));
}

#[test]
fn provider_selection() {
    assert_eq!(select_provider("workers_ai", "acc", "tok", "", ""), ProviderChoice::WorkersAi);
    assert_eq!(select_provider("workers_ai", "acc", "", "", ""), ProviderChoice::Deterministic);
    assert_eq!(select_provider("anthropic", "", "", "k", ""), ProviderChoice::Anthropic);
    assert_eq!(select_provider("anthropic", "a", "b", "", "c"), ProviderChoice::Deterministic);
    assert_eq!(select_provider("openai_compat", "", "", "", "k"), ProviderChoice::OpenAICompat);
    assert_eq!(select_provider("openai_compat", "", "", "k", ""), ProviderChoice::Deterministic);
    assert_eq!(select_provider("mistral", "a", "b", "c", "d"), ProviderChoice::Deterministic);
}

#[test]
fn queue_hydration() {
    assert_eq!(track_id_from_candidate("disc|Some Artist|123"), "123");
    assert_eq!(track_id_from_candidate("456"), "456");
    assert_eq!(pool_from_candidate("disc|A|1"), Pool::Discovery);
    assert_eq!(pool_from_candidate("nr|A|1"), Pool::NewRelease);
    assert_eq!(pool_from_candidate("77|1"), Pool::Familiar);
    let cands = vec![cand("77|1", Pool::Familiar), cand("disc|B|2", Pool::Discovery)];
    let mut ranked: Vec<RankedTrack> = vec![
        RankedTrack { candidate_id: "disc|B|2".to_string(), rank: 0 },
        RankedTrack { candidate_id: "77|1".to_string(), rank: 1 },
        RankedTrack { candidate_id: "invented|9".to_string(), rank: 2 },
    ];
    for k in 0..30 {
        ranked.push(RankedTrack { candidate_id: format!("x|{}", k), rank: 3 + k });
    }
    let mut cache: ostinato_radio::bindings::MetadataCache = dashmap::DashMap::new();
    let q = hydrate_queue(ranked, &cands, &mut cache);
    assert_eq!(q.len(), 20);
    assert_eq!(q[0].track_id, "2");
    assert_eq!(q[0].pool, Pool::Discovery);
    assert_eq!(q[0].metadata.title, "title disc|B|2");
    assert_eq!(q[0].metadata.id, "2");
    assert_eq!(q[1].track_id, "1");
    assert_eq!(q[1].metadata.artist, "artist 77|1");
    assert_eq!(q[2].track_id, "9");
    assert_eq!(q[2].metadata.title, "Unknown");
    assert_eq!(q[2].metadata.album, "Unknown");
    assert!(cache.get("2").is_some());
    assert_eq!(cache.get("9").unwrap().artist, "Unknown");
    assert!(cache.get("16").is_some());
    assert!(cache.get("17").is_none());
    assert_eq!(q[19].track_id, "16");

    let mut session = RadioSession {
        id: "s".to_string(),
        theme_input: "t".to_string(),
        theme_tags: Vec::new(),
        queue: q,
        history: Vec::new(),
        target: PlaybackTarget::Phone,
        started_at: Instant::now(),
    };
    let extra = QueuedTrack {
        track_id: "new".to_string(),
        pool: Pool::Familiar,
        metadata: TrackMetadata { id: "new".to_string(), ..Default::default() },
    };
    append_to_session(&mut session, vec![extra]);
    assert_eq!(session.queue.len(), 21);
    assert_eq!(session.queue[20].track_id, "new");
}
