use std::time::{Duration, Instant};

use ostinato_radio::engine::pools::{assemble_candidates, dedup_tracks, fallback_queries, theme_query, top_artist_names};
use ostinato_radio::engine::profile::{build_taste_profile, favorites_fit};
use ostinato_radio::providers::qobuz::{QobuzAlbum, QobuzArtist, QobuzFavorites};
use ostinato_radio::state::{
    ttl_exceeded, ArtistEntry, ArtistWeight, CachedReleases, Pool, TasteProfile, TrackMetadata, RELEASES_TTL_SECS,
};

fn t(id: &str, artist: &str, artist_id: Option<&str>) -> TrackMetadata {
    TrackMetadata {
        id: id.to_string(),
        title: format!("T{}", id),
        artist: artist.to_string(),
        artist_id: artist_id.map(|s| s.to_string()),
        album: "Alb".to_string(),
        album_id: None,
        duration: Some(100),
        image_url: None,
    }
}

fn album(id: &str, artist_id: &str, date: &str) -> QobuzAlbum {
    QobuzAlbum {
        id: id.to_string(),
        title: format!("Album {}", id),
        artist_id: artist_id.to_string(),
        artist_name: format!("Artist {}", artist_id),
        release_date: date.to_string(),
    }
}

fn favorites() -> QobuzFavorites {
    QobuzFavorites {
        artists: vec![
            QobuzArtist { id: "a1".to_string(), name: "Nick Drake".to_string() },
            QobuzArtist { id: "a2".to_string(), name: "Vashti Bunyan".to_string() },
        ],
        albums: vec![album("x", "a1", "2024-05-01"), album("y", "a9", "2020-01-01"), album("z", "a2", "bad date")],
        tracks: vec![t("1", "Nick Drake", Some("a1")), t("2", "Nick Drake", Some("a1")), t("3", "Other", Some("a3"))],
    }
}

#[test]
fn taste_profile_weights_in_tenths() {
    let p = build_taste_profile(favorites());
    assert_eq!(p.artists.len(), 2);
    let a1 = p.artists.iter().find(|e| e.id == "a1").unwrap();
    assert_eq!(a1.weight.name, "Nick Drake");
    assert_eq!(a1.weight.base_weight, 10 + 5 * 2 + 3);
    assert_eq!(a1.weight.session_delta, 0);
    let a2 = p.artists.iter().find(|e| e.id == "a2").unwrap();
    assert_eq!(a2.weight.base_weight, 10 + 3);
    assert!(p.artists.iter().all(|e| e.id != "a3"));
    assert_eq!(p.albums.len(), 3);
    assert_eq!(p.tracks.len(), 3);
    assert_eq!(top_artist_names(&p, 1), vec!["Nick Drake"]);
    assert_eq!(top_artist_names(&p, 10), vec!["Nick Drake", "Vashti Bunyan"]);
}

#[test]
fn candidate_pools() {
    let p = build_taste_profile(favorites());
    let results = vec![t("1", "Nick Drake", Some("a1")), t("3", "Other", Some("a3")), t("1", "Nick Drake", Some("a1")), t("4", "Loose", None)];
    assert_eq!(dedup_tracks(&results).len(), 3);
    let tags = vec!["folk".to_string()];
    let c = assemble_candidates(&results, &p, &tags, (2024, 1, 1));
    let ids: Vec<(String, Pool)> = c.iter().map(|c| (c.id.clone(), c.pool)).collect();
    assert_eq!(
        ids,
        vec![
            ("a1|1".to_string(), Pool::Familiar),
            ("disc|Other|3".to_string(), Pool::Discovery),
            ("disc|Loose|4".to_string(), Pool::Discovery),
            ("nr|a1|x".to_string(), Pool::NewRelease),
        ]
    );
    assert_eq!(c[0].source_tags, vec!["folk"]);
    assert_eq!(c[3].track_title, "Album x");
    assert!(c[3].source_tags.is_empty());
}

#[test]
fn search_queries() {
    let tags = vec!["chill".to_string(), "mellow".to_string()];
    assert_eq!(theme_query(&tags), "chill mellow");
    let top = vec!["Nick Drake".to_string()];
    assert!(fallback_queries(10, &top, "chill mellow").is_empty());
    assert_eq!(fallback_queries(9, &top, "chill mellow"), vec!["Nick Drake chill mellow"]);
}

#[test]
fn release_cache_lifetime() {
    assert!(!ttl_exceeded(86400, 0, RELEASES_TTL_SECS));
    assert!(ttl_exceeded(86400, 1, RELEASES_TTL_SECS));
    assert!(ttl_exceeded(86401, 0, RELEASES_TTL_SECS));
    let fresh = CachedReleases { releases: Vec::new(), fetched_at: Instant::now() };
    assert!(!fresh.is_expired());
    if let Some(old) = Instant::now().checked_sub(Duration::from_secs(2 * 86400)) {
        let stale = CachedReleases { releases: Vec::new(), fetched_at: old };
        assert!(stale.is_expired());
    }
}

#[test]
fn profile_well_formedness_and_size() {
    let p = build_taste_profile(favorites());
    assert!(p.is_well_formed());
    assert!(favorites_fit(&favorites()));
    let mut q = TasteProfile::empty(Instant::now());
    assert!(q.is_well_formed());
    let entry = |id: &str| ArtistEntry {
        id: id.to_string(),
        weight: ArtistWeight { name: "n".to_string(), base_weight: 10, session_delta: 0 },
    };
    q.artists = vec![entry("a"), entry("b"), entry("c")];
    assert!(q.is_well_formed());
    q.artists.push(entry("b"));
    assert!(!q.is_well_formed());
}
