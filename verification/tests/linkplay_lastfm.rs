use ostinato_radio::json::{JsonNumber, JsonValue};
use ostinato_radio::providers::lastfm::{
    listed_names, similar_artists_from_json, similar_tags_from_json, tag_tracks_from_json,
    top_tracks_from_json, LastfmClient,
};
use ostinato_radio::providers::linkplay::{api_base, parse_player_status, LinkplayClient, PlayerStatus};

fn s(v: &str) -> JsonValue {
    JsonValue::Str(v.to_string())
}

fn obj(members: Vec<(&str, JsonValue)>) -> JsonValue {
    JsonValue::Object(members.into_iter().map(|(k, v)| (k.to_string(), v)).collect())
}

fn pairs(v: Vec<(String, String)>) -> Vec<(String, String)> {
    v
}

#[test]
fn linkplay_addresses() {
    assert_eq!(api_base("10.0.0.5"), "http://10.0.0.5/httpapi.asp");
    let mut c = LinkplayClient::new(None, 5);
    assert!(c.base_url.is_none());
    assert!(c.pause().is_err());
    c.set_ip("10.0.0.7");
    assert_eq!(c.base_url.as_deref(), Some("http://10.0.0.7/httpapi.asp"));
    assert_eq!(
        c.play_url("http://h:8080/playback/wiim/s 1").unwrap(),
        "http://10.0.0.7/httpapi.asp?command=setPlayerCmd%3Aplay%3Ahttp%3A%2F%2Fh%3A8080%2Fplayback%2Fwiim%2Fs%201"
    );
    assert_eq!(c.set_volume(100).unwrap(), "http://10.0.0.7/httpapi.asp?command=setPlayerCmd%3Avol%3A100");
    assert_eq!(c.set_volume(255).unwrap(), "http://10.0.0.7/httpapi.asp?command=setPlayerCmd%3Avol%3A100");
    assert_eq!(c.set_volume(0).unwrap(), "http://10.0.0.7/httpapi.asp?command=setPlayerCmd%3Avol%3A0");
    assert_eq!(c.get_player_status().unwrap(), "http://10.0.0.7/httpapi.asp?command=getPlayerStatus");
    let d = LinkplayClient::default();
    assert!(d.base_url.is_none());
    assert_eq!(d.poll_interval_secs, 5);
}

#[test]
fn player_status_parsing() {
    let st = parse_player_status("status: play ;curpos:12345; offset_pts:99;vol:50;junk");
    assert_eq!(st.state, "play");
    assert_eq!(st.position_ms, 12345);
    assert_eq!(st.offset_ms, 99);
    let st = parse_player_status("curpos:abc;status:pause;status:stop;curpos:7:8");
    assert_eq!(st.state, "stop");
    assert_eq!(st.position_ms, 0);
    let st = parse_player_status("");
    assert_eq!(st.state, "");
    assert_eq!(st.position_ms, 0);
    let d = PlayerStatus::default();
    assert_eq!(d.state, "");
    assert_eq!(d.offset_ms, 0);
}

#[test]
fn lastfm_queries() {
    let c = LastfmClient::new("KEY".to_string());
    assert_eq!(c.base_url, "https://ws.audioscrobbler.com/2.0");
    let q = c.similar_artists_query("Nick Drake");
    assert_eq!(
        q,
        pairs(vec![
            ("method".into(), "artist.getSimilar".into()),
            ("artist".into(), "Nick Drake".into()),
            ("api_key".into(), "KEY".into()),
            ("format".into(), "json".into()),
            ("limit".into(), "20".into()),
        ])
    );
    assert_eq!(c.top_tracks_query("X")[4], ("limit".to_string(), "10".to_string()));
    assert_eq!(c.top_tracks_by_tag_query("folk")[1], ("tag".to_string(), "folk".to_string()));
    assert_eq!(c.top_tracks_by_tag_query("folk")[4], ("limit".to_string(), "50".to_string()));
    let tags = c.similar_tags_query("folk");
    assert_eq!(tags.len(), 4);
    assert_eq!(tags[0], ("method".to_string(), "tag.getSimilar".to_string()));
    assert_eq!(LastfmClient::default().api_key, "");
}

#[test]
fn lastfm_answers() {
    let top = obj(vec![(
        "toptracks",
        obj(vec![(
            "track",
            JsonValue::Array(vec![
                obj(vec![("name", s("Pink Moon"))]),
                obj(vec![("name", JsonValue::Number(JsonNumber::PosInt(3)))]),
                obj(vec![("name", s("Northern Sky"))]),
            ]),
        )]),
    )]);
    assert_eq!(top_tracks_from_json(&top), vec!["Pink Moon", "Northern Sky"]);
    let err = obj(vec![("error", JsonValue::Number(JsonNumber::PosInt(6))), ("toptracks", obj(vec![]))]);
    assert!(top_tracks_from_json(&err).is_empty());
    assert!(top_tracks_from_json(&JsonValue::Null).is_empty());
    let tags = obj(vec![("similartags", obj(vec![("tag", JsonValue::Array(vec![obj(vec![("name", s("acoustic"))])]))]))]);
    assert_eq!(similar_tags_from_json(&tags), vec!["acoustic"]);
    assert_eq!(listed_names(&tags, "similartags", "tag"), vec!["acoustic"]);
    let tt = obj(vec![(
        "tracks",
        obj(vec![(
            "track",
            JsonValue::Array(vec![
                obj(vec![("name", s("River Man")), ("artist", obj(vec![("name", s("Nick Drake"))]))]),
                obj(vec![("name", s("No artist"))]),
            ]),
        )]),
    )]);
    let tracks = tag_tracks_from_json(&tt);
    assert_eq!(tracks.len(), 1);
    assert_eq!(tracks[0].title, "River Man");
    assert_eq!(tracks[0].artist, "Nick Drake");
    let sim = obj(vec![(
        "similarartists",
        obj(vec![(
            "artist",
            JsonValue::Array(vec![
                obj(vec![("name", s("John Martyn")), ("match", s("0.87"))]),
                obj(vec![("name", s("Vashti Bunyan"))]),
            ]),
        )]),
    )]);
    assert_eq!(similar_artists_from_json(&sim), vec![("John Martyn".to_string(), "0.87".to_string())]);
}
