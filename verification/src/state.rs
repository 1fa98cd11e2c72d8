//! The in-memory data model: tracks, queues, sessions, the taste profile and
//! the Qobuz session, with views that the contracts speak of.
use vstd::prelude::*;

use crate::bindings::elapsed_parts;
use crate::text::str_eq;

verus! {

pub type TrackId = String;

pub type ArtistId = String;

pub type SessionId = String;

pub type AlbumId = String;

/// The characters of an optional string.
pub open spec fn opt_view(o: Option<String>) -> Option<Seq<char>> {
    match o {
        Some(s) => Some(s@),
        None => None,
    }
}

/// A copy of an optional string.
pub fn clone_opt_string(o: &Option<String>) -> (r: Option<String>)
    ensures
        opt_view(r) == opt_view(*o),
{
    match o {
        Some(s) => Some(s.clone()),
        None => None,
    }
}

/// The characters of each string of a list.
pub open spec fn strings_view(v: Seq<String>) -> Seq<Seq<char>> {
    v.map_values(|s: String| s@)
}

/// A copy of a list of strings.
pub fn clone_strings(v: &Vec<String>) -> (r: Vec<String>)
    ensures
        strings_view(r@) == strings_view(v@),
{
    let mut r: Vec<String> = Vec::new();
    for i in 0..v.len()
        invariant
            strings_view(r@) == strings_view(v@.take(i as int)),
    {
        r.push(v[i].clone());
        assert(strings_view(v@.take(i + 1)) == strings_view(v@.take(i as int)).push(v@[i as int]@));
    }
    assert(v@.take(v@.len() as int) == v@);
    r
}

/// Which of the three blended pools a track comes from.
#[derive(Clone, Copy, Debug, PartialEq, Eq, Structural)]
pub enum Pool {
    Familiar,
    NewRelease,
    Discovery,
}

/// The name of a pool, as `{:?}` writes it.
pub open spec fn pool_name_of(p: Pool) -> Seq<char> {
    match p {
        Pool::Familiar => "Familiar"@,
        Pool::NewRelease => "NewRelease"@,
        Pool::Discovery => "Discovery"@,
    }
}

/// The name of a pool, as `{:?}` writes it.
pub fn pool_name(p: Pool) -> (r: &'static str)
    ensures
        r@ == pool_name_of(p),
{
    match p {
        Pool::Familiar => "Familiar",
        Pool::NewRelease => "NewRelease",
        Pool::Discovery => "Discovery",
    }
}

/// Where a radio plays.
#[derive(Clone, Copy, Debug, PartialEq, Eq, Structural)]
pub enum PlaybackTarget {
    Phone,
    Wiim,
}

/// Metadata of one track.
#[derive(Clone, Debug, Default)]
pub struct TrackMetadata {
    pub id: TrackId,
    pub title: String,
    pub artist: String,
    pub artist_id: Option<ArtistId>,
    pub album: String,
    pub album_id: Option<AlbumId>,
    pub duration: Option<u64>,
    pub image_url: Option<String>,
}

/// Track metadata seen as plain values.
pub struct TrackView {
    pub id: Seq<char>,
    pub title: Seq<char>,
    pub artist: Seq<char>,
    pub artist_id: Option<Seq<char>>,
    pub album: Seq<char>,
    pub album_id: Option<Seq<char>>,
    pub duration: Option<u64>,
    pub image_url: Option<Seq<char>>,
}

impl View for TrackMetadata {
    type V = TrackView;

    open spec fn view(&self) -> TrackView {
        TrackView {
            id: self.id@,
            title: self.title@,
            artist: self.artist@,
            artist_id: opt_view(self.artist_id),
            album: self.album@,
            album_id: opt_view(self.album_id),
            duration: self.duration,
            image_url: opt_view(self.image_url),
        }
    }
}

impl TrackMetadata {
    /// A copy of this metadata.
    pub fn duplicate(&self) -> (r: TrackMetadata)
        ensures
            r@ == self@,
    {
        TrackMetadata {
            id: self.id.clone(),
            title: self.title.clone(),
            artist: self.artist.clone(),
            artist_id: clone_opt_string(&self.artist_id),
            album: self.album.clone(),
            album_id: clone_opt_string(&self.album_id),
            duration: self.duration,
            image_url: clone_opt_string(&self.image_url),
        }
    }
}

/// The views of a list of tracks.
pub open spec fn tracks_view(v: Seq<TrackMetadata>) -> Seq<TrackView> {
    v.map_values(|t: TrackMetadata| t@)
}

/// A track waiting in a radio queue.
#[derive(Clone, Debug)]
pub struct QueuedTrack {
    pub track_id: TrackId,
    pub pool: Pool,
    pub metadata: TrackMetadata,
}

pub struct QueuedView {
    pub track_id: Seq<char>,
    pub pool: Pool,
    pub metadata: TrackView,
}

impl View for QueuedTrack {
    type V = QueuedView;

    open spec fn view(&self) -> QueuedView {
        QueuedView { track_id: self.track_id@, pool: self.pool, metadata: self.metadata@ }
    }
}

impl QueuedTrack {
    /// A copy of this queued track.
    pub fn clone_track(&self) -> (r: QueuedTrack)
        ensures
            r@ == self@,
    {
        QueuedTrack { track_id: self.track_id.clone(), pool: self.pool, metadata: self.metadata.duplicate() }
    }
}

/// The views of a queue.
pub open spec fn queue_view(q: Seq<QueuedTrack>) -> Seq<QueuedView> {
    q.map_values(|t: QueuedTrack| t@)
}

/// A track that has started playing in a session.
#[derive(Clone, Debug)]
pub struct PlayedTrack {
    pub track_id: TrackId,
    pub pool: Pool,
    pub completed: Option<bool>,
    pub listened_ms: u64,
}

pub struct PlayedView {
    pub track_id: Seq<char>,
    pub pool: Pool,
    pub completed: Option<bool>,
    pub listened_ms: u64,
}

impl View for PlayedTrack {
    type V = PlayedView;

    open spec fn view(&self) -> PlayedView {
        PlayedView {
            track_id: self.track_id@,
            pool: self.pool,
            completed: self.completed,
            listened_ms: self.listened_ms,
        }
    }
}

/// The views of a play history.
pub open spec fn history_view(h: Seq<PlayedTrack>) -> Seq<PlayedView> {
    h.map_values(|t: PlayedTrack| t@)
}

/// A favorite album kept in the taste profile.
#[derive(Clone, Debug)]
pub struct AlbumEntry {
    pub id: AlbumId,
    pub title: String,
    pub artist_id: ArtistId,
    pub artist_name: String,
    pub release_date: String,
}

pub struct AlbumView {
    pub id: Seq<char>,
    pub title: Seq<char>,
    pub artist_id: Seq<char>,
    pub artist_name: Seq<char>,
    pub release_date: Seq<char>,
}

impl View for AlbumEntry {
    type V = AlbumView;

    open spec fn view(&self) -> AlbumView {
        AlbumView {
            id: self.id@,
            title: self.title@,
            artist_id: self.artist_id@,
            artist_name: self.artist_name@,
            release_date: self.release_date@,
        }
    }
}

/// The views of a list of albums.
pub open spec fn albums_view(v: Seq<AlbumEntry>) -> Seq<AlbumView> {
    v.map_values(|a: AlbumEntry| a@)
}

/// How much the listener likes an artist. Weights are kept in tenths, so that
/// the boosts of the taste profile (+1.0, +0.5, +0.3) are exact.
#[derive(Clone, Debug)]
pub struct ArtistWeight {
    pub name: String,
    /// Weight from the Qobuz favorites, in tenths.
    pub base_weight: u64,
    /// Adjustment from feedback in the current process, in tenths.
    pub session_delta: i64,
}

pub struct ArtistWeightView {
    pub name: Seq<char>,
    pub base_weight: u64,
    pub session_delta: i64,
}

impl View for ArtistWeight {
    type V = ArtistWeightView;

    open spec fn view(&self) -> ArtistWeightView {
        ArtistWeightView {
            name: self.name@,
            base_weight: self.base_weight,
            session_delta: self.session_delta,
        }
    }
}

/// One artist of the taste profile.
#[derive(Clone, Debug)]
pub struct ArtistEntry {
    pub id: ArtistId,
    pub weight: ArtistWeight,
}

impl ArtistEntry {
    /// A copy of this entry.
    pub fn clone_entry(&self) -> (r: ArtistEntry)
        ensures
            r.id@ == self.id@,
            r.weight@ == self.weight@,
    {
        ArtistEntry {
            id: self.id.clone(),
            weight: ArtistWeight {
                name: self.weight.name.clone(),
                base_weight: self.weight.base_weight,
                session_delta: self.weight.session_delta,
            },
        }
    }
}

/// No artist id occurs twice.
pub open spec fn unique_ids(v: Seq<ArtistEntry>) -> bool {
    forall|i: int, j: int| 0 <= i < j < v.len() ==> v[i].id@ != v[j].id@
}

/// The artists of a list of entries, as a map from id to weight.
pub open spec fn artist_map(v: Seq<ArtistEntry>) -> Map<Seq<char>, ArtistWeightView>
    decreases v.len(),
{
    if v.len() == 0 {
        Map::empty()
    } else {
        artist_map(v.drop_last()).insert(v.last().id@, v.last().weight@)
    }
}

pub proof fn lemma_artist_map(v: Seq<ArtistEntry>)
    requires
        unique_ids(v),
    ensures
        forall|k: Seq<char>| #[trigger]
            artist_map(v).contains_key(k) <==> exists|i: int| 0 <= i < v.len() && v[i].id@ == k,
        forall|i: int| 0 <= i < v.len() ==> #[trigger] artist_map(v)[v[i].id@] == v[i].weight@,
        artist_map(v).dom().finite(),
        artist_map(v).len() == v.len(),
    decreases v.len(),
{
    if v.len() > 0 {
        let p = v.drop_last();
        assert(unique_ids(p));
        lemma_artist_map(p);
        assert(!artist_map(p).contains_key(v.last().id@)) by {
            if artist_map(p).contains_key(v.last().id@) {
                let i = choose|i: int| 0 <= i < p.len() && p[i].id@ == v.last().id@;
                assert(v[i].id@ == v[v.len() - 1].id@);
            }
        }
        assert forall|k: Seq<char>| #[trigger]
            artist_map(v).contains_key(k) implies exists|i: int| 0 <= i < v.len() && v[i].id@ == k by {
            if k != v.last().id@ {
                let i = choose|i: int| 0 <= i < p.len() && p[i].id@ == k;
                assert(v[i].id@ == k);
            } else {
                assert(v[v.len() - 1].id@ == k);
            }
        }
        assert forall|i: int| 0 <= i < v.len() implies #[trigger] artist_map(v)[v[i].id@] == v[i].weight@ by {
            if i < v.len() - 1 {
                assert(p[i] == v[i]);
            }
        }
        assert forall|k: Seq<char>|
            (exists|i: int| 0 <= i < v.len() && v[i].id@ == k) implies #[trigger] artist_map(v).contains_key(k) by {
            let i = choose|i: int| 0 <= i < v.len() && v[i].id@ == k;
            if i < v.len() - 1 {
                assert(p[i].id@ == k);
            }
        }
    }
}

/// The listener's taste, derived from the Qobuz favorites.
pub struct TasteProfile {
    pub artists: Vec<ArtistEntry>,
    pub albums: Vec<AlbumEntry>,
    pub tracks: Vec<TrackMetadata>,
    pub last_full_refresh: std::time::Instant,
}

impl TasteProfile {
    /// Artist ids are unique.
    pub open spec fn well_formed(&self) -> bool {
        unique_ids(self.artists@)
    }

    /// The artists of the profile, by id.
    pub open spec fn artist_weights(&self) -> Map<Seq<char>, ArtistWeightView> {
        artist_map(self.artists@)
    }

    /// An empty profile.
    pub fn empty(now: std::time::Instant) -> (r: TasteProfile)
        ensures
            r.well_formed(),
            r.artists@.len() == 0,
            r.albums@.len() == 0,
            r.tracks@.len() == 0,
            r.last_full_refresh == now,
    {
        TasteProfile { artists: Vec::new(), albums: Vec::new(), tracks: Vec::new(), last_full_refresh: now }
    }

    /// Whether the profile is well formed: no artist id occurs twice.
    pub fn is_well_formed(&self) -> (r: bool)
        ensures
            r == self.well_formed(),
    {
        let n = self.artists.len();
        for j in 0..n
            invariant
                n == self.artists@.len(),
                forall|a: int, b: int| 0 <= a < b < j ==> self.artists@[a].id@ != self.artists@[b].id@,
        {
            for i in 0..j
                invariant
                    j < n,
                    n == self.artists@.len(),
                    forall|a: int, b: int| 0 <= a < b < j ==> self.artists@[a].id@ != self.artists@[b].id@,
                    forall|a: int| 0 <= a < i ==> self.artists@[a].id@ != self.artists@[j as int].id@,
            {
                if str_eq(self.artists[i].id.as_str(), self.artists[j].id.as_str()) {
                    return false;
                }
            }
        }
        true
    }

    /// Whether the profile knows no artist.
    pub fn has_no_artists(&self) -> (r: bool)
        ensures
            r == (self.artists@.len() == 0),
    {
        self.artists.len() == 0
    }
}

/// The Qobuz application credentials and the user's Qobuz session.
#[derive(Clone, Debug, Default)]
pub struct QobuzAuth {
    pub app_id: String,
    pub app_secret: String,
    pub private_key: String,
    pub user_auth_token: String,
    pub user_id: Option<String>,
    pub display_name: Option<String>,
    pub email: Option<String>,
    pub country_code: Option<String>,
    pub subscription: Option<String>,
    pub obtained_at: Option<std::time::Instant>,
}

impl QobuzAuth {
    /// Whether a user session is active.
    pub open spec fn is_authenticated(&self) -> bool {
        self.user_auth_token@.len() > 0
    }

    /// Credentials with no user session.
    pub fn with_credentials(app_id: String, private_key: String, app_secret: String) -> (r: QobuzAuth)
        ensures
            r.app_id@ == app_id@,
            r.private_key@ == private_key@,
            r.app_secret@ == app_secret@,
            r.user_auth_token@.len() == 0,
            r.user_id is None && r.display_name is None && r.email is None,
            r.country_code is None && r.subscription is None && r.obtained_at is None,
    {
        QobuzAuth {
            app_id,
            app_secret,
            private_key,
            user_auth_token: String::new(),
            user_id: None,
            display_name: None,
            email: None,
            country_code: None,
            subscription: None,
            obtained_at: None,
        }
    }

    /// Forgets the user session, keeping the application credentials.
    pub fn clear_session(&mut self)
        ensures
            final(self).app_id == old(self).app_id,
            final(self).app_secret == old(self).app_secret,
            final(self).private_key == old(self).private_key,
            final(self).user_auth_token@.len() == 0,
            final(self).user_id is None,
            final(self).display_name is None,
            final(self).email is None,
            final(self).country_code is None,
            final(self).subscription is None,
            final(self).obtained_at is None,
    {
        self.user_auth_token = String::new();
        self.user_id = None;
        self.display_name = None;
        self.email = None;
        self.country_code = None;
        self.subscription = None;
        self.obtained_at = None;
    }
}

/// A release of an artist, cached.
#[derive(Clone, Debug)]
pub struct Release {
    pub id: AlbumId,
    pub title: String,
    pub release_date: String,
    pub tracks: Vec<TrackMetadata>,
}

/// Releases of an artist, with the time they were fetched.
pub struct CachedReleases {
    pub releases: Vec<Release>,
    pub fetched_at: std::time::Instant,
}

/// Whether an elapsed time of `secs` seconds and `nanos` nanoseconds is
/// longer than `ttl_secs` seconds.
pub open spec fn exceeds(secs: u64, nanos: u32, ttl_secs: u64) -> bool {
    secs > ttl_secs || (secs == ttl_secs && nanos > 0)
}

/// Whether an elapsed time is strictly longer than a time-to-live.
pub fn ttl_exceeded(secs: u64, nanos: u32, ttl_secs: u64) -> (r: bool)
    ensures
        r == exceeds(secs, nanos, ttl_secs),
{
    secs > ttl_secs || (secs == ttl_secs && nanos > 0)
}

/// An entry that has outlived its time-to-live stays expired as more time
/// passes.
pub proof fn lemma_expiry_lasts(secs: u64, nanos: u32, later_secs: u64, later_nanos: u32, ttl_secs: u64)
    requires
        exceeds(secs, nanos, ttl_secs),
        secs < later_secs || (secs == later_secs && nanos <= later_nanos),
    ensures
        exceeds(later_secs, later_nanos, ttl_secs),
{
}

/// Time-to-live of cached releases: one day.
pub const RELEASES_TTL_SECS: u64 = 86400;

/// Time-to-live of cached similar artists: one week.
pub const SIMILAR_TTL_SECS: u64 = 604800;

impl CachedReleases {
    /// Whether these releases were fetched more than a day ago: the time
    /// elapsed since they were fetched (read from the clock) is compared with
    /// the one-day time-to-live.
    pub fn is_expired(&self) -> (r: bool)
        ensures
            exists|secs: u64, nanos: u32| nanos < 1_000_000_000 && r == exceeds(secs, nanos, RELEASES_TTL_SECS),
    {
        let (secs, nanos) = elapsed_parts(&self.fetched_at);
        let r = ttl_exceeded(secs, nanos, RELEASES_TTL_SECS);
        assert(nanos < 1_000_000_000 && r == exceeds(secs, nanos, RELEASES_TTL_SECS));
        r
    }
}

/// A live radio session.
pub struct RadioSession {
    pub id: SessionId,
    pub theme_input: String,
    pub theme_tags: Vec<String>,
    pub queue: std::collections::VecDeque<QueuedTrack>,
    pub history: Vec<PlayedTrack>,
    pub target: PlaybackTarget,
    pub started_at: std::time::Instant,
}

} // verus!
