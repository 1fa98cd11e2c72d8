//! The LinkPlay HTTP API of WiiM players: command strings, request addresses
//! and the reading of the player status. Sending the requests is left to the
//! caller.
use vstd::prelude::*;

use crate::bindings::{percent_encoded, url_encode};
use crate::errors::AppError;
use crate::text::{
    chars_of, concat2, concat3, decimal, first_index_of, parse_unsigned, parse_unsigned_str,
    slice_string, split_on, split_str, str_eq, trim, trim_str, u64_to_string, find_first,
};
use vstd::string::StringSliceAdditionalSpecFns;
use vstd::utf8::encode_utf8;

verus! {

/// Where the LinkPlay commands of one player are sent.
#[derive(Clone, Debug)]
pub struct LinkplayClient {
    pub base_url: Option<String>,
    pub poll_interval_secs: u64,
}

/// The HTTP API address of a player at `ip`.
pub open spec fn api_base_of(ip: Seq<char>) -> Seq<char> {
    "http://"@ + ip + "/httpapi.asp"@
}

/// The message of every request made before a player address is known.
pub open spec fn not_configured_message() -> Seq<char> {
    "WiiM IP not configured"@
}

/// The address that sends `command` to the player behind `base`.
pub open spec fn command_url_of(base: Seq<char>, command: Seq<char>) -> Seq<char> {
    base + "?command="@ + percent_encoded(encode_utf8(command))
}

/// The HTTP API address of a player at `ip`.
pub fn api_base(ip: &str) -> (r: String)
    ensures
        r@ == api_base_of(ip@),
{
    concat3("http://", ip, "/httpapi.asp")
}

impl LinkplayClient {
    /// A client for the player at `ip`, if one is given.
    pub fn new(ip: Option<String>, poll_interval_secs: u64) -> (r: LinkplayClient)
        ensures
            r.poll_interval_secs == poll_interval_secs,
            match ip {
                Some(a) => r.base_url matches Some(b) && b@ == api_base_of(a@),
                None => r.base_url is None,
            },
    {
        let base_url = match ip {
            Some(a) => Some(api_base(a.as_str())),
            None => None,
        };
        LinkplayClient { base_url, poll_interval_secs }
    }

    /// Points the client at the player at `ip`.
    pub fn set_ip(&mut self, ip: &str)
        ensures
            final(self).base_url matches Some(b) && b@ == api_base_of(ip@),
            final(self).poll_interval_secs == old(self).poll_interval_secs,
    {
        self.base_url = Some(api_base(ip));
    }

    /// The address that sends `command`, or the error of an unconfigured
    /// player.
    pub fn command_url(&self, command: &str) -> (r: Result<String, AppError>)
        ensures
            match self.base_url {
                Some(b) => r matches Ok(u) && u@ == command_url_of(b@, command@),
                None => r matches Err(AppError::LinkPlay(m)) && m@ == not_configured_message(),
            },
    {
        match &self.base_url {
            Some(b) => {
                let encoded = url_encode(command);
                Ok(concat3(b.as_str(), "?command=", encoded.as_str()))
            },
            None => Err(AppError::LinkPlay("WiiM IP not configured".to_owned())),
        }
    }

    /// The request that makes the player play the stream at `url`.
    pub fn play_url(&self, url: &str) -> (r: Result<String, AppError>)
        ensures
            match self.base_url {
                Some(b) => r matches Ok(u) && u@ == command_url_of(b@, "setPlayerCmd:play:"@ + url@),
                None => r matches Err(AppError::LinkPlay(m)) && m@ == not_configured_message(),
            },
    {
        let command = concat2("setPlayerCmd:play:", url);
        self.command_url(command.as_str())
    }

    /// The request that pauses the player.
    pub fn pause(&self) -> (r: Result<String, AppError>)
        ensures
            match self.base_url {
                Some(b) => r matches Ok(u) && u@ == command_url_of(b@, "setPlayerCmd:pause"@),
                None => r matches Err(AppError::LinkPlay(m)) && m@ == not_configured_message(),
            },
    {
        self.command_url("setPlayerCmd:pause")
    }

    /// The request that resumes playback.
    pub fn resume(&self) -> (r: Result<String, AppError>)
        ensures
            match self.base_url {
                Some(b) => r matches Ok(u) && u@ == command_url_of(b@, "setPlayerCmd:resume"@),
                None => r matches Err(AppError::LinkPlay(m)) && m@ == not_configured_message(),
            },
    {
        self.command_url("setPlayerCmd:resume")
    }

    /// The request that stops playback.
    pub fn stop(&self) -> (r: Result<String, AppError>)
        ensures
            match self.base_url {
                Some(b) => r matches Ok(u) && u@ == command_url_of(b@, "setPlayerCmd:stop"@),
                None => r matches Err(AppError::LinkPlay(m)) && m@ == not_configured_message(),
            },
    {
        self.command_url("setPlayerCmd:stop")
    }

    /// The request that skips to the next track.
    pub fn next(&self) -> (r: Result<String, AppError>)
        ensures
            match self.base_url {
                Some(b) => r matches Ok(u) && u@ == command_url_of(b@, "setPlayerCmd:next"@),
                None => r matches Err(AppError::LinkPlay(m)) && m@ == not_configured_message(),
            },
    {
        self.command_url("setPlayerCmd:next")
    }

    /// The request that goes back to the previous track.
    pub fn prev(&self) -> (r: Result<String, AppError>)
        ensures
            match self.base_url {
                Some(b) => r matches Ok(u) && u@ == command_url_of(b@, "setPlayerCmd:prev"@),
                None => r matches Err(AppError::LinkPlay(m)) && m@ == not_configured_message(),
            },
    {
        self.command_url("setPlayerCmd:prev")
    }

    /// The request that sets the volume; volumes above 100 are sent as 100.
    pub fn set_volume(&self, vol: u8) -> (r: Result<String, AppError>)
        ensures
            match self.base_url {
                Some(b) => r matches Ok(u) && u@ == command_url_of(
                    b@,
                    "setPlayerCmd:vol:"@ + decimal(if vol < 100 { vol as nat } else { 100 }),
                ),
                None => r matches Err(AppError::LinkPlay(m)) && m@ == not_configured_message(),
            },
    {
        let v: u64 = if vol < 100 {
            vol as u64
        } else {
            100
        };
        let digits = u64_to_string(v);
        let command = concat2("setPlayerCmd:vol:", digits.as_str());
        self.command_url(command.as_str())
    }

    /// The request that asks for the player status.
    pub fn get_player_status(&self) -> (r: Result<String, AppError>)
        ensures
            match self.base_url {
                Some(b) => r matches Ok(u) && u@ == b@ + "?command=getPlayerStatus"@,
                None => r matches Err(AppError::LinkPlay(m)) && m@ == not_configured_message(),
            },
    {
        match &self.base_url {
            Some(b) => Ok(concat2(b.as_str(), "?command=getPlayerStatus")),
            None => Err(AppError::LinkPlay("WiiM IP not configured".to_owned())),
        }
    }
}

impl Default for LinkplayClient {
    fn default() -> (r: LinkplayClient)
        ensures
            r.base_url is None,
            r.poll_interval_secs == 5,
    {
        LinkplayClient::new(None, 5)
    }
}

/// What the player reports of its playback.
#[derive(Clone, Debug)]
pub struct PlayerStatus {
    pub state: String,
    pub position_ms: u64,
    pub offset_ms: u64,
}

pub struct PlayerStatusView {
    pub state: Seq<char>,
    pub position_ms: u64,
    pub offset_ms: u64,
}

impl View for PlayerStatus {
    type V = PlayerStatusView;

    open spec fn view(&self) -> PlayerStatusView {
        PlayerStatusView { state: self.state@, position_ms: self.position_ms, offset_ms: self.offset_ms }
    }
}

impl Default for PlayerStatus {
    fn default() -> (r: PlayerStatus)
        ensures
            r@ == empty_status(),
    {
        PlayerStatus { state: String::new(), position_ms: 0, offset_ms: 0 }
    }
}

/// The status before anything was read.
pub open spec fn empty_status() -> PlayerStatusView {
    PlayerStatusView { state: Seq::empty(), position_ms: 0, offset_ms: 0 }
}

/// A number of the status text, or 0 where it does not read as one.
pub open spec fn number_or_zero(s: Seq<char>) -> u64 {
    match parse_unsigned(s, u64::MAX as nat) {
        Some(v) => v as u64,
        None => 0,
    }
}

/// The status after reading one `key:value` part; a part without `:` and an
/// unknown key change nothing.
pub open spec fn read_status_part(st: PlayerStatusView, part: Seq<char>) -> PlayerStatusView {
    match first_index_of(part, ':') {
        None => st,
        Some(k) => {
            let key = trim(part.take(k));
            let value = trim(part.skip(k + 1));
            if key == "status"@ {
                PlayerStatusView { state: value, position_ms: st.position_ms, offset_ms: st.offset_ms }
            } else if key == "curpos"@ {
                PlayerStatusView { state: st.state, position_ms: number_or_zero(value), offset_ms: st.offset_ms }
            } else if key == "offset_pts"@ {
                PlayerStatusView { state: st.state, position_ms: st.position_ms, offset_ms: number_or_zero(value) }
            } else {
                st
            }
        },
    }
}

/// The status read from a list of parts, left to right.
pub open spec fn status_of_parts(parts: Seq<Seq<char>>) -> PlayerStatusView
    decreases parts.len(),
{
    if parts.len() == 0 {
        empty_status()
    } else {
        read_status_part(status_of_parts(parts.drop_last()), parts.last())
    }
}

/// The status that a player's `getPlayerStatus` answer reports: the text is
/// split on `;` and each part read in turn.
pub open spec fn player_status_of(text: Seq<char>) -> PlayerStatusView {
    status_of_parts(split_on(text, ';'))
}

/// Reads one `key:value` part into `st`.
fn read_part(st: &mut PlayerStatus, part: &str)
    ensures
        final(st)@ == read_status_part(old(st)@, part@),
{
    let v = chars_of(part);
    match find_first(v.as_slice(), ':') {
        None => {},
        Some(k) => {
            let n = v.len();
            assert(k < n);
            let key_raw = slice_string(v.as_slice(), 0, k);
            let value_raw = slice_string(v.as_slice(), k + 1, n);
            assert(part@.take(k as int) == v@.subrange(0, k as int));
            assert(part@.skip(k + 1) == v@.subrange(k + 1, v@.len() as int));
            let key = trim_str(key_raw.as_str());
            let value = trim_str(value_raw.as_str());
            if str_eq(key.as_str(), "status") {
                st.state = value;
            } else if str_eq(key.as_str(), "curpos") {
                st.position_ms = match parse_unsigned_str(value.as_str(), u64::MAX) {
                    Some(n) => n,
                    None => 0,
                };
            } else if str_eq(key.as_str(), "offset_pts") {
                st.offset_ms = match parse_unsigned_str(value.as_str(), u64::MAX) {
                    Some(n) => n,
                    None => 0,
                };
            }
        },
    }
}

/// Reads the answer of a `getPlayerStatus` request.
pub fn parse_player_status(text: &str) -> (r: PlayerStatus)
    ensures
        r@ == player_status_of(text@),
{
    let parts = split_str(text, ';');
    let ghost views = parts@.map_values(|p: String| p@);
    let mut st = PlayerStatus::default();
    assert(views.take(0) == Seq::<Seq<char>>::empty());
    for i in 0..parts.len()
        invariant
            views == parts@.map_values(|p: String| p@),
            st@ == status_of_parts(views.take(i as int)),
    {
        read_part(&mut st, parts[i].as_str());
        assert(views.take(i + 1).drop_last() == views.take(i as int));
        assert(views.take(i + 1).last() == parts@[i as int]@);
    }
    assert(views.take(parts.len() as int) == views);
    st
}

} // verus!
