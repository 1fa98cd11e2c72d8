//! Configuration sections that the library reads. Reading the configuration
//! file and the environment is the application's business.
use vstd::prelude::*;

use crate::text::{concat3, decimal, u64_to_string};

verus! {

/// Where the server listens and how it is reached from outside.
#[derive(Clone, Debug)]
pub struct ServerConfig {
    pub host: String,
    pub port: u16,
    pub public_base_url: String,
}

impl ServerConfig {
    /// The `host:port` text of the address the server listens on.
    pub fn address_text(&self) -> (r: String)
        ensures
            r@ == self.host@ + ":"@ + decimal(self.port as nat),
    {
        let digits = u64_to_string(self.port as u64);
        concat3(self.host.as_str(), ":", digits.as_str())
    }
}

/// Qobuz settings, with credentials to fall back on when scraping fails.
#[derive(Clone, Debug)]
pub struct QobuzConfig {
    pub preferred_format_id: u32,
    pub fallback_app_id: String,
    pub fallback_private_key: String,
    pub fallback_app_secret: String,
}

/// Last.fm settings.
#[derive(Clone, Debug)]
pub struct LastfmConfig {
    pub api_key: String,
}

/// Which AI provider ranks candidates, and with which model.
#[derive(Clone, Debug)]
pub struct AiConfig {
    pub provider: String,
    pub model: String,
}

/// The WiiM streamer.
#[derive(Clone, Debug)]
pub struct WiimConfig {
    pub ip: Option<String>,
    pub poll_interval_seconds: u64,
}

} // verus!
