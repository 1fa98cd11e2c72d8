pub mod ai;
pub mod lastfm;
pub mod linkplay;
pub mod qobuz;
