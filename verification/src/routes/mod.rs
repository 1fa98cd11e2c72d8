pub mod auth;
pub mod feedback;
pub mod playback;
pub mod radio;
