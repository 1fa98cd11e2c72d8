pub mod pools;
pub mod profile;
pub mod ranker;
pub mod window;
