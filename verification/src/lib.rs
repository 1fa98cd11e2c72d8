pub mod bindings;
pub mod config;
pub mod engine;
pub mod errors;
pub mod json;
pub mod middleware;
pub mod providers;
pub mod routes;
pub mod state;
pub mod text;
