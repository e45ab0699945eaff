pub mod text;
pub mod json;
pub mod stamp;
pub mod template;
pub mod config;
pub mod events;
pub mod runtime;
pub mod peer;
