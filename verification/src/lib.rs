//! Host protocol and sampling rules of a native wallpaper companion.

pub mod adapter;
pub mod chunk;
pub mod control;
pub mod counter;
pub mod engine;
pub mod error;
pub mod json;
pub mod laws;
pub mod record;
pub mod sampler;
pub mod session;
pub mod stream;
pub mod text;
