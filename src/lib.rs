//! Decoding of RIFF-style instrument banks and the data structures that
//! carry decoded audio to a real-time output callback.

pub mod chunk;
pub mod schema;
pub mod document;
pub mod pool;
pub mod voices;
pub mod bridge;
pub mod playback;
