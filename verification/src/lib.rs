//! A client-side engine for a word-guessing game played over a
//! line-delimited JSON protocol: guess selection from per-letter feedback,
//! the wire message codec, and the session state machine.

pub mod cmdline;
pub mod error;
pub mod matcher;
pub mod player;
pub mod remote;
pub mod session;
pub mod text;
pub mod wire;
