//! Dictation at the cursor: everything that is decided between a key going down and text being
//! typed.

pub mod audio;
pub mod auth;
pub mod codex;
pub mod config;
pub mod dictate;
pub mod encoding;
pub mod error;
pub mod g711;
pub mod json;
pub mod jsonrpc;
pub mod keystate;
pub mod lifecycle;
pub mod pcm;
pub mod realtime;
pub mod text;
pub mod winkeys;
