//! Verified core of a playlist-to-audio-CD tool.

pub mod text;
pub mod ytdlp;
pub mod convert;
pub mod burn;
pub mod app;
pub mod ui;
pub mod laws;
pub mod list_laws;
pub mod key_laws;
pub mod msg_laws;
pub mod text_laws;
