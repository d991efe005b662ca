//! Verified core of a media-casting receiver: link resolution, playback
//! sessions and configuration.

pub mod cache;
pub mod classifier;
pub mod clock;
pub mod codec;
pub mod config;
pub mod custom;
pub mod deobfuscation;
pub mod doodstream;
pub mod json;
pub mod laws;
pub mod links;
pub mod manager;
pub mod markup;
pub mod media;
pub mod patterns;
pub mod provider;
pub mod resolver;
pub mod session;
pub mod socks;
pub mod state_machine;
pub mod text;
pub mod voe;
pub mod youtube;
pub mod ytdlp;
