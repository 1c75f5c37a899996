//! Prism: clip-based screen recording — the verified core.
pub mod audio;
pub mod auth;
pub mod avcc;
pub mod buffer;
pub mod capture;
pub mod clock;
pub mod commands;
pub mod encoder;
pub mod games;
pub mod hotkey;
pub mod image_codec;
pub mod notification;
pub mod paths;
pub mod recording;
pub mod settings;
pub mod text;
pub mod upload;
