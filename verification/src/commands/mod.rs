//! Logic behind the application's commands.
pub mod library;
pub mod recording;
pub mod uploads;
