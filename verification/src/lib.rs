//! WavePilot's library: the rules behind the project manager, the backup
//! cleaner, the lyrics workspace, the release checklists, the settings and the
//! integer side of the audio analysis, together with the SQL statements that
//! the application runs against its SQLite store.

pub mod text;
pub mod db;
pub mod models;
pub mod paths;
pub mod sql;
pub mod utils;
pub mod services;
