//! Request and response types shared by the services.

pub mod analysis;
pub mod backup;
pub mod lyrics;
pub mod project;
pub mod releases;
pub mod settings;
