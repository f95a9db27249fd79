//! The services: what each operation of the application decides and which
//! statements it runs.

pub mod analysis;
pub mod backup;
pub mod lyrics;
pub mod preview;
pub mod project;
pub mod releases;
pub mod settings;
