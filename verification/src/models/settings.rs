//! Application settings.

use vstd::prelude::*;

verus! {

/// The user's settings; every field has a default.
#[derive(Debug, Clone)]
pub struct Settings {
    pub theme: String,
    pub default_backup_count: i32,
    pub projects_directory: Option<String>,
    pub analysis_enabled: bool,
    pub autosave_interval_seconds: u32,
}

/// The settings with their texts as characters.
pub struct SettingsView {
    pub theme: Seq<char>,
    pub default_backup_count: i32,
    pub projects_directory: Option<Seq<char>>,
    pub analysis_enabled: bool,
    pub autosave_interval_seconds: u32,
}

impl View for Settings {
    type V = SettingsView;

    open spec fn view(&self) -> SettingsView {
        SettingsView {
            theme: self.theme@,
            default_backup_count: self.default_backup_count,
            projects_directory: match self.projects_directory {
                Some(p) => Some(p@),
                None => None,
            },
            analysis_enabled: self.analysis_enabled,
            autosave_interval_seconds: self.autosave_interval_seconds,
        }
    }
}

/// The settings a fresh installation starts with: dark theme, five backups
/// kept, no projects folder, analysis on, autosave every thirty seconds.
pub open spec fn default_settings() -> SettingsView {
    SettingsView {
        theme: "dark"@,
        default_backup_count: 5,
        projects_directory: None,
        analysis_enabled: true,
        autosave_interval_seconds: 30,
    }
}

impl Default for Settings {
    fn default() -> (r: Self)
        ensures
            r@ == default_settings(),
    {
        Settings {
            theme: String::from_str("dark"),
            default_backup_count: 5,
            projects_directory: None,
            analysis_enabled: true,
            autosave_interval_seconds: 30,
        }
    }
}

} // verus!
