//! Where the settings file lives, and the errors of reading and writing it.
use vstd::prelude::*;

use crate::paths::{join, path_join};

verus! {

/// Name of the settings file in the app data directory.
pub open spec fn settings_file_name() -> Seq<char> {
    "settings.json"@
}

/// Location of the persistent settings (a JSON file).
#[derive(Debug)]
pub struct SettingsStore {
    path: String,
}

impl SettingsStore {
    /// The path of the settings file.
    pub closed spec fn file_path(&self) -> Seq<char> {
        self.path@
    }

    /// The store for the app data directory `app_data_dir`: its
    /// `settings.json`.
    pub fn new(app_data_dir: &str) -> (r: Self)
        ensures
            r.file_path() == path_join(app_data_dir@, settings_file_name()),
    {
        SettingsStore { path: join(app_data_dir, "settings.json") }
    }

    /// The settings file path (useful for diagnostics).
    pub fn path(&self) -> (r: &String)
        ensures
            r@ == self.file_path(),
    {
        &self.path
    }
}

/// Errors of loading or saving settings.
#[derive(Debug)]
pub enum SettingsError {
    Io(String),
    Parse(String),
    Serialize(String),
}

/// The text of a settings error.
pub open spec fn settings_error_text(e: SettingsError) -> Seq<char> {
    match e {
        SettingsError::Io(m) => "IO error: "@ + m@,
        SettingsError::Parse(m) => "Parse error: "@ + m@,
        SettingsError::Serialize(m) => "Serialize error: "@ + m@,
    }
}

impl SettingsError {
    /// The error's text: `IO error: …`, `Parse error: …` or
    /// `Serialize error: …`.
    pub fn message(&self) -> (r: String)
        ensures
            r@ == settings_error_text(*self),
    {
        let (prefix, m) = match self {
            SettingsError::Io(m) => ("IO error: ", m),
            SettingsError::Parse(m) => ("Parse error: ", m),
            SettingsError::Serialize(m) => ("Serialize error: ", m),
        };
        let mut s = String::from_str(prefix);
        s.append(m.as_str());
        s
    }
}

} // verus!
