//! User preferences and where they are kept.

use vstd::prelude::*;
use std::path::PathBuf;
use crate::paths::{join_path, joined_path};

verus! {

/// The user's preferences.
#[derive(Clone, Debug)]
pub struct Settings {
    /// The speech engine; `whisper`.
    pub selected_engine: String,
    /// The model file, absolute or relative to the models directory.
    pub selected_model_path: String,
    /// The microphone to record from; the system default when `None`.
    pub selected_microphone: Option<String>,
    /// The spoken language (`auto`, `en`, `zh`, ...).
    pub selected_language: String,
    /// Whether CJK spacing (autocorrect) is applied to transcripts.
    pub cjk_spacing: bool,
    /// Whether start and stop beeps are played.
    pub play_sounds: bool,
    /// Whether the transcript is pasted into the focused window.
    pub auto_paste: bool,
    /// Whether the application starts at login.
    pub launch_at_login: bool,
    /// The keyboard shortcut that toggles recording.
    pub global_shortcut: String,
    /// Whether the shortcut records only while held.
    pub hold_to_record: bool,
}

/// The preferences of a fresh installation.
pub open spec fn is_default_settings(s: Settings) -> bool {
    &&& s.selected_engine@ == "whisper"@
    &&& s.selected_model_path@ == Seq::<char>::empty()
    &&& s.selected_microphone is None
    &&& s.selected_language@ == "auto"@
    &&& s.cjk_spacing
    &&& s.play_sounds
    &&& s.auto_paste
    &&& !s.launch_at_login
    &&& s.global_shortcut@ == "F9"@
    &&& !s.hold_to_record
}

impl Default for Settings {
    fn default() -> (r: Self)
        ensures
            is_default_settings(r),
    {
        Settings {
            selected_engine: String::from_str("whisper"),
            selected_model_path: String::new(),
            selected_microphone: None,
            selected_language: String::from_str("auto"),
            cjk_spacing: true,
            play_sounds: true,
            auto_paste: true,
            launch_at_login: false,
            global_shortcut: String::from_str("F9"),
            hold_to_record: false,
        }
    }
}

/// The preferences in effect: those stored, or the defaults when none could
/// be read (no file, an unreadable file, or contents that do not parse).
pub fn settings_or_default(stored: Option<Settings>) -> (r: Settings)
    ensures
        match stored {
            Some(s) => r == s,
            None => is_default_settings(r),
        },
{
    match stored {
        Some(s) => s,
        None => Settings::default(),
    }
}

/// Keeps the preferences file in the application's data directory.
pub struct ConfigManager {
    config_dir: PathBuf,
}

impl ConfigManager {
    /// The directory the preferences file is kept in.
    pub closed spec fn dir(&self) -> PathBuf {
        self.config_dir
    }

    /// A manager for the preferences kept in `app_data_dir`.
    pub fn new(app_data_dir: PathBuf) -> (r: Self)
        ensures
            r.dir() == app_data_dir,
    {
        ConfigManager { config_dir: app_data_dir }
    }

    /// The directory the preferences file is kept in.
    pub fn config_dir(&self) -> (r: &PathBuf)
        ensures
            *r == self.dir(),
    {
        &self.config_dir
    }

    /// The preferences file: `settings.json` in the directory.
    pub fn config_path(&self) -> (r: PathBuf)
        ensures
            r == joined_path(self.dir(), "settings.json"@),
    {
        join_path(&self.config_dir, "settings.json")
    }
}

} // verus!
