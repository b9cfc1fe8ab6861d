use opensuperwhisper::history::{audio_files_to_remove, collect_rows, DbManager};
use opensuperwhisper::settings::{settings_or_default, ConfigManager, Settings};
use opensuperwhisper::tray::{tray_command, TrayCommand};
use std::path::PathBuf;

#[test]
fn default_settings() {
    let s = Settings::default();
    assert_eq!(s.selected_engine, "whisper");
    assert_eq!(s.selected_model_path, "");
    assert_eq!(s.selected_microphone, None);
    assert_eq!(s.selected_language, "auto");
    assert!(s.cjk_spacing);
    assert!(s.play_sounds);
    assert!(s.auto_paste);
    assert!(!s.launch_at_login);
    assert_eq!(s.global_shortcut, "F9");
    assert!(!s.hold_to_record);
}

#[test]
fn stored_settings_win_over_defaults() {
    let mut stored = Settings::default();
    stored.selected_language = "ja".to_string();
    stored.auto_paste = false;
    let s = settings_or_default(Some(stored));
    assert_eq!(s.selected_language, "ja");
    assert!(!s.auto_paste);
    let d = settings_or_default(None);
    assert_eq!(d.selected_language, "auto");
    assert!(d.auto_paste);
}

#[test]
fn config_file_location() {
    let dir = PathBuf::from("/tmp/osw-data");
    let c = ConfigManager::new(dir.clone());
    assert_eq!(c.config_dir(), &dir);
    assert_eq!(c.config_path(), dir.join("settings.json"));
}

#[test]
fn database_location() {
    let dir = PathBuf::from("/tmp/osw-data");
    let db = DbManager::for_data_dir(&dir);
    assert_eq!(db.db_path(), &dir.join("history.db"));
}

#[test]
fn unreadable_rows_are_skipped() {
    let rows: Vec<Result<i64, String>> = vec![Ok(3), Err("bad".to_string()), Ok(1)];
    assert_eq!(collect_rows(rows), vec![3, 1]);
}

#[test]
fn audio_files_of_rows() {
    let rows: Vec<Result<Option<String>, String>> = vec![
        Ok(Some("/r/1.wav".to_string())),
        Ok(None),
        Err("bad".to_string()),
        Ok(Some("/r/2.wav".to_string())),
    ];
    assert_eq!(audio_files_to_remove(rows), vec!["/r/1.wav", "/r/2.wav"]);
}

#[test]
fn tray_commands() {
    assert_eq!(tray_command("show"), TrayCommand::ShowWindow);
    assert_eq!(tray_command("quit"), TrayCommand::Quit);
    assert_eq!(tray_command("other"), TrayCommand::Ignore);
    assert_eq!(tray_command(""), TrayCommand::Ignore);
}
