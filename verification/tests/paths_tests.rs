use opensuperwhisper::paths::{model_file, models_dir, recordings_dir};
use opensuperwhisper::recording::recording_path;
use std::path::PathBuf;

#[test]
fn data_directory_layout() {
    let dir = PathBuf::from("/data/app");
    assert_eq!(models_dir(&dir), PathBuf::from("/data/app/models"));
    assert_eq!(recordings_dir(&dir), PathBuf::from("/data/app/recordings"));
    assert_eq!(
        model_file(&dir, "ggml-base.bin"),
        PathBuf::from("/data/app/models/ggml-base.bin")
    );
}

#[test]
fn recording_file_path() {
    let dir = PathBuf::from("/data/app/recordings");
    assert_eq!(
        recording_path(&dir, 1725029869),
        PathBuf::from("/data/app/recordings/1725029869.wav")
    );
}
