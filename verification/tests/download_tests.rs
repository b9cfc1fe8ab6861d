use opensuperwhisper::downloads::{
    failure_report, model_download_url, ActiveDownloads, DownloadEvent, DownloadStatus,
    ModelDownload, Progress,
};

#[test]
fn url_of_model() {
    assert_eq!(
        model_download_url("ggml-base.bin"),
        "https://huggingface.co/ggerganov/whisper.cpp/resolve/main/ggml-base.bin"
    );
}

#[test]
fn status_names() {
    assert_eq!(DownloadStatus::Downloading.name(), "downloading");
    assert_eq!(DownloadStatus::Completed.name(), "completed");
    assert_eq!(DownloadStatus::Cancelled.name(), "cancelled");
    assert_eq!(DownloadStatus::Error.name(), "error");
}

#[test]
fn progress_counts_written_bytes() {
    let mut d = ModelDownload::new(Some(1000));
    let r = d.step(DownloadEvent::Written { len: 250 });
    assert_eq!(r.status, DownloadStatus::Downloading);
    assert_eq!(r.progress, Progress::Part { done: 250, total: 1000 });
    assert!(!r.finished && !r.remove_file && r.error.is_none());
    let r = d.step(DownloadEvent::Written { len: 750 });
    assert_eq!(r.progress, Progress::Part { done: 1000, total: 1000 });
    assert_eq!(d.downloaded_bytes(), 1000);
    let r = d.step(DownloadEvent::Finished);
    assert_eq!(r.status, DownloadStatus::Completed);
    assert_eq!(r.progress, Progress::Whole);
    assert!(r.finished && !r.remove_file);
}

#[test]
fn progress_without_known_size_is_zero() {
    let mut d = ModelDownload::new(None);
    let r = d.step(DownloadEvent::Written { len: 10 });
    assert_eq!(r.progress, Progress::Nothing);
    assert_eq!(d.downloaded_bytes(), 10);
}

#[test]
fn cancel_removes_partial_file() {
    let mut d = ModelDownload::new(Some(5));
    let r = d.step(DownloadEvent::Cancelled);
    assert_eq!(r.status, DownloadStatus::Cancelled);
    assert!(r.remove_file && r.finished);
    assert_eq!(r.progress, Progress::Nothing);
}

#[test]
fn receive_error_removes_file_but_write_error_does_not() {
    let mut d = ModelDownload::new(Some(5));
    let r = d.step(DownloadEvent::ReceiveFailed { message: "reset".to_string() });
    assert_eq!(r.status, DownloadStatus::Error);
    assert_eq!(r.error, Some("reset".to_string()));
    assert!(r.remove_file && r.finished);
    let mut d = ModelDownload::new(Some(5));
    let r = d.step(DownloadEvent::WriteFailed { message: "disk full".to_string() });
    assert_eq!(r.status, DownloadStatus::Error);
    assert_eq!(r.error, Some("disk full".to_string()));
    assert!(!r.remove_file && r.finished);
}

#[test]
fn early_failure_report() {
    let r = failure_report("dns".to_string());
    assert_eq!(r.status, DownloadStatus::Error);
    assert_eq!(r.progress, Progress::Nothing);
    assert_eq!(r.error, Some("dns".to_string()));
    assert!(r.finished && !r.remove_file);
}

#[test]
fn register_and_cancel() {
    let mut a: ActiveDownloads<u8> = ActiveDownloads::new();
    assert_eq!(a.insert("base.bin".to_string(), 1), None);
    assert_eq!(a.insert("tiny.bin".to_string(), 2), None);
    assert_eq!(a.remove("base.bin"), Some(1));
    assert_eq!(a.remove("base.bin"), None);
    assert_eq!(a.remove("tiny.bin"), Some(2));
    assert_eq!(a.remove("other.bin"), None);
}

#[test]
fn registering_again_replaces_handle() {
    let mut a: ActiveDownloads<u8> = ActiveDownloads::new();
    assert_eq!(a.insert("base.bin".to_string(), 1), None);
    assert_eq!(a.insert("base.bin".to_string(), 3), Some(1));
    assert_eq!(a.remove("base.bin"), Some(3));
    assert_eq!(a.remove("base.bin"), None);
}
