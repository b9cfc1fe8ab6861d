use opensuperwhisper::recording::{
    capture_conversion, recording_file_name, CaptureConversion, DeviceSampleFormat,
    RecordingSession,
};

#[test]
fn new_session_is_idle() {
    let s: RecordingSession<u8, u64> = RecordingSession::new();
    assert!(!s.is_recording());
    assert_eq!(s.check_can_start(), Ok(()));
}

#[test]
fn cannot_start_twice() {
    let mut s: RecordingSession<u8, u64> = RecordingSession::new();
    s.begin(1, 100);
    assert!(s.is_recording());
    assert_eq!(
        s.check_can_start(),
        Err("Recording is already in progress".to_string())
    );
}

#[test]
fn finish_gives_start_time() {
    let mut s: RecordingSession<u8, u64> = RecordingSession::new();
    s.begin(1, 100);
    assert_eq!(s.finish(), Ok(Some(100)));
    assert!(!s.is_recording());
    assert_eq!(s.finish(), Ok(None));
}

#[test]
fn finish_when_idle_gives_nothing() {
    let mut s: RecordingSession<u8, u64> = RecordingSession::new();
    assert_eq!(s.finish(), Ok(None));
}

#[test]
fn cancel_stops_recording() {
    let mut s: RecordingSession<u8, u64> = RecordingSession::new();
    s.begin(1, 100);
    s.cancel();
    assert!(!s.is_recording());
    assert_eq!(s.finish(), Ok(None));
    assert_eq!(s.check_can_start(), Ok(()));
}

#[test]
fn file_name_from_timestamp() {
    assert_eq!(recording_file_name(1725029869), "1725029869.wav");
    assert_eq!(recording_file_name(0), "0.wav");
    assert_eq!(recording_file_name(-5), "-5.wav");
}

#[test]
fn capture_formats() {
    assert_eq!(capture_conversion(DeviceSampleFormat::F32), Ok(CaptureConversion::AsIs));
    assert_eq!(capture_conversion(DeviceSampleFormat::I16), Ok(CaptureConversion::FromI16));
    assert_eq!(capture_conversion(DeviceSampleFormat::U16), Ok(CaptureConversion::FromU16));
    assert_eq!(
        capture_conversion(DeviceSampleFormat::Other),
        Err("Unsupported audio format".to_string())
    );
}

#[test]
fn restart_after_finish() {
    let mut s: RecordingSession<u8, u64> = RecordingSession::new();
    s.begin(1, 5);
    assert_eq!(s.finish(), Ok(Some(5)));
    assert_eq!(s.check_can_start(), Ok(()));
    s.begin(2, 9);
    assert_eq!(s.finish(), Ok(Some(9)));
}
