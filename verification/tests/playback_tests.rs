use opensuperwhisper::playback::{fill_output, playback_decoder, repeat_each};
use opensuperwhisper::transcript::{SampleDecoder, SampleFormat};

#[test]
fn samples_repeated_per_channel() {
    assert_eq!(repeat_each(&vec![1, 2, 3], 2), vec![1, 1, 2, 2, 3, 3]);
    assert_eq!(repeat_each(&vec![0.5f32, -0.5], 3), vec![0.5, 0.5, 0.5, -0.5, -0.5, -0.5]);
    assert_eq!(repeat_each(&vec![7], 1), vec![7]);
    assert!(repeat_each(&Vec::<i32>::new(), 2).is_empty());
    assert!(repeat_each(&vec![1, 2], 0).is_empty());
}

#[test]
fn output_filled_then_silent() {
    let samples = vec![1, 2, 3, 4, 5];
    let mut out = [9; 3];
    let next = fill_output(&mut out, &samples, 0, 0);
    assert_eq!(out, [1, 2, 3]);
    assert_eq!(next, 3);
    let next = fill_output(&mut out, &samples, next, 0);
    assert_eq!(out, [4, 5, 0]);
    assert_eq!(next, 5);
    let next = fill_output(&mut out, &samples, next, 0);
    assert_eq!(out, [0, 0, 0]);
    assert_eq!(next, 5);
}

#[test]
fn empty_output_buffer_keeps_position() {
    let samples = vec![1.0f32, 2.0];
    let mut out: [f32; 0] = [];
    assert_eq!(fill_output(&mut out, &samples, 1, 0.0), 1);
}

#[test]
fn playable_files() {
    assert_eq!(playback_decoder(SampleFormat::Int, 16), Some(SampleDecoder::Int16));
    assert_eq!(playback_decoder(SampleFormat::Float, 32), Some(SampleDecoder::Float32));
    assert_eq!(playback_decoder(SampleFormat::Int, 8), None);
    assert_eq!(playback_decoder(SampleFormat::Int, 32), None);
}
