use opensuperwhisper::transcript::begin_transcription;
use opensuperwhisper::transcript::{
    finish_transcript, model_not_found_message, sample_decoder, str_eq, whisper_language,
    SampleDecoder, SampleFormat, Transcriber,
};

fn model_stage() -> opensuperwhisper::transcript::ModelStage {
    begin_transcription(SampleFormat::Int, 16)
        .ok()
        .unwrap()
        .decoded(1)
        .ok()
        .unwrap()
        .resampled(1)
        .ok()
        .unwrap()
}

#[test]
fn new_transcriber_caches_nothing() {
    let t: Transcriber<u32> = Transcriber::new();
    assert!(t.cached_context(&model_stage(), "model.bin").is_none());
}

#[test]
fn cached_model_is_reused_for_same_path_only() {
    let stage = model_stage();
    let mut t: Transcriber<u32> = Transcriber::new();
    t.store_context(&stage, "/m/base.bin", 7);
    assert_eq!(t.cached_context(&stage, "/m/base.bin"), Some(&7));
    assert_eq!(t.cached_context(&stage, "/m/tiny.bin"), None);
    t.store_context(&stage, "/m/tiny.bin", 9);
    assert_eq!(t.cached_context(&stage, "/m/tiny.bin"), Some(&9));
    assert_eq!(t.cached_context(&stage, "/m/base.bin"), None);
}

#[test]
fn language_auto_when_unset() {
    assert_eq!(whisper_language(""), "auto");
    assert_eq!(whisper_language("auto"), "auto");
    assert_eq!(whisper_language("ja"), "ja");
    assert_eq!(whisper_language("en"), "en");
}

#[test]
fn decoder_for_supported_formats() {
    assert_eq!(sample_decoder(SampleFormat::Int, 16), Ok(SampleDecoder::Int16));
    assert_eq!(sample_decoder(SampleFormat::Int, 8), Ok(SampleDecoder::Int8));
    assert_eq!(sample_decoder(SampleFormat::Int, 32), Ok(SampleDecoder::Int32));
    assert_eq!(sample_decoder(SampleFormat::Float, 32), Ok(SampleDecoder::Float32));
    assert_eq!(sample_decoder(SampleFormat::Float, 24), Ok(SampleDecoder::Float32));
}

#[test]
fn decoder_refuses_other_widths() {
    assert_eq!(
        sample_decoder(SampleFormat::Int, 24),
        Err("Unsupported bits per sample: 24".to_string())
    );
    assert_eq!(
        sample_decoder(SampleFormat::Int, 0),
        Err("Unsupported bits per sample: 0".to_string())
    );
}

#[test]
fn transcript_joins_and_trims() {
    let segments = vec![" Hello".to_string(), " world.".to_string(), "  ".to_string()];
    assert_eq!(finish_transcript(&segments, false), "Hello world.");
}

#[test]
fn transcript_of_no_segments_is_empty() {
    assert_eq!(finish_transcript(&vec![], false), "");
    assert_eq!(finish_transcript(&vec![], true), "");
}

#[test]
fn transcript_applies_cjk_spacing_when_asked() {
    let segments = vec![" 部署到heroku".to_string(), "有问题网页不能显示 ".to_string()];
    assert_eq!(finish_transcript(&segments, true), "部署到 heroku 有问题网页不能显示");
    assert_eq!(finish_transcript(&segments, false), "部署到heroku有问题网页不能显示");
}

#[test]
fn missing_model_message() {
    assert_eq!(
        model_not_found_message("/m/x.bin"),
        "Model file not found at: /m/x.bin"
    );
}

#[test]
fn string_equality() {
    assert!(str_eq("abc", "abc"));
    assert!(!str_eq("abc", "abd"));
    assert!(!str_eq("", "a"));
}

#[test]
fn cleaned_transcript_joins_and_trims() {
    let segments = vec!["\n Hi".to_string(), " there ".to_string()];
    assert_eq!(opensuperwhisper::transcript::clean_transcript(&segments), "Hi there");
}

#[test]
fn transcription_steps_refuse_empty_audio() {
    let step = begin_transcription(SampleFormat::Int, 16).ok().unwrap();
    assert_eq!(step.decoder(), SampleDecoder::Int16);
    assert_eq!(
        step.decoded(0).err(),
        Some("Audio file is empty".to_string())
    );
    let step = begin_transcription(SampleFormat::Float, 32).ok().unwrap();
    let step = step.decoded(100).ok().unwrap();
    assert_eq!(step.resampled(0).err(), Some("Audio file is empty".to_string()));
    let step = begin_transcription(SampleFormat::Int, 8).ok().unwrap();
    let stage = step.decoded(10).ok().unwrap().resampled(4).ok().unwrap();
    assert_eq!(stage.language(""), "auto");
    assert_eq!(stage.language("de"), "de");
}

#[test]
fn transcription_refuses_unsupported_width() {
    assert_eq!(
        begin_transcription(SampleFormat::Int, 24).err(),
        Some("Unsupported bits per sample: 24".to_string())
    );
}
