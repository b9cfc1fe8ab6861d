use std::path::PathBuf;
use opensuperwhisper::catalogue::{
    has_model_extension, require_model, resolve_model_path, select_model_files, str_lex_le,
};

#[test]
fn model_extension_is_bin() {
    assert!(has_model_extension("ggml-base.en.bin"));
    assert!(has_model_extension("a.bin"));
    assert!(!has_model_extension(".bin"));
    assert!(!has_model_extension("bin"));
    assert!(!has_model_extension("model.bin.part"));
    assert!(!has_model_extension("model.BIN"));
    assert!(!has_model_extension(".."));
    assert!(!has_model_extension(""));
}

#[test]
fn model_extension_agrees_with_path_extension() {
    for name in ["x.bin", ".bin", "..bin", "a..bin", "a.b.bin", "bin", "x.binx", "é.bin"] {
        let std_says = std::path::Path::new(name)
            .extension()
            .map(|e| e == "bin")
            .unwrap_or(false);
        assert_eq!(has_model_extension(name), std_says, "{}", name);
    }
}

#[test]
fn string_order_matches_std() {
    let words = ["", "a", "ab", "b", "B", "é", "z", "ggml-tiny.bin", "ggml-base.bin"];
    for a in words {
        for b in words {
            assert_eq!(str_lex_le(a, b), a <= b, "{} {}", a, b);
        }
    }
}

#[test]
fn model_files_are_filtered_and_sorted() {
    let entries = vec![
        Some("ggml-tiny.bin".to_string()),
        Some("notes.txt".to_string()),
        None,
        Some("ggml-base.bin".to_string()),
        Some(".bin".to_string()),
        Some("ggml-large-v3.bin".to_string()),
    ];
    assert_eq!(
        select_model_files(&entries),
        vec!["ggml-base.bin", "ggml-large-v3.bin", "ggml-tiny.bin"]
    );
}

#[test]
fn model_files_of_empty_directory() {
    assert!(select_model_files(&vec![]).is_empty());
}

#[test]
fn model_files_keep_duplicates() {
    let entries = vec![Some("b.bin".to_string()), Some("a.bin".to_string()), Some("b.bin".to_string())];
    assert_eq!(select_model_files(&entries), vec!["a.bin", "b.bin", "b.bin"]);
}

#[test]
fn resolve_empty_model_path() {
    assert_eq!(resolve_model_path("", Some(PathBuf::from("/data"))), "");
    assert_eq!(resolve_model_path("", None), "");
}

#[test]
fn resolve_absolute_model_path() {
    assert_eq!(resolve_model_path("/opt/m.bin", Some(PathBuf::from("/data"))), "/opt/m.bin");
}

#[test]
fn resolve_relative_model_path() {
    assert_eq!(
        resolve_model_path("m.bin", Some(PathBuf::from("/data"))),
        "/data/models/m.bin"
    );
    assert_eq!(resolve_model_path("m.bin", None), "m.bin");
}

#[test]
fn model_is_required() {
    assert_eq!(
        require_model(String::new()),
        Err("No Whisper model is selected. Please select a model in settings first.".to_string())
    );
    assert_eq!(require_model("m.bin".to_string()), Ok("m.bin".to_string()));
}
