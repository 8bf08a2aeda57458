use base64::Engine as _;
use fastfileocr_core::i18n::{f, language_code, set_language, text};

#[test]
fn keys_without_arguments() {
    assert_eq!(text("noExport"), "@i18n(noExport,)");
}

#[test]
fn arguments_travel_as_base64_json() {
    let args = vec!["md".to_string(), "한글".to_string()];
    let message = f("exportExtension", &args);
    let encoded = message.strip_prefix("@i18n(exportExtension,").unwrap().strip_suffix(')').unwrap();
    let decoded = base64::engine::general_purpose::URL_SAFE_NO_PAD.decode(encoded).unwrap();
    let back: Vec<String> = serde_json::from_slice(&decoded).unwrap();
    assert_eq!(back, args);
}

#[test]
fn unknown_languages_fall_back_to_english() {
    let mut stored = 9u8;
    set_language(&mut stored, "ko");
    assert_eq!(stored, 1);
    set_language(&mut stored, "ja");
    assert_eq!(stored, 2);
    set_language(&mut stored, "de");
    assert_eq!(stored, 0);
    assert_eq!(language_code("en"), 0);
}

#[test]
fn arguments_are_url_safe_base64_without_padding() {
    assert_eq!(f("k", &["a".to_string()]), "@i18n(k,WyJhIl0)");
    assert_eq!(f("k", &["가?".to_string()]), "@i18n(k,WyLqsIA_Il0)");
}
