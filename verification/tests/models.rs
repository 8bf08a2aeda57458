use fastfileocr_core::models::{default_model, get};
use fastfileocr_core::store::{ModelOption, Settings};

#[test]
fn registry_settings_are_adapter_owned() {
    let mut settings = Settings::default();
    let adapter = get(&settings.model_id).unwrap();
    assert!(adapter.info().devices.iter().any(|d| d == "cuda"));
    settings.device = "cuda".into();
    assert!(adapter.validate(&settings).is_ok());
    settings.model_options.push(ModelOption { model_id: settings.model_id.clone(), max_tokens: Some(4096), values: "{\"maxTokens\":4096}".into() });
    assert_eq!(adapter.max_tokens(&settings), 4096);
    assert!(adapter.validate(&settings).is_ok());
    settings.model_options[0].max_tokens = Some(1);
    assert!(adapter.validate(&settings).is_err());
    assert!(get("missing").is_err());
}

#[test]
fn legacy_token_limit_is_the_fallback() {
    let mut settings = Settings::default();
    settings.max_tokens = 2048;
    let adapter = get(&default_model()).unwrap();
    assert_eq!(adapter.max_tokens(&settings), 2048);
    settings.model_options.push(ModelOption { model_id: "other".into(), max_tokens: Some(4096), values: "{\"maxTokens\":4096}".into() });
    assert_eq!(adapter.max_tokens(&settings), 2048);
    settings.model_options.push(ModelOption { model_id: "paddleocr-vl-1.6".into(), max_tokens: None, values: "{}".into() });
    assert_eq!(adapter.max_tokens(&settings), 2048);
    settings.model_options[1].max_tokens = Some(u64::MAX);
    assert_eq!(adapter.max_tokens(&settings), u32::MAX);
}

#[test]
fn regions_are_read_in_the_mode_of_their_kind() {
    let adapter = get("paddleocr-vl-1.6").unwrap();
    assert_eq!(adapter.region_mode("document", "table"), "table");
    assert_eq!(adapter.region_mode("document", "formula"), "formula");
    assert_eq!(adapter.region_mode("document", "doc_title"), "text");
    assert_eq!(adapter.region_mode("comic", "table"), "comic");
}

#[test]
fn runtime_files_and_prompts_come_from_the_adapter() {
    let adapter = get("paddleocr-vl-1.6").unwrap();
    let model = adapter.runtime("/app", "/models");
    assert_eq!(model.weights, "/models/PaddleOCR-VL-1.6-GGUF.gguf");
    assert_eq!(model.projector, "/models/PaddleOCR-VL-1.6-GGUF-mmproj.gguf");
    assert_eq!(model.template, "/app/chat-template.jinja");
    assert_eq!(model.alias, "ocr");
    assert_eq!(model.context, 24576);
    let prompts = vec![("table".to_string(), "Table Recognition:".to_string())];
    let mut settings = Settings::default();
    settings.mode = "table".into();
    settings.instructions = " two columns ".into();
    assert_eq!(adapter.prompt(&prompts, &settings), "Table Recognition:\ntwo columns");
    settings.mode = "document".into();
    settings.instructions.clear();
    assert_eq!(adapter.prompt(&prompts, &settings), "OCR:");
    let (text, warning) = adapter.normalize("plain", "text");
    assert_eq!(text, "plain");
    assert!(warning.is_none());
}
