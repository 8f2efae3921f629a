use std::path::PathBuf;

use meliclaw_intent_router::cli::{
    choose_api_key, gather_text, image_data_url, mime_for_extension, mime_for_path,
    validate_inputs, CliError, EmbedMode, DEFAULT_API_KEY,
};
use meliclaw_intent_router::encoder::openai::EmbeddingsInput;
use meliclaw_intent_router::encoder::embeddings_request;
use meliclaw_intent_router::OpenAiEncoder;

#[test]
fn text_mode_rejects_images() {
    let err = validate_inputs(EmbedMode::Text, Some("hi"), &[PathBuf::from("x.png")]).unwrap_err();
    assert!(err.message().contains("--image"), "{}", err.message());
}

#[test]
fn multimodal_allows_text_only() {
    validate_inputs(EmbedMode::Multimodal, Some("hi"), &[]).unwrap();
}

#[test]
fn multimodal_allows_image_only() {
    validate_inputs(EmbedMode::Multimodal, None, &[PathBuf::from("x.png")]).unwrap();
}

#[test]
fn multimodal_rejects_empty() {
    let err = validate_inputs(EmbedMode::Multimodal, None, &[]).unwrap_err();
    assert!(err.message().contains("requires"), "{}", err.message());
}

#[test]
fn text_mode_rejects_empty() {
    let err = validate_inputs(EmbedMode::Text, None, &[]).unwrap_err();
    assert!(err.message().contains("text mode requires"), "{}", err.message());
}

#[test]
fn text_mode_rejects_blank_text() {
    let err = validate_inputs(EmbedMode::Text, Some(" \t\n\u{3000}"), &[]).unwrap_err();
    assert_eq!(err.message(), "text mode requires --text, --file, or stdin");
    assert_eq!(err.exit_code(), 1);
}

#[test]
fn data_url_prefix() {
    let url = image_data_url("image/png", &[0x89, b'P', b'N', b'G']);
    assert!(url.starts_with("data:image/png;base64,"), "{url}");
    assert!(!url.contains("data:image/png;base64,data:"));
}

#[test]
fn data_url_is_standard_base64() {
    assert_eq!(image_data_url("image/png", &[0x89, b'P', b'N', b'G']), "data:image/png;base64,iVBORw==");
    assert_eq!(image_data_url("image/gif", b"Man"), "data:image/gif;base64,TWFu");
    assert_eq!(image_data_url("image/gif", b"Ma"), "data:image/gif;base64,TWE=");
    assert_eq!(image_data_url("image/gif", &[]), "data:image/gif;base64,");
}

#[test]
fn mime_from_extension() {
    assert_eq!(mime_for_path("a.JPG"), "image/jpeg");
    assert_eq!(mime_for_path("a.webp"), "image/webp");
    assert_eq!(mime_for_path("a.bin"), "image/png");
}

#[test]
fn mime_for_each_extension() {
    assert_eq!(mime_for_extension(Some("png")), "image/png");
    assert_eq!(mime_for_extension(Some("JPEG")), "image/jpeg");
    assert_eq!(mime_for_extension(Some("Gif")), "image/gif");
    assert_eq!(mime_for_extension(Some("bmp")), "image/bmp");
    assert_eq!(mime_for_extension(Some("tiff")), "image/png");
    assert_eq!(mime_for_extension(None), "image/png");
    assert_eq!(mime_for_path("noext"), "image/png");
}

#[test]
fn api_key_flag_wins() {
    assert_eq!(choose_api_key(Some("sk-from-flag"), None, None), "sk-from-flag");
    assert_eq!(choose_api_key(Some(""), None, None), DEFAULT_API_KEY);
}

#[test]
fn api_key_falls_back_through_environment() {
    assert_eq!(choose_api_key(None, Some("sk-openai"), Some("sk-localai")), "sk-openai");
    assert_eq!(choose_api_key(Some(""), Some(""), Some("sk-localai")), "sk-localai");
    assert_eq!(choose_api_key(None, None, Some("")), "sk-local");
}

#[test]
fn encoder_uses_catalog_dim_for_cli_models() {
    let e = OpenAiEncoder::new("nemotron-3-embed-1b", "sk-local")
        .with_base_url("http://127.0.0.1:8080/v1");
    assert_eq!(e.dimensions(), 2048);
    assert_eq!(e.name(), "nemotron-3-embed-1b");
    let e = OpenAiEncoder::new("qwen3-embedding-8b", "sk")
        .with_dimensions(4096)
        .unwrap();
    assert_eq!(e.dimensions(), 4096);
}

#[test]
fn multimodal_request_body_keeps_text_encode_unchanged() {
    let text = embeddings_request("bge-m3", &vec!["hola".to_string()], &vec![]);
    assert!(matches!(text.input, EmbeddingsInput::Texts(_)));
    let multi = embeddings_request(
        "qwen3-vl-embedding-2b",
        &vec!["cap".to_string()],
        &vec!["data:image/png;base64,xx".to_string()],
    );
    match multi.input {
        EmbeddingsInput::Multimodal { images, .. } => {
            assert_eq!(images[0], "data:image/png;base64,xx");
        }
        other => panic!("unexpected input: {other:?}"),
    }
}

#[test]
fn gathered_text_joins_flag_and_file() {
    assert_eq!(gather_text(Some("a"), Some("b"), Some("ignored")), Some("a\nb".to_string()));
    assert_eq!(gather_text(None, Some("file text"), None), Some("file text".to_string()));
    assert_eq!(gather_text(None, None, Some("from stdin")), Some("from stdin".to_string()));
    assert_eq!(gather_text(None, None, Some("  \n")), None);
    assert_eq!(gather_text(None, None, None), None);
    assert_eq!(gather_text(Some(""), None, Some("x")), Some("".to_string()));
}

#[test]
fn usage_error_message_and_code() {
    let e = CliError::usage("bad flag");
    assert_eq!(e.message(), "bad flag");
    assert_eq!(e.exit_code(), 1);
    let r = CliError::Router(meliclaw_intent_router::Error::IndexNotReady);
    assert_eq!(r.message(), "index is not ready");
}

#[test]
fn mode_names() {
    assert_eq!(EmbedMode::Text.as_str(), "text");
    assert_eq!(EmbedMode::Multimodal.as_str(), "multimodal");
}

#[test]
fn mime_reads_only_the_last_extension_of_the_file_name() {
    assert_eq!(mime_for_path("photos.gif/shot.jpg"), "image/jpeg");
    assert_eq!(mime_for_path("archive.tar.webp"), "image/webp");
    assert_eq!(mime_for_path("dir.gif/noext"), "image/png");
    assert_eq!(mime_for_path(".gif"), "image/png");
}
