use meliclaw_intent_router::encoder::ollama::{after_status, first_embedding, first_endpoint, OllamaEndpoint, OllamaNext};
use meliclaw_intent_router::encoder::openai::{embeddings_from_response, embeddings_status_error, EmbeddingsInput};
use meliclaw_intent_router::encoder::{embeddings_request, expect_embedding_dim, require_dimensions, resolve_dense_model};
use meliclaw_intent_router::{
    Error, OllamaEncoder, OnnxEncoder, OpenAiEncoder, GTE_QWEN2_7B_INSTRUCT_DIM,
    GTE_QWEN2_7B_INSTRUCT_ID, GTE_QWEN2_7B_INSTRUCT_OLLAMA_TAG, JINA_EMBEDDINGS_V3_DIM,
    JINA_EMBEDDINGS_V3_ID, JINA_EMBEDDINGS_V3_OLLAMA_TAG, NEMOTRON_3_EMBED_1B_DIM,
    NEMOTRON_3_EMBED_1B_ID, NEMOTRON_3_EMBED_1B_OLLAMA_TAG, NEMOTRON_3_EMBED_1B_ONNX_EXPORT,
    NV_EMBED_V2_DIM, NV_EMBED_V2_ID, QWEN3_EMBEDDING_0_6B_DIM, QWEN3_EMBEDDING_0_6B_ID,
    QWEN3_EMBEDDING_0_6B_OLLAMA_TAG, QWEN3_EMBEDDING_8B_DIM, QWEN3_EMBEDDING_8B_ID,
    QWEN3_EMBEDDING_8B_OLLAMA_TAG, QWEN3_VL_EMBEDDING_2B_DIM, QWEN3_VL_EMBEDDING_2B_ID,
    QWEN3_VL_EMBEDDING_2B_OLLAMA_TAG, QWEN3_VL_EMBEDDING_8B_DIM, QWEN3_VL_EMBEDDING_8B_ID,
};

fn mismatch(err: Error) -> (String, usize, usize) {
    match err {
        Error::DimensionMismatch { model, expected, got } => (model, expected, got),
        other => panic!("unexpected error: {}", other.message()),
    }
}

// ---- catalog ----

#[test]
fn nemotron_aliases_are_2048() {
    for name in [
        NEMOTRON_3_EMBED_1B_ID,
        "Nemotron-3-Embed-1B-BF16",
        NEMOTRON_3_EMBED_1B_OLLAMA_TAG,
        "nemotron-3-embed-1b-bf16",
        "nvidia/nemotron-3-embed-1b",
        NEMOTRON_3_EMBED_1B_ONNX_EXPORT,
    ] {
        let spec = resolve_dense_model(name).expect(name);
        assert_eq!(spec.id, NEMOTRON_3_EMBED_1B_ID, "{name}");
        assert_eq!(spec.dimensions, 2048, "{name}");
    }
}

#[test]
fn models_nemotron_rejects_mismatched_dim() {
    let err = require_dimensions(NEMOTRON_3_EMBED_1B_ID, 768).unwrap_err();
    let (model, expected, got) = mismatch(err);
    assert_eq!(expected, 2048);
    assert_eq!(got, 768);
    assert_eq!(model, NEMOTRON_3_EMBED_1B_ID);
}

#[test]
fn models_nemotron_accepts_native_dim() {
    require_dimensions(NEMOTRON_3_EMBED_1B_OLLAMA_TAG, 2048).unwrap();
    expect_embedding_dim(NEMOTRON_3_EMBED_1B_ID, 2048, &vec![0.0f32; 2048]).unwrap();
}

#[test]
fn unknown_model_allows_any_dim() {
    require_dimensions("custom-local-embed", 512).unwrap();
    assert!(resolve_dense_model("custom-local-embed").is_none());
}

#[test]
fn catalog_widths_for_every_entry() {
    let rows: &[(&str, &str, usize)] = &[
        ("nomic-embed-text-v1.5", "nomic-embed-text-v1.5", 768),
        ("nomic-ai/nomic-embed-text-v1.5", "nomic-embed-text-v1.5", 768),
        ("BAAI/bge-m3", "bge-m3", 1024),
        ("BAAI/bge-small-en-v1.5", "bge-small-en-v1.5", 384),
        (QWEN3_EMBEDDING_0_6B_OLLAMA_TAG, QWEN3_EMBEDDING_0_6B_ID, 1024),
        ("qwen3-embedding:8b", QWEN3_EMBEDDING_8B_ID, 4096),
        ("jina-embeddings-v3", JINA_EMBEDDINGS_V3_ID, 1024),
        (NV_EMBED_V2_ID, NV_EMBED_V2_ID, 4096),
        ("qwen3-vl-embedding-8b", QWEN3_VL_EMBEDDING_8B_ID, 4096),
        ("gte-Qwen2-7B-instruct", GTE_QWEN2_7B_INSTRUCT_ID, 3584),
    ];
    for (name, id, dim) in rows {
        let spec = resolve_dense_model(name).expect(name);
        assert_eq!(spec.id, *id, "{name}");
        assert_eq!(spec.dimensions, *dim, "{name}");
    }
    assert!(resolve_dense_model("qwen3-embedding:latest").is_none());
    assert!(resolve_dense_model("qwen3-embedding").is_none());
}

#[test]
fn mismatch_error_message() {
    let err = require_dimensions("bge-m3", 768).unwrap_err();
    assert_eq!(err.message(), "embedding dimension mismatch for bge-m3: expected 1024, got 768");
    let err = expect_embedding_dim("custom", 3, &[1u8, 2]).unwrap_err();
    assert_eq!(mismatch(err), ("custom".to_string(), 3, 2));
}

// ---- Ollama ----

#[test]
fn nemotron_http_tag_is_2048() {
    let e = OllamaEncoder::new(NEMOTRON_3_EMBED_1B_OLLAMA_TAG, "http://127.0.0.1:9");
    assert_eq!(e.name(), NEMOTRON_3_EMBED_1B_OLLAMA_TAG);
    assert_eq!(e.dimensions(), NEMOTRON_3_EMBED_1B_DIM);
    let e = OllamaEncoder::new(NEMOTRON_3_EMBED_1B_ID, "http://127.0.0.1:9");
    assert_eq!(e.dimensions(), 2048);
}

#[test]
fn ollama_nemotron_rejects_mismatched_dim() {
    let err = OllamaEncoder::new(NEMOTRON_3_EMBED_1B_OLLAMA_TAG, "http://127.0.0.1:9")
        .with_dimensions(768)
        .unwrap_err();
    let (_, expected, got) = mismatch(err);
    assert_eq!(expected, 2048);
    assert_eq!(got, 768);
}

#[test]
fn ollama_mock_http_body_wrong_width_fails() {
    let err = first_embedding(Some(vec![0.1f32, 0.2, 0.3]), None, NEMOTRON_3_EMBED_1B_ID, 2048).unwrap_err();
    let (_, expected, got) = mismatch(err);
    assert_eq!(expected, 2048);
    assert_eq!(got, 3);
}

#[test]
fn mock_http_body_2048_ok() {
    let v = first_embedding(Some(vec![0.0f32; 2048]), None, NEMOTRON_3_EMBED_1B_ID, 2048).unwrap();
    assert_eq!(v.len(), 2048);
}

#[test]
fn qwen3_http_tags_are_native_width() {
    let e = OllamaEncoder::new(QWEN3_EMBEDDING_0_6B_OLLAMA_TAG, "http://127.0.0.1:9");
    assert_eq!(e.name(), QWEN3_EMBEDDING_0_6B_OLLAMA_TAG);
    assert_eq!(e.dimensions(), QWEN3_EMBEDDING_0_6B_DIM);
    let e = OllamaEncoder::new(QWEN3_EMBEDDING_0_6B_ID, "http://127.0.0.1:9");
    assert_eq!(e.dimensions(), 1024);
    let e = OllamaEncoder::new(QWEN3_EMBEDDING_8B_OLLAMA_TAG, "http://127.0.0.1:9");
    assert_eq!(e.name(), QWEN3_EMBEDDING_8B_OLLAMA_TAG);
    assert_eq!(e.dimensions(), QWEN3_EMBEDDING_8B_DIM);
    let e = OllamaEncoder::new(QWEN3_EMBEDDING_8B_ID, "http://127.0.0.1:9");
    assert_eq!(e.dimensions(), 4096);
}

#[test]
fn qwen3_rejects_mismatched_dim() {
    let err = OllamaEncoder::new(QWEN3_EMBEDDING_0_6B_OLLAMA_TAG, "http://127.0.0.1:9")
        .with_dimensions(768)
        .unwrap_err();
    let (_, expected, got) = mismatch(err);
    assert_eq!(expected, 1024);
    assert_eq!(got, 768);
    let err = OllamaEncoder::new(QWEN3_EMBEDDING_8B_OLLAMA_TAG, "http://127.0.0.1:9")
        .with_dimensions(1024)
        .unwrap_err();
    let (_, expected, got) = mismatch(err);
    assert_eq!(expected, 4096);
    assert_eq!(got, 1024);
}

#[test]
fn mock_http_body_qwen3_wrong_width_fails() {
    let err = first_embedding(Some(vec![0.1f32, 0.2, 0.3]), None, QWEN3_EMBEDDING_0_6B_ID, 1024).unwrap_err();
    let (_, expected, got) = mismatch(err);
    assert_eq!(expected, 1024);
    assert_eq!(got, 3);
}

#[test]
fn mock_http_body_qwen3_native_ok() {
    let v = first_embedding(Some(vec![0.0f32; 1024]), None, QWEN3_EMBEDDING_0_6B_ID, 1024).unwrap();
    assert_eq!(v.len(), 1024);
    let v = first_embedding(Some(vec![0.0f32; 4096]), None, QWEN3_EMBEDDING_8B_ID, 4096).unwrap();
    assert_eq!(v.len(), 4096);
}

#[test]
fn jina_v3_http_tag_is_1024() {
    let e = OllamaEncoder::new(JINA_EMBEDDINGS_V3_OLLAMA_TAG, "http://127.0.0.1:9");
    assert_eq!(e.name(), JINA_EMBEDDINGS_V3_OLLAMA_TAG);
    assert_eq!(e.dimensions(), JINA_EMBEDDINGS_V3_DIM);
    let e = OllamaEncoder::new(JINA_EMBEDDINGS_V3_ID, "http://127.0.0.1:9");
    assert_eq!(e.dimensions(), 1024);
    let err = OllamaEncoder::new(JINA_EMBEDDINGS_V3_OLLAMA_TAG, "http://127.0.0.1:9")
        .with_dimensions(8192)
        .unwrap_err();
    let (_, expected, got) = mismatch(err);
    assert_eq!(expected, 1024);
    assert_eq!(got, 8192);
}

#[test]
fn nv_embed_v2_http_id_is_4096() {
    let e = OllamaEncoder::new(NV_EMBED_V2_ID, "http://127.0.0.1:9");
    assert_eq!(e.dimensions(), NV_EMBED_V2_DIM);
    let err = OllamaEncoder::new(NV_EMBED_V2_ID, "http://127.0.0.1:9")
        .with_dimensions(768)
        .unwrap_err();
    let (_, expected, got) = mismatch(err);
    assert_eq!(expected, 4096);
    assert_eq!(got, 768);
    let v = first_embedding(Some(vec![0.0f32; 4096]), None, NV_EMBED_V2_ID, 4096).unwrap();
    assert_eq!(v.len(), 4096);
}

#[test]
fn qwen3_vl_http_tags_are_native_width() {
    let e = OllamaEncoder::new(QWEN3_VL_EMBEDDING_2B_OLLAMA_TAG, "http://127.0.0.1:9");
    assert_eq!(e.name(), QWEN3_VL_EMBEDDING_2B_OLLAMA_TAG);
    assert_eq!(e.dimensions(), QWEN3_VL_EMBEDDING_2B_DIM);
    let e = OllamaEncoder::new(QWEN3_VL_EMBEDDING_2B_ID, "http://127.0.0.1:9");
    assert_eq!(e.dimensions(), 2048);
    let e = OllamaEncoder::new(QWEN3_VL_EMBEDDING_8B_ID, "http://127.0.0.1:9");
    assert_eq!(e.dimensions(), QWEN3_VL_EMBEDDING_8B_DIM);
    let err = OllamaEncoder::new(QWEN3_VL_EMBEDDING_2B_OLLAMA_TAG, "http://127.0.0.1:9")
        .with_dimensions(4096)
        .unwrap_err();
    let (_, expected, got) = mismatch(err);
    assert_eq!(expected, 2048);
    assert_eq!(got, 4096);
    let v = first_embedding(Some(vec![0.0f32; 2048]), None, QWEN3_VL_EMBEDDING_2B_ID, 2048).unwrap();
    assert_eq!(v.len(), 2048);
}

#[test]
fn gte_qwen2_http_tag_is_3584() {
    let e = OllamaEncoder::new(GTE_QWEN2_7B_INSTRUCT_OLLAMA_TAG, "http://127.0.0.1:9");
    assert_eq!(e.name(), GTE_QWEN2_7B_INSTRUCT_OLLAMA_TAG);
    assert_eq!(e.dimensions(), GTE_QWEN2_7B_INSTRUCT_DIM);
    let e = OllamaEncoder::new(GTE_QWEN2_7B_INSTRUCT_ID, "http://127.0.0.1:9");
    assert_eq!(e.dimensions(), 3584);
    let err = OllamaEncoder::new(GTE_QWEN2_7B_INSTRUCT_OLLAMA_TAG, "http://127.0.0.1:9")
        .with_dimensions(4096)
        .unwrap_err();
    let (_, expected, got) = mismatch(err);
    assert_eq!(expected, 3584);
    assert_eq!(got, 4096);
    let v = first_embedding(Some(vec![0.0f32; 3584]), None, GTE_QWEN2_7B_INSTRUCT_ID, 3584).unwrap();
    assert_eq!(v.len(), 3584);
}

#[test]
fn ollama_urls_and_fallback_answer() {
    let e = OllamaEncoder::new("custom", "http://host:11434//");
    assert_eq!(e.dimensions(), 768);
    assert_eq!(e.embeddings_url(), "http://host:11434/api/embeddings");
    assert_eq!(e.embed_url(), "http://host:11434/api/embed");
    let v = first_embedding(None, Some(vec![vec![1u8, 2], vec![3, 4]]), "custom", 2).unwrap();
    assert_eq!(v, vec![1, 2]);
    let err = first_embedding::<u8>(None, None, "custom", 2).unwrap_err();
    assert!(matches!(err, Error::Http(_)));
    let localhost = OllamaEncoder::localhost("bge-m3");
    assert_eq!(localhost.embed_url(), "http://127.0.0.1:11434/api/embed");
    assert_eq!(localhost.dimensions(), 1024);
}

// ---- ONNX ----

#[test]
fn onnx_nemotron_rejects_mismatched_dim() {
    let err = OnnxEncoder::from_model_with_dimensions(NEMOTRON_3_EMBED_1B_ID, 1024).unwrap_err();
    let (model, expected, got) = mismatch(err);
    assert_eq!(expected, 2048);
    assert_eq!(got, 1024);
    assert_eq!(model, NEMOTRON_3_EMBED_1B_ID);
}

#[test]
fn onnx_nemotron_accepts_native_dim() {
    let e = OnnxEncoder::from_model_with_dimensions(NEMOTRON_3_EMBED_1B_ID, 2048).unwrap();
    assert_eq!(e.dimensions(), 2048);
}

#[test]
fn onnx_known_model_ids_and_widths() {
    let e = OnnxEncoder::from_model("nomic-embed-text-v1.5").unwrap();
    assert_eq!(e.model_id(), "nomic-embed-text-v1.5");
    assert_eq!(e.dimensions(), 768);
    for name in [
        NEMOTRON_3_EMBED_1B_ID,
        NEMOTRON_3_EMBED_1B_OLLAMA_TAG,
        NEMOTRON_3_EMBED_1B_ONNX_EXPORT,
        "Nemotron-3-Embed-1B-BF16",
    ] {
        let e = OnnxEncoder::from_model(name).unwrap();
        assert_eq!(e.model_id(), NEMOTRON_3_EMBED_1B_ID, "{name}");
        assert_eq!(e.dimensions(), NEMOTRON_3_EMBED_1B_DIM, "{name}");
    }
    let custom = OnnxEncoder::from_model_with_dimensions("my-local-model", 4).unwrap();
    assert_eq!(custom.model_id(), "my-local-model");
    assert_eq!(custom.dimensions(), 4);
    assert!(custom.model_path().is_none());
}

#[test]
fn onnx_missing_file_is_an_error() {
    let err = OnnxEncoder::from_path_parts("/nowhere/model.onnx", false, Some("model"), Some("nowhere"), 768).unwrap_err();
    match err {
        Error::Onnx(m) => assert_eq!(m, "model not found: /nowhere/model.onnx"),
        other => panic!("unexpected error: {}", other.message()),
    }
}

// ---- OpenAI-compatible ----

#[test]
fn catalog_models_use_native_width() {
    assert_eq!(OpenAiEncoder::new("nomic-embed-text-v1.5", "sk").dimensions(), 768);
    assert_eq!(OpenAiEncoder::new("bge-m3", "sk").dimensions(), 1024);
    assert_eq!(OpenAiEncoder::new("bge-small-en-v1.5", "sk").dimensions(), 384);
    assert_eq!(OpenAiEncoder::new(NEMOTRON_3_EMBED_1B_ID, "sk").dimensions(), NEMOTRON_3_EMBED_1B_DIM);
    assert_eq!(OpenAiEncoder::new(NEMOTRON_3_EMBED_1B_OLLAMA_TAG, "sk").dimensions(), 2048);
    assert_eq!(OpenAiEncoder::new(QWEN3_EMBEDDING_8B_ID, "sk").dimensions(), QWEN3_EMBEDDING_8B_DIM);
    assert_eq!(OpenAiEncoder::new(QWEN3_VL_EMBEDDING_2B_ID, "sk").dimensions(), QWEN3_VL_EMBEDDING_2B_DIM);
    assert_eq!(OpenAiEncoder::new(QWEN3_VL_EMBEDDING_8B_ID, "sk").dimensions(), QWEN3_VL_EMBEDDING_8B_DIM);
    assert_eq!(OpenAiEncoder::new(GTE_QWEN2_7B_INSTRUCT_ID, "sk").dimensions(), GTE_QWEN2_7B_INSTRUCT_DIM);
    assert_eq!(OpenAiEncoder::new("gte-qwen2-7b-instruct", "sk").dimensions(), 3584);
}

#[test]
fn unknown_openai_model_keeps_1536() {
    assert_eq!(OpenAiEncoder::new("text-embedding-3-small", "sk").dimensions(), 1536);
}

#[test]
fn rejects_mismatched_dim() {
    let err = OpenAiEncoder::new("bge-m3", "sk").with_dimensions(768).unwrap_err();
    let (_, expected, got) = mismatch(err);
    assert_eq!(expected, 1024);
    assert_eq!(got, 768);
}

#[test]
fn localai_defaults_loopback_v1() {
    let e = OpenAiEncoder::localai("bge-m3", "sk-local");
    assert_eq!(e.dimensions(), 1024);
    assert!(e.base_url().ends_with("/v1"), "{}", e.base_url());
}

#[test]
fn with_base_url_overrides() {
    let e = OpenAiEncoder::new("bge-m3", "sk").with_base_url("http://127.0.0.1:8080/v1");
    assert_eq!(e.base_url(), "http://127.0.0.1:8080/v1");
    assert_eq!(e.embeddings_url(), "http://127.0.0.1:8080/v1/embeddings");
}

#[test]
fn text_body_is_openai_compatible() {
    let v = embeddings_request("bge-m3", &vec!["hello".to_string()], &vec![]);
    assert_eq!(v.model, "bge-m3");
    match v.input {
        EmbeddingsInput::Texts(t) => assert_eq!(t, vec!["hello".to_string()]),
        other => panic!("unexpected input: {other:?}"),
    }
}

#[test]
fn multimodal_body_uses_input_object() {
    let v = embeddings_request(
        "qwen3-vl-embedding-2b",
        &vec!["caption".to_string()],
        &vec!["data:image/png;base64,AAA".to_string()],
    );
    assert_eq!(v.model, "qwen3-vl-embedding-2b");
    match v.input {
        EmbeddingsInput::Multimodal { text, images } => {
            assert_eq!(text.as_deref(), Some("caption"));
            assert_eq!(images, vec!["data:image/png;base64,AAA".to_string()]);
        }
        other => panic!("unexpected input: {other:?}"),
    }
}

#[test]
fn multimodal_images_only_omits_empty_text() {
    let v = embeddings_request(
        "qwen3-vl-embedding-2b",
        &vec!["".to_string()],
        &vec!["data:image/jpeg;base64,BBB".to_string()],
    );
    match v.input {
        EmbeddingsInput::Multimodal { text, images } => {
            assert!(text.is_none());
            assert_eq!(images.len(), 1);
        }
        other => panic!("unexpected input: {other:?}"),
    }
}

#[test]
fn multimodal_text_pieces_are_joined() {
    let v = embeddings_request(
        "m",
        &vec!["a".to_string(), "".to_string(), "b".to_string()],
        &vec!["img".to_string()],
    );
    match v.input {
        EmbeddingsInput::Multimodal { text, .. } => assert_eq!(text.as_deref(), Some("a\nb")),
        other => panic!("unexpected input: {other:?}"),
    }
}

#[test]
fn multimodal_request_needs_text_or_image() {
    let e = OpenAiEncoder::new("qwen3-vl-embedding-2b", "sk");
    let err = e.multimodal_request(&vec!["".to_string()], &vec![]).unwrap_err();
    assert_eq!(err.message(), "encode_with_images requires text or at least one image");
    assert!(e.multimodal_request(&vec!["x".to_string()], &vec![]).is_ok());
}

#[test]
fn openai_mock_http_body_wrong_width_fails() {
    let err = embeddings_from_response(vec![vec![0.1f32, 0.2, 0.3]], NEMOTRON_3_EMBED_1B_ID, 2048).unwrap_err();
    let (_, expected, got) = mismatch(err);
    assert_eq!(expected, 2048);
    assert_eq!(got, 3);
}

#[test]
fn mock_http_body_native_width_ok() {
    let v = embeddings_from_response(vec![vec![0.0f32; 2048]], NEMOTRON_3_EMBED_1B_ID, 2048).unwrap();
    assert_eq!(v[0].len(), 2048);
}

#[test]
fn mock_empty_data_is_http_error() {
    let err = embeddings_from_response(Vec::<Vec<f32>>::new(), "bge-m3", 1024).unwrap_err();
    match err {
        Error::Http(m) => assert!(m.contains("missing data"), "{m}"),
        other => panic!("unexpected error: {}", other.message()),
    }
}

#[test]
fn status_error_carries_status_and_body() {
    let e = embeddings_status_error("500 Internal Server Error", "nope");
    assert_eq!(e.message(), "http: openai embeddings 500 Internal Server Error: nope");
}

#[test]
fn ollama_endpoint_fallback_decisions() {
    let e = OllamaEncoder::new("nomic-embed-text", "http://h:1/");
    assert_eq!(first_endpoint(), OllamaEndpoint::Embeddings);
    assert_eq!(e.endpoint_url(OllamaEndpoint::Embeddings), "http://h:1/api/embeddings");
    assert_eq!(e.endpoint_url(OllamaEndpoint::Embed), "http://h:1/api/embed");
    assert_eq!(after_status(OllamaEndpoint::Embeddings, 200, "200 OK").unwrap(), OllamaNext::ReadBody);
    assert_eq!(after_status(OllamaEndpoint::Embed, 299, "299").unwrap(), OllamaNext::ReadBody);
    assert_eq!(
        after_status(OllamaEndpoint::Embeddings, 404, "404 Not Found").unwrap(),
        OllamaNext::Ask(OllamaEndpoint::Embed)
    );
    match after_status(OllamaEndpoint::Embed, 500, "500 Internal Server Error") {
        Err(Error::Http(m)) => assert_eq!(m, "ollama embed failed: 500 Internal Server Error"),
        other => panic!("unexpected: {:?}", other.map(|_| ())),
    }
}
