use meliclaw_intent_router::cli::{
    allowed_ids, localai_name_for_catalog_id, resolve_cli_model, EmbedMode, MULTIMODAL_CATALOG_IDS,
    TEXT_CATALOG_IDS,
};
use meliclaw_intent_router::{
    GTE_QWEN2_7B_INSTRUCT_ID, JINA_EMBEDDINGS_V3_ID, NEMOTRON_3_EMBED_1B_ID, NV_EMBED_V2_ID,
    QWEN3_EMBEDDING_0_6B_ID, QWEN3_EMBEDDING_8B_ID, QWEN3_VL_EMBEDDING_2B_ID,
    QWEN3_VL_EMBEDDING_8B_ID,
};

fn ok_id(raw: &str, mode: EmbedMode) -> &'static str {
    resolve_cli_model(raw, mode).unwrap().catalog_id
}

fn err_msg(raw: &str, mode: EmbedMode) -> String {
    resolve_cli_model(raw, mode).unwrap_err().message()
}

#[test]
fn text_mode_allowlist() {
    for raw in [
        "nomic-embed-text-v1.5",
        "nomic-ai/nomic-embed-text-v1.5",
        "bge-m3",
        "BAAI/bge-m3",
        "bge-small-en-v1.5",
        NEMOTRON_3_EMBED_1B_ID,
        "nemotron-3-embed-1b",
        QWEN3_VL_EMBEDDING_2B_ID,
        "qwen3-vl-embedding-2b",
        QWEN3_EMBEDDING_8B_ID,
        "qwen3-embedding-8b",
        "qwen3-embedding:8b",
        GTE_QWEN2_7B_INSTRUCT_ID,
        "gte-qwen2-7b-instruct",
        "gte-Qwen2-7B-instruct",
    ] {
        let m = resolve_cli_model(raw, EmbedMode::Text).expect(raw);
        assert!(
            TEXT_CATALOG_IDS.contains(&m.catalog_id),
            "{raw} -> {}",
            m.catalog_id
        );
    }
}

#[test]
fn multimodal_mode_allowlist() {
    let a = resolve_cli_model(QWEN3_VL_EMBEDDING_2B_ID, EmbedMode::Multimodal).unwrap();
    assert_eq!(a.catalog_id, QWEN3_VL_EMBEDDING_2B_ID);
    assert_eq!(a.dimensions, 2048);
    assert_eq!(a.localai_name, "qwen3-vl-embedding-2b");
    let b = resolve_cli_model("qwen3-vl-embedding-8b", EmbedMode::Multimodal).unwrap();
    assert_eq!(b.catalog_id, QWEN3_VL_EMBEDDING_8B_ID);
    assert_eq!(b.dimensions, 4096);
    assert_eq!(b.localai_name, "qwen3-vl-embedding-8b");
}

#[test]
fn vl_8b_rejected_in_text_mode() {
    let msg = err_msg(QWEN3_VL_EMBEDDING_8B_ID, EmbedMode::Text);
    assert!(msg.contains("multimodal"), "{msg}");
    assert!(msg.contains("not allowed in text"), "{msg}");
}

#[test]
fn embedding_8b_rejected_in_multimodal() {
    let msg = err_msg(QWEN3_EMBEDDING_8B_ID, EmbedMode::Multimodal);
    assert!(msg.contains("text"), "{msg}");
    assert!(msg.contains("not allowed in multimodal"), "{msg}");
}

#[test]
fn gte_qwen2_rejected_in_multimodal() {
    let msg = err_msg(GTE_QWEN2_7B_INSTRUCT_ID, EmbedMode::Multimodal);
    assert!(msg.contains("text"), "{msg}");
    assert!(msg.contains("not allowed in multimodal"), "{msg}");
    let m = resolve_cli_model(GTE_QWEN2_7B_INSTRUCT_ID, EmbedMode::Text).unwrap();
    assert_eq!(m.catalog_id, GTE_QWEN2_7B_INSTRUCT_ID);
    assert_eq!(m.dimensions, 3584);
    assert_eq!(m.localai_name, "gte-qwen2-7b-instruct");
}

#[test]
fn text_only_models_rejected_in_multimodal() {
    for raw in [
        "nomic-embed-text-v1.5",
        "bge-m3",
        "bge-small-en-v1.5",
        NEMOTRON_3_EMBED_1B_ID,
        GTE_QWEN2_7B_INSTRUCT_ID,
    ] {
        let msg = err_msg(raw, EmbedMode::Multimodal);
        assert!(msg.contains("not allowed in multimodal"), "{raw}: {msg}");
        assert!(msg.contains("--mode text"), "{raw}: {msg}");
    }
}

#[test]
fn vl_2b_allowed_in_both_modes() {
    assert_eq!(
        ok_id("qwen3-vl-embedding-2b", EmbedMode::Text),
        QWEN3_VL_EMBEDDING_2B_ID
    );
    assert_eq!(
        ok_id(QWEN3_VL_EMBEDDING_2B_ID, EmbedMode::Multimodal),
        QWEN3_VL_EMBEDDING_2B_ID
    );
}

#[test]
fn jina_and_nv_embed_omitted() {
    for (raw, mode) in [
        (JINA_EMBEDDINGS_V3_ID, EmbedMode::Text),
        ("jina-embeddings-v3", EmbedMode::Text),
        (NV_EMBED_V2_ID, EmbedMode::Text),
        (NV_EMBED_V2_ID, EmbedMode::Multimodal),
    ] {
        let msg = err_msg(raw, mode);
        assert!(
            msg.contains("not in this CLI allowlist") || msg.contains("omitted"),
            "{raw}: {msg}"
        );
    }
}

#[test]
fn qwen3_0_6b_omitted() {
    let msg = err_msg(QWEN3_EMBEDDING_0_6B_ID, EmbedMode::Text);
    assert!(msg.contains("0.6B") || msg.contains("allowlist"), "{msg}");
}

#[test]
fn unknown_model_lists_allowlist() {
    let msg = err_msg("totally-unknown-embed", EmbedMode::Text);
    assert!(msg.contains("unknown model"), "{msg}");
    assert!(msg.contains("nomic-embed-text-v1.5"), "{msg}");
}

#[test]
fn localai_short_names() {
    assert_eq!(
        localai_name_for_catalog_id(NEMOTRON_3_EMBED_1B_ID),
        Some("nemotron-3-embed-1b")
    );
    assert_eq!(
        localai_name_for_catalog_id(QWEN3_EMBEDDING_8B_ID),
        Some("qwen3-embedding-8b")
    );
    assert_eq!(
        localai_name_for_catalog_id(GTE_QWEN2_7B_INSTRUCT_ID),
        Some("gte-qwen2-7b-instruct")
    );
    assert_eq!(
        localai_name_for_catalog_id("nomic-embed-text-v1.5"),
        Some("nomic-embed-text-v1.5")
    );
    let m = resolve_cli_model(NEMOTRON_3_EMBED_1B_ID, EmbedMode::Text).unwrap();
    assert_eq!(m.localai_name, "nemotron-3-embed-1b");
    assert_eq!(m.dimensions, 2048);
}

#[test]
fn matrix_text_vs_multimodal() {
    let rows: &[(&str, bool, bool)] = &[
        ("nomic-embed-text-v1.5", true, false),
        ("bge-m3", true, false),
        ("bge-small-en-v1.5", true, false),
        (NEMOTRON_3_EMBED_1B_ID, true, false),
        (QWEN3_EMBEDDING_8B_ID, true, false),
        (GTE_QWEN2_7B_INSTRUCT_ID, true, false),
        (QWEN3_VL_EMBEDDING_2B_ID, true, true),
        (QWEN3_VL_EMBEDDING_8B_ID, false, true),
    ];
    for (id, text, multi) in rows {
        assert_eq!(
            resolve_cli_model(id, EmbedMode::Text).is_ok(),
            *text,
            "text {id}"
        );
        assert_eq!(
            resolve_cli_model(id, EmbedMode::Multimodal).is_ok(),
            *multi,
            "multimodal {id}"
        );
    }
}

#[test]
fn unknown_model_message_is_exact() {
    let msg = err_msg("x", EmbedMode::Multimodal);
    assert_eq!(
        msg,
        "unknown model `x`. multimodal mode allows: Qwen/Qwen3-VL-Embedding-2B, Qwen/Qwen3-VL-Embedding-8B"
    );
}

#[test]
fn mode_mismatch_message_is_exact() {
    let msg = err_msg("bge-m3", EmbedMode::Multimodal);
    assert_eq!(
        msg,
        "model `bge-m3` (bge-m3) is not allowed in multimodal mode; use --mode text. multimodal mode allows: Qwen/Qwen3-VL-Embedding-2B, Qwen/Qwen3-VL-Embedding-8B"
    );
}

#[test]
fn localai_name_unknown_is_none() {
    assert_eq!(localai_name_for_catalog_id("bge-m3-extra"), None);
    assert_eq!(localai_name_for_catalog_id(JINA_EMBEDDINGS_V3_ID), None);
}

#[test]
fn allowed_ids_lists_each_mode() {
    assert_eq!(allowed_ids(EmbedMode::Text), &TEXT_CATALOG_IDS[..]);
    assert_eq!(allowed_ids(EmbedMode::Multimodal), &MULTIMODAL_CATALOG_IDS[..]);
    assert_eq!(TEXT_CATALOG_IDS.len(), 7);
}

#[test]
fn mismatch_messages_name_the_omission_or_the_other_mode() {
    for (raw, mode) in [
        (JINA_EMBEDDINGS_V3_ID, EmbedMode::Multimodal),
        (QWEN3_EMBEDDING_0_6B_ID, EmbedMode::Text),
        (NV_EMBED_V2_ID, EmbedMode::Text),
    ] {
        let msg = err_msg(raw, mode);
        assert!(msg.contains("not in this CLI allowlist"), "{raw}: {msg}");
        assert!(!msg.contains("use --mode"), "{raw}: {msg}");
    }
    let msg = err_msg(QWEN3_VL_EMBEDDING_8B_ID, EmbedMode::Text);
    assert!(!msg.contains("not in this CLI allowlist"), "{msg}");
    assert!(msg.contains("use --mode multimodal"), "{msg}");
    let msg = err_msg("nomic-embed-text-v1.5", EmbedMode::Multimodal);
    assert!(!msg.contains("not in this CLI allowlist"), "{msg}");
    assert!(msg.contains("use --mode text"), "{msg}");
    assert!(msg.ends_with(". multimodal mode allows: Qwen/Qwen3-VL-Embedding-2B, Qwen/Qwen3-VL-Embedding-8B"));
}
