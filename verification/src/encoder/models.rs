//! Known dense embedding models for the intent classifier (layer 1).
//!
//! Model **weights** are not MIT; see the third-party notices. Each entry
//! maps a set of names (catalog id, Hugging Face id, Ollama or GGUF tag,
//! ONNX export) to one catalog id and its native width.

use vstd::prelude::*;

use crate::error::Error;
use crate::text::{owned, str_eq};

verus! {

/// Official Hugging Face / NVIDIA id for Nemotron-3-Embed-1B (BF16).
pub const NEMOTRON_3_EMBED_1B_ID: &'static str = "nvidia/Nemotron-3-Embed-1B-BF16";
/// NVIDIA NIM short name; also the Ollama / HTTP tag to serve under.
pub const NEMOTRON_3_EMBED_1B_OLLAMA_TAG: &'static str = "nemotron-3-embed-1b";
/// Community ONNX export (not NVIDIA-hosted). Verify checksum vs NVIDIA weights.
pub const NEMOTRON_3_EMBED_1B_ONNX_EXPORT: &'static str = "kzzalews/Nemotron-3-Embed-1B-BF16-onnx";
/// Default graph file in the community ONNX export (float32).
pub const NEMOTRON_3_EMBED_1B_ONNX_FILE: &'static str = "model.onnx";
/// FP16 graph in the community ONNX export (`fp16/model.onnx` + `.data`).
pub const NEMOTRON_3_EMBED_1B_ONNX_FP16_FILE: &'static str = "fp16/model.onnx";
/// Native embedding width. Matryoshka slices (1024/512) are not accepted.
pub const NEMOTRON_3_EMBED_1B_DIM: usize = 2048;

/// Hugging Face id of Qwen3-Embedding-0.6B.
pub const QWEN3_EMBEDDING_0_6B_ID: &'static str = "Qwen/Qwen3-Embedding-0.6B";
/// Explicit Ollama tag (the untagged name is not in the catalog).
pub const QWEN3_EMBEDDING_0_6B_OLLAMA_TAG: &'static str = "qwen3-embedding:0.6b";
/// Community ONNX export (`last_hidden_state`, last-token + L2 pooling).
pub const QWEN3_EMBEDDING_0_6B_ONNX_EXPORT: &'static str = "neuradex/Qwen3-Embedding-0.6B-ONNX";
/// Graph file in the community ONNX export.
pub const QWEN3_EMBEDDING_0_6B_ONNX_FILE: &'static str = "model.onnx";
/// Native embedding width (no MRL slices).
pub const QWEN3_EMBEDDING_0_6B_DIM: usize = 1024;

/// Hugging Face id of Qwen3-Embedding-8B (optional, heavy; never a default).
pub const QWEN3_EMBEDDING_8B_ID: &'static str = "Qwen/Qwen3-Embedding-8B";
/// Explicit Ollama tag; `:latest` is not mapped.
pub const QWEN3_EMBEDDING_8B_OLLAMA_TAG: &'static str = "qwen3-embedding:8b";
/// Community ONNX export (FP16, `model.onnx` + `model.onnx_data`).
pub const QWEN3_EMBEDDING_8B_ONNX_EXPORT: &'static str = "majentik/Qwen3-Embedding-8B-ONNX-FP16";
/// Graph file in the community ONNX export.
pub const QWEN3_EMBEDDING_8B_ONNX_FILE: &'static str = "model.onnx";
/// Native embedding width.
pub const QWEN3_EMBEDDING_8B_DIM: usize = 4096;

/// Hugging Face id of jina-embeddings-v3 (CC-BY-NC-4.0 weights).
pub const JINA_EMBEDDINGS_V3_ID: &'static str = "jinaai/jina-embeddings-v3";
/// Pull name for the Q4_K_M GGUF (there is no ollama.com library tag).
pub const JINA_EMBEDDINGS_V3_OLLAMA_TAG: &'static str = "hf.co/second-state/jina-embeddings-v3-GGUF:Q4_K_M";
/// GGUF repository.
pub const JINA_EMBEDDINGS_V3_GGUF_REPO: &'static str = "second-state/jina-embeddings-v3-GGUF";
/// Q4_K_M file in the GGUF repository.
pub const JINA_EMBEDDINGS_V3_GGUF_Q4_K_M_FILE: &'static str = "jina-embeddings-v3-Q4_K_M.gguf";
/// Official ONNX graph in the Jina repository.
pub const JINA_EMBEDDINGS_V3_ONNX_FILE: &'static str = "onnx/model.onnx";
/// FP16 ONNX graph in the Jina repository.
pub const JINA_EMBEDDINGS_V3_ONNX_FP16_FILE: &'static str = "onnx/model_fp16.onnx";
/// Native width (8192 is the maximum sequence length, not the width).
pub const JINA_EMBEDDINGS_V3_DIM: usize = 1024;

/// Hugging Face id of NV-Embed-v2 (latent-attention pooling, CC-BY-NC-4.0).
pub const NV_EMBED_V2_ID: &'static str = "nvidia/NV-Embed-v2";
/// Native embedding width.
pub const NV_EMBED_V2_DIM: usize = 4096;

/// Hugging Face id of Qwen3-VL-Embedding-2B (text path only in layer 1).
pub const QWEN3_VL_EMBEDDING_2B_ID: &'static str = "Qwen/Qwen3-VL-Embedding-2B";
/// Community Ollama tag (Q4_K_M).
pub const QWEN3_VL_EMBEDDING_2B_OLLAMA_TAG: &'static str = "RizwanMalik/qwen3-vl-embedding-2b:q4_k_m-q8_0";
/// GGUF repository.
pub const QWEN3_VL_EMBEDDING_2B_GGUF_REPO: &'static str = "Rizwan313/Qwen3-VL-Embedding-2B-GGUF";
/// Q4_K_M file in the GGUF repository.
pub const QWEN3_VL_EMBEDDING_2B_GGUF_Q4_K_M_FILE: &'static str = "qwen3-vl-embedding-2b-Q4_K_M.gguf";
/// Native embedding width.
pub const QWEN3_VL_EMBEDDING_2B_DIM: usize = 2048;

/// Hugging Face id of Qwen3-VL-Embedding-8B (optional, heavy).
pub const QWEN3_VL_EMBEDDING_8B_ID: &'static str = "Qwen/Qwen3-VL-Embedding-8B";
/// GGUF repository.
pub const QWEN3_VL_EMBEDDING_8B_GGUF_REPO: &'static str = "lainsoykaf/Qwen3-VL-Embedding-8B-GGUF";
/// Q4_K_M file in the GGUF repository.
pub const QWEN3_VL_EMBEDDING_8B_GGUF_Q4_K_M_FILE: &'static str = "Qwen3-VL-Embedding-8B-Q4_K_M.gguf";
/// Native embedding width.
pub const QWEN3_VL_EMBEDDING_8B_DIM: usize = 4096;

/// Hugging Face id of gte-Qwen2-7B-instruct (optional, heavy).
pub const GTE_QWEN2_7B_INSTRUCT_ID: &'static str = "Alibaba-NLP/gte-Qwen2-7B-instruct";
/// Pull name for the Q4_K_M GGUF.
pub const GTE_QWEN2_7B_INSTRUCT_OLLAMA_TAG: &'static str = "hf.co/second-state/gte-Qwen2-7B-instruct-GGUF:Q4_K_M";
/// Alias of the same Q4_K_M build on ollama.com.
pub const GTE_QWEN2_7B_INSTRUCT_OLLAMA_COMMUNITY_Q4_K_M: &'static str = "since2006/gte-Qwen2-7B-instruct:Q4_K_M";
/// GGUF repository.
pub const GTE_QWEN2_7B_INSTRUCT_GGUF_REPO: &'static str = "second-state/gte-Qwen2-7B-instruct-GGUF";
/// Q4_K_M file in the GGUF repository.
pub const GTE_QWEN2_7B_INSTRUCT_GGUF_Q4_K_M_FILE: &'static str = "gte-Qwen2-7B-instruct-Q4_K_M.gguf";
/// Native width (the hidden size of Qwen2-7B; 4096 belongs to GTE-Qwen1.5-7B).
pub const GTE_QWEN2_7B_INSTRUCT_DIM: usize = 3584;

/// A catalog entry: the canonical id and the native embedding width.
/// (Every entry scores with the default threshold of 0.3.)
#[derive(Debug, Clone, Copy, PartialEq, Eq)]
pub struct DenseModelSpec {
    pub id: &'static str,
    pub dimensions: usize,
}

/// Names of the nomic entry.
pub open spec fn is_nomic(n: Seq<char>) -> bool {
    n == "nomic-embed-text-v1.5"@ || n == "nomic-ai/nomic-embed-text-v1.5"@
}

/// Names of the bge-m3 entry.
pub open spec fn is_bge_m3(n: Seq<char>) -> bool {
    n == "bge-m3"@ || n == "BAAI/bge-m3"@
}

/// Names of the bge-small entry.
pub open spec fn is_bge_small(n: Seq<char>) -> bool {
    n == "bge-small-en-v1.5"@ || n == "BAAI/bge-small-en-v1.5"@
}

/// Names of the Nemotron-3-Embed-1B entry.
pub open spec fn is_nemotron(n: Seq<char>) -> bool {
    n == NEMOTRON_3_EMBED_1B_ID@ || n == "Nemotron-3-Embed-1B-BF16"@
        || n == NEMOTRON_3_EMBED_1B_OLLAMA_TAG@ || n == "nemotron-3-embed-1b-bf16"@
        || n == "nvidia/nemotron-3-embed-1b"@ || n == NEMOTRON_3_EMBED_1B_ONNX_EXPORT@
}

/// Names of the Qwen3-Embedding-0.6B entry.
pub open spec fn is_qwen3_0_6b(n: Seq<char>) -> bool {
    n == QWEN3_EMBEDDING_0_6B_ID@ || n == QWEN3_EMBEDDING_0_6B_OLLAMA_TAG@
        || n == QWEN3_EMBEDDING_0_6B_ONNX_EXPORT@
}

/// Names of the Qwen3-Embedding-8B entry.
pub open spec fn is_qwen3_8b(n: Seq<char>) -> bool {
    n == QWEN3_EMBEDDING_8B_ID@ || n == QWEN3_EMBEDDING_8B_OLLAMA_TAG@
        || n == "qwen3-embedding-8b"@ || n == QWEN3_EMBEDDING_8B_ONNX_EXPORT@
}

/// Names of the jina-embeddings-v3 entry.
pub open spec fn is_jina_v3(n: Seq<char>) -> bool {
    n == JINA_EMBEDDINGS_V3_ID@ || n == "jina-embeddings-v3"@
        || n == JINA_EMBEDDINGS_V3_OLLAMA_TAG@
}

/// Names of the NV-Embed-v2 entry.
pub open spec fn is_nv_embed_v2(n: Seq<char>) -> bool {
    n == NV_EMBED_V2_ID@
}

/// Names of the Qwen3-VL-Embedding-2B entry.
pub open spec fn is_qwen3_vl_2b(n: Seq<char>) -> bool {
    n == QWEN3_VL_EMBEDDING_2B_ID@ || n == "qwen3-vl-embedding-2b"@
        || n == QWEN3_VL_EMBEDDING_2B_OLLAMA_TAG@
}

/// Names of the Qwen3-VL-Embedding-8B entry.
pub open spec fn is_qwen3_vl_8b(n: Seq<char>) -> bool {
    n == QWEN3_VL_EMBEDDING_8B_ID@ || n == "qwen3-vl-embedding-8b"@
}

/// Names of the gte-Qwen2-7B-instruct entry.
pub open spec fn is_gte_qwen2(n: Seq<char>) -> bool {
    n == GTE_QWEN2_7B_INSTRUCT_ID@ || n == "gte-qwen2-7b-instruct"@
        || n == "gte-Qwen2-7B-instruct"@ || n == GTE_QWEN2_7B_INSTRUCT_OLLAMA_TAG@
        || n == GTE_QWEN2_7B_INSTRUCT_OLLAMA_COMMUNITY_Q4_K_M@
}

/// The catalog: the canonical id and native width of the entry that `name`
/// names, if any.
pub open spec fn catalog_entry(name: Seq<char>) -> Option<(Seq<char>, nat)> {
    if is_nomic(name) {
        Some(("nomic-embed-text-v1.5"@, 768))
    } else if is_bge_m3(name) {
        Some(("bge-m3"@, 1024))
    } else if is_bge_small(name) {
        Some(("bge-small-en-v1.5"@, 384))
    } else if is_nemotron(name) {
        Some((NEMOTRON_3_EMBED_1B_ID@, 2048))
    } else if is_qwen3_0_6b(name) {
        Some((QWEN3_EMBEDDING_0_6B_ID@, 1024))
    } else if is_qwen3_8b(name) {
        Some((QWEN3_EMBEDDING_8B_ID@, 4096))
    } else if is_jina_v3(name) {
        Some((JINA_EMBEDDINGS_V3_ID@, 1024))
    } else if is_nv_embed_v2(name) {
        Some((NV_EMBED_V2_ID@, 4096))
    } else if is_qwen3_vl_2b(name) {
        Some((QWEN3_VL_EMBEDDING_2B_ID@, 2048))
    } else if is_qwen3_vl_8b(name) {
        Some((QWEN3_VL_EMBEDDING_8B_ID@, 4096))
    } else if is_gte_qwen2(name) {
        Some((GTE_QWEN2_7B_INSTRUCT_ID@, 3584))
    } else {
        None
    }
}

/// How a resolved spec relates to the catalog.
pub open spec fn resolves_to(name: Seq<char>, r: Option<DenseModelSpec>) -> bool {
    match r {
        Some(s) => catalog_entry(name) == Some((s.id@, s.dimensions as nat)),
        None => catalog_entry(name) is None,
    }
}

fn spec_of(id: &'static str, dimensions: usize) -> (r: Option<DenseModelSpec>)
    ensures
        r == Some(DenseModelSpec { id, dimensions }),
{
    Some(DenseModelSpec { id, dimensions })
}

/// Resolves a caller-supplied model name or alias to its catalog entry.
///
/// Unknown names give `None`, so encoders keep their historical defaults.
pub fn resolve_dense_model(name: &str) -> (r: Option<DenseModelSpec>)
    ensures
        resolves_to(name@, r),
{
    if str_eq(name, "nomic-embed-text-v1.5") || str_eq(name, "nomic-ai/nomic-embed-text-v1.5") {
        spec_of("nomic-embed-text-v1.5", 768)
    } else if str_eq(name, "bge-m3") || str_eq(name, "BAAI/bge-m3") {
        spec_of("bge-m3", 1024)
    } else if str_eq(name, "bge-small-en-v1.5") || str_eq(name, "BAAI/bge-small-en-v1.5") {
        spec_of("bge-small-en-v1.5", 384)
    } else if str_eq(name, NEMOTRON_3_EMBED_1B_ID) || str_eq(name, "Nemotron-3-Embed-1B-BF16")
        || str_eq(name, NEMOTRON_3_EMBED_1B_OLLAMA_TAG) || str_eq(name, "nemotron-3-embed-1b-bf16")
        || str_eq(name, "nvidia/nemotron-3-embed-1b") || str_eq(name, NEMOTRON_3_EMBED_1B_ONNX_EXPORT) {
        spec_of(NEMOTRON_3_EMBED_1B_ID, NEMOTRON_3_EMBED_1B_DIM)
    } else if str_eq(name, QWEN3_EMBEDDING_0_6B_ID) || str_eq(name, QWEN3_EMBEDDING_0_6B_OLLAMA_TAG)
        || str_eq(name, QWEN3_EMBEDDING_0_6B_ONNX_EXPORT) {
        spec_of(QWEN3_EMBEDDING_0_6B_ID, QWEN3_EMBEDDING_0_6B_DIM)
    } else if str_eq(name, QWEN3_EMBEDDING_8B_ID) || str_eq(name, QWEN3_EMBEDDING_8B_OLLAMA_TAG)
        || str_eq(name, "qwen3-embedding-8b") || str_eq(name, QWEN3_EMBEDDING_8B_ONNX_EXPORT) {
        spec_of(QWEN3_EMBEDDING_8B_ID, QWEN3_EMBEDDING_8B_DIM)
    } else if str_eq(name, JINA_EMBEDDINGS_V3_ID) || str_eq(name, "jina-embeddings-v3")
        || str_eq(name, JINA_EMBEDDINGS_V3_OLLAMA_TAG) {
        spec_of(JINA_EMBEDDINGS_V3_ID, JINA_EMBEDDINGS_V3_DIM)
    } else if str_eq(name, NV_EMBED_V2_ID) {
        spec_of(NV_EMBED_V2_ID, NV_EMBED_V2_DIM)
    } else if str_eq(name, QWEN3_VL_EMBEDDING_2B_ID) || str_eq(name, "qwen3-vl-embedding-2b")
        || str_eq(name, QWEN3_VL_EMBEDDING_2B_OLLAMA_TAG) {
        spec_of(QWEN3_VL_EMBEDDING_2B_ID, QWEN3_VL_EMBEDDING_2B_DIM)
    } else if str_eq(name, QWEN3_VL_EMBEDDING_8B_ID) || str_eq(name, "qwen3-vl-embedding-8b") {
        spec_of(QWEN3_VL_EMBEDDING_8B_ID, QWEN3_VL_EMBEDDING_8B_DIM)
    } else if str_eq(name, GTE_QWEN2_7B_INSTRUCT_ID) || str_eq(name, "gte-qwen2-7b-instruct")
        || str_eq(name, "gte-Qwen2-7B-instruct") || str_eq(name, GTE_QWEN2_7B_INSTRUCT_OLLAMA_TAG)
        || str_eq(name, GTE_QWEN2_7B_INSTRUCT_OLLAMA_COMMUNITY_Q4_K_M) {
        spec_of(GTE_QWEN2_7B_INSTRUCT_ID, GTE_QWEN2_7B_INSTRUCT_DIM)
    } else {
        None
    }
}

/// The error owed when a known model is asked for width `got`.
pub open spec fn is_mismatch(e: Error, model: Seq<char>, expected: nat, got: nat) -> bool {
    e matches Error::DimensionMismatch { model: m, expected: x, got: g } && m@ == model
        && x == expected && g == got
}

/// Errors if `name` is a known model and `dim` is not its native width.
pub fn require_dimensions(name: &str, dim: usize) -> (r: Result<(), Error>)
    ensures
        match catalog_entry(name@) {
            None => r is Ok,
            Some((id, native)) => if native == dim {
                r is Ok
            } else {
                (r matches Err(e) && is_mismatch(e, id, native, dim as nat))
            },
        },
{
    if let Some(spec) = resolve_dense_model(name) {
        if spec.dimensions != dim {
            return Err(Error::DimensionMismatch {
                model: owned(spec.id),
                expected: spec.dimensions,
                got: dim,
            });
        }
    }
    Ok(())
}

/// Errors if a produced embedding vector does not have the encoder's width.
pub fn expect_embedding_dim<T>(model: &str, expected: usize, vector: &[T]) -> (r: Result<(), Error>)
    ensures
        vector@.len() == expected ==> r is Ok,
        vector@.len() != expected ==> (r matches Err(e) && is_mismatch(
            e,
            model@,
            expected as nat,
            vector@.len(),
        )),
{
    if vector.len() != expected {
        return Err(Error::DimensionMismatch {
            model: owned(model),
            expected,
            got: vector.len(),
        });
    }
    Ok(())
}

proof fn lemma_nomic_id_is_fixed()
    ensures
        catalog_entry("nomic-embed-text-v1.5"@) == Some(("nomic-embed-text-v1.5"@, 768nat)),
{
    reveal_strlit("Alibaba-NLP/gte-Qwen2-7B-instruct");
    reveal_strlit("BAAI/bge-m3");
    reveal_strlit("BAAI/bge-small-en-v1.5");
    reveal_strlit("Nemotron-3-Embed-1B-BF16");
    reveal_strlit("Qwen/Qwen3-Embedding-0.6B");
    reveal_strlit("Qwen/Qwen3-Embedding-8B");
    reveal_strlit("Qwen/Qwen3-VL-Embedding-2B");
    reveal_strlit("Qwen/Qwen3-VL-Embedding-8B");
    reveal_strlit("RizwanMalik/qwen3-vl-embedding-2b:q4_k_m-q8_0");
    reveal_strlit("bge-m3");
    reveal_strlit("bge-small-en-v1.5");
    reveal_strlit("gte-Qwen2-7B-instruct");
    reveal_strlit("gte-qwen2-7b-instruct");
    reveal_strlit("hf.co/second-state/gte-Qwen2-7B-instruct-GGUF:Q4_K_M");
    reveal_strlit("hf.co/second-state/jina-embeddings-v3-GGUF:Q4_K_M");
    reveal_strlit("jina-embeddings-v3");
    reveal_strlit("jinaai/jina-embeddings-v3");
    reveal_strlit("kzzalews/Nemotron-3-Embed-1B-BF16-onnx");
    reveal_strlit("majentik/Qwen3-Embedding-8B-ONNX-FP16");
    reveal_strlit("nemotron-3-embed-1b");
    reveal_strlit("nemotron-3-embed-1b-bf16");
    reveal_strlit("neuradex/Qwen3-Embedding-0.6B-ONNX");
    reveal_strlit("nomic-ai/nomic-embed-text-v1.5");
    reveal_strlit("nomic-embed-text-v1.5");
    reveal_strlit("nvidia/NV-Embed-v2");
    reveal_strlit("nvidia/Nemotron-3-Embed-1B-BF16");
    reveal_strlit("nvidia/nemotron-3-embed-1b");
    reveal_strlit("qwen3-embedding-8b");
    reveal_strlit("qwen3-embedding:0.6b");
    reveal_strlit("qwen3-embedding:8b");
    reveal_strlit("qwen3-vl-embedding-2b");
    reveal_strlit("qwen3-vl-embedding-8b");
    reveal_strlit("since2006/gte-Qwen2-7B-instruct:Q4_K_M");
    assert("nomic-embed-text-v1.5"@[0] != "gte-Qwen2-7B-instruct"@[0]);
    assert("nomic-embed-text-v1.5"@[0] != "gte-qwen2-7b-instruct"@[0]);
    assert("nomic-embed-text-v1.5"@[0] != "qwen3-vl-embedding-2b"@[0]);
    assert("nomic-embed-text-v1.5"@[0] != "qwen3-vl-embedding-8b"@[0]);
}

proof fn lemma_bge_m3_id_is_fixed()
    ensures
        catalog_entry("bge-m3"@) == Some(("bge-m3"@, 1024nat)),
{
    reveal_strlit("Alibaba-NLP/gte-Qwen2-7B-instruct");
    reveal_strlit("BAAI/bge-m3");
    reveal_strlit("BAAI/bge-small-en-v1.5");
    reveal_strlit("Nemotron-3-Embed-1B-BF16");
    reveal_strlit("Qwen/Qwen3-Embedding-0.6B");
    reveal_strlit("Qwen/Qwen3-Embedding-8B");
    reveal_strlit("Qwen/Qwen3-VL-Embedding-2B");
    reveal_strlit("Qwen/Qwen3-VL-Embedding-8B");
    reveal_strlit("RizwanMalik/qwen3-vl-embedding-2b:q4_k_m-q8_0");
    reveal_strlit("bge-m3");
    reveal_strlit("bge-small-en-v1.5");
    reveal_strlit("gte-Qwen2-7B-instruct");
    reveal_strlit("gte-qwen2-7b-instruct");
    reveal_strlit("hf.co/second-state/gte-Qwen2-7B-instruct-GGUF:Q4_K_M");
    reveal_strlit("hf.co/second-state/jina-embeddings-v3-GGUF:Q4_K_M");
    reveal_strlit("jina-embeddings-v3");
    reveal_strlit("jinaai/jina-embeddings-v3");
    reveal_strlit("kzzalews/Nemotron-3-Embed-1B-BF16-onnx");
    reveal_strlit("majentik/Qwen3-Embedding-8B-ONNX-FP16");
    reveal_strlit("nemotron-3-embed-1b");
    reveal_strlit("nemotron-3-embed-1b-bf16");
    reveal_strlit("neuradex/Qwen3-Embedding-0.6B-ONNX");
    reveal_strlit("nomic-ai/nomic-embed-text-v1.5");
    reveal_strlit("nomic-embed-text-v1.5");
    reveal_strlit("nvidia/NV-Embed-v2");
    reveal_strlit("nvidia/Nemotron-3-Embed-1B-BF16");
    reveal_strlit("nvidia/nemotron-3-embed-1b");
    reveal_strlit("qwen3-embedding-8b");
    reveal_strlit("qwen3-embedding:0.6b");
    reveal_strlit("qwen3-embedding:8b");
    reveal_strlit("qwen3-vl-embedding-2b");
    reveal_strlit("qwen3-vl-embedding-8b");
    reveal_strlit("since2006/gte-Qwen2-7B-instruct:Q4_K_M");
}

proof fn lemma_bge_small_id_is_fixed()
    ensures
        catalog_entry("bge-small-en-v1.5"@) == Some(("bge-small-en-v1.5"@, 384nat)),
{
    reveal_strlit("Alibaba-NLP/gte-Qwen2-7B-instruct");
    reveal_strlit("BAAI/bge-m3");
    reveal_strlit("BAAI/bge-small-en-v1.5");
    reveal_strlit("Nemotron-3-Embed-1B-BF16");
    reveal_strlit("Qwen/Qwen3-Embedding-0.6B");
    reveal_strlit("Qwen/Qwen3-Embedding-8B");
    reveal_strlit("Qwen/Qwen3-VL-Embedding-2B");
    reveal_strlit("Qwen/Qwen3-VL-Embedding-8B");
    reveal_strlit("RizwanMalik/qwen3-vl-embedding-2b:q4_k_m-q8_0");
    reveal_strlit("bge-m3");
    reveal_strlit("bge-small-en-v1.5");
    reveal_strlit("gte-Qwen2-7B-instruct");
    reveal_strlit("gte-qwen2-7b-instruct");
    reveal_strlit("hf.co/second-state/gte-Qwen2-7B-instruct-GGUF:Q4_K_M");
    reveal_strlit("hf.co/second-state/jina-embeddings-v3-GGUF:Q4_K_M");
    reveal_strlit("jina-embeddings-v3");
    reveal_strlit("jinaai/jina-embeddings-v3");
    reveal_strlit("kzzalews/Nemotron-3-Embed-1B-BF16-onnx");
    reveal_strlit("majentik/Qwen3-Embedding-8B-ONNX-FP16");
    reveal_strlit("nemotron-3-embed-1b");
    reveal_strlit("nemotron-3-embed-1b-bf16");
    reveal_strlit("neuradex/Qwen3-Embedding-0.6B-ONNX");
    reveal_strlit("nomic-ai/nomic-embed-text-v1.5");
    reveal_strlit("nomic-embed-text-v1.5");
    reveal_strlit("nvidia/NV-Embed-v2");
    reveal_strlit("nvidia/Nemotron-3-Embed-1B-BF16");
    reveal_strlit("nvidia/nemotron-3-embed-1b");
    reveal_strlit("qwen3-embedding-8b");
    reveal_strlit("qwen3-embedding:0.6b");
    reveal_strlit("qwen3-embedding:8b");
    reveal_strlit("qwen3-vl-embedding-2b");
    reveal_strlit("qwen3-vl-embedding-8b");
    reveal_strlit("since2006/gte-Qwen2-7B-instruct:Q4_K_M");
    assert("bge-small-en-v1.5"@.len() == 17);
    assert("nomic-embed-text-v1.5"@.len() == 21);
    assert("nomic-ai/nomic-embed-text-v1.5"@.len() == 30);
    assert("bge-m3"@.len() == 6);
    assert("BAAI/bge-m3"@.len() == 11);
}

proof fn lemma_nemotron_id_is_fixed()
    ensures
        catalog_entry(NEMOTRON_3_EMBED_1B_ID@) == Some((NEMOTRON_3_EMBED_1B_ID@, 2048nat)),
{
    reveal_strlit("Alibaba-NLP/gte-Qwen2-7B-instruct");
    reveal_strlit("BAAI/bge-m3");
    reveal_strlit("BAAI/bge-small-en-v1.5");
    reveal_strlit("Nemotron-3-Embed-1B-BF16");
    reveal_strlit("Qwen/Qwen3-Embedding-0.6B");
    reveal_strlit("Qwen/Qwen3-Embedding-8B");
    reveal_strlit("Qwen/Qwen3-VL-Embedding-2B");
    reveal_strlit("Qwen/Qwen3-VL-Embedding-8B");
    reveal_strlit("RizwanMalik/qwen3-vl-embedding-2b:q4_k_m-q8_0");
    reveal_strlit("bge-m3");
    reveal_strlit("bge-small-en-v1.5");
    reveal_strlit("gte-Qwen2-7B-instruct");
    reveal_strlit("gte-qwen2-7b-instruct");
    reveal_strlit("hf.co/second-state/gte-Qwen2-7B-instruct-GGUF:Q4_K_M");
    reveal_strlit("hf.co/second-state/jina-embeddings-v3-GGUF:Q4_K_M");
    reveal_strlit("jina-embeddings-v3");
    reveal_strlit("jinaai/jina-embeddings-v3");
    reveal_strlit("kzzalews/Nemotron-3-Embed-1B-BF16-onnx");
    reveal_strlit("majentik/Qwen3-Embedding-8B-ONNX-FP16");
    reveal_strlit("nemotron-3-embed-1b");
    reveal_strlit("nemotron-3-embed-1b-bf16");
    reveal_strlit("neuradex/Qwen3-Embedding-0.6B-ONNX");
    reveal_strlit("nomic-ai/nomic-embed-text-v1.5");
    reveal_strlit("nomic-embed-text-v1.5");
    reveal_strlit("nvidia/NV-Embed-v2");
    reveal_strlit("nvidia/Nemotron-3-Embed-1B-BF16");
    reveal_strlit("nvidia/nemotron-3-embed-1b");
    reveal_strlit("qwen3-embedding-8b");
    reveal_strlit("qwen3-embedding:0.6b");
    reveal_strlit("qwen3-embedding:8b");
    reveal_strlit("qwen3-vl-embedding-2b");
    reveal_strlit("qwen3-vl-embedding-8b");
    reveal_strlit("since2006/gte-Qwen2-7B-instruct:Q4_K_M");
}

proof fn lemma_qwen3_0_6b_id_is_fixed()
    ensures
        catalog_entry(QWEN3_EMBEDDING_0_6B_ID@) == Some((QWEN3_EMBEDDING_0_6B_ID@, 1024nat)),
{
    reveal_strlit("Alibaba-NLP/gte-Qwen2-7B-instruct");
    reveal_strlit("BAAI/bge-m3");
    reveal_strlit("BAAI/bge-small-en-v1.5");
    reveal_strlit("Nemotron-3-Embed-1B-BF16");
    reveal_strlit("Qwen/Qwen3-Embedding-0.6B");
    reveal_strlit("Qwen/Qwen3-Embedding-8B");
    reveal_strlit("Qwen/Qwen3-VL-Embedding-2B");
    reveal_strlit("Qwen/Qwen3-VL-Embedding-8B");
    reveal_strlit("RizwanMalik/qwen3-vl-embedding-2b:q4_k_m-q8_0");
    reveal_strlit("bge-m3");
    reveal_strlit("bge-small-en-v1.5");
    reveal_strlit("gte-Qwen2-7B-instruct");
    reveal_strlit("gte-qwen2-7b-instruct");
    reveal_strlit("hf.co/second-state/gte-Qwen2-7B-instruct-GGUF:Q4_K_M");
    reveal_strlit("hf.co/second-state/jina-embeddings-v3-GGUF:Q4_K_M");
    reveal_strlit("jina-embeddings-v3");
    reveal_strlit("jinaai/jina-embeddings-v3");
    reveal_strlit("kzzalews/Nemotron-3-Embed-1B-BF16-onnx");
    reveal_strlit("majentik/Qwen3-Embedding-8B-ONNX-FP16");
    reveal_strlit("nemotron-3-embed-1b");
    reveal_strlit("nemotron-3-embed-1b-bf16");
    reveal_strlit("neuradex/Qwen3-Embedding-0.6B-ONNX");
    reveal_strlit("nomic-ai/nomic-embed-text-v1.5");
    reveal_strlit("nomic-embed-text-v1.5");
    reveal_strlit("nvidia/NV-Embed-v2");
    reveal_strlit("nvidia/Nemotron-3-Embed-1B-BF16");
    reveal_strlit("nvidia/nemotron-3-embed-1b");
    reveal_strlit("qwen3-embedding-8b");
    reveal_strlit("qwen3-embedding:0.6b");
    reveal_strlit("qwen3-embedding:8b");
    reveal_strlit("qwen3-vl-embedding-2b");
    reveal_strlit("qwen3-vl-embedding-8b");
    reveal_strlit("since2006/gte-Qwen2-7B-instruct:Q4_K_M");
    assert("Qwen/Qwen3-Embedding-0.6B"@[0] != "jinaai/jina-embeddings-v3"@[0]);
}

proof fn lemma_qwen3_8b_id_is_fixed()
    ensures
        catalog_entry(QWEN3_EMBEDDING_8B_ID@) == Some((QWEN3_EMBEDDING_8B_ID@, 4096nat)),
{
    reveal_strlit("Alibaba-NLP/gte-Qwen2-7B-instruct");
    reveal_strlit("BAAI/bge-m3");
    reveal_strlit("BAAI/bge-small-en-v1.5");
    reveal_strlit("Nemotron-3-Embed-1B-BF16");
    reveal_strlit("Qwen/Qwen3-Embedding-0.6B");
    reveal_strlit("Qwen/Qwen3-Embedding-8B");
    reveal_strlit("Qwen/Qwen3-VL-Embedding-2B");
    reveal_strlit("Qwen/Qwen3-VL-Embedding-8B");
    reveal_strlit("RizwanMalik/qwen3-vl-embedding-2b:q4_k_m-q8_0");
    reveal_strlit("bge-m3");
    reveal_strlit("bge-small-en-v1.5");
    reveal_strlit("gte-Qwen2-7B-instruct");
    reveal_strlit("gte-qwen2-7b-instruct");
    reveal_strlit("hf.co/second-state/gte-Qwen2-7B-instruct-GGUF:Q4_K_M");
    reveal_strlit("hf.co/second-state/jina-embeddings-v3-GGUF:Q4_K_M");
    reveal_strlit("jina-embeddings-v3");
    reveal_strlit("jinaai/jina-embeddings-v3");
    reveal_strlit("kzzalews/Nemotron-3-Embed-1B-BF16-onnx");
    reveal_strlit("majentik/Qwen3-Embedding-8B-ONNX-FP16");
    reveal_strlit("nemotron-3-embed-1b");
    reveal_strlit("nemotron-3-embed-1b-bf16");
    reveal_strlit("neuradex/Qwen3-Embedding-0.6B-ONNX");
    reveal_strlit("nomic-ai/nomic-embed-text-v1.5");
    reveal_strlit("nomic-embed-text-v1.5");
    reveal_strlit("nvidia/NV-Embed-v2");
    reveal_strlit("nvidia/Nemotron-3-Embed-1B-BF16");
    reveal_strlit("nvidia/nemotron-3-embed-1b");
    reveal_strlit("qwen3-embedding-8b");
    reveal_strlit("qwen3-embedding:0.6b");
    reveal_strlit("qwen3-embedding:8b");
    reveal_strlit("qwen3-vl-embedding-2b");
    reveal_strlit("qwen3-vl-embedding-8b");
    reveal_strlit("since2006/gte-Qwen2-7B-instruct:Q4_K_M");
}

proof fn lemma_jina_v3_id_is_fixed()
    ensures
        catalog_entry(JINA_EMBEDDINGS_V3_ID@) == Some((JINA_EMBEDDINGS_V3_ID@, 1024nat)),
{
    reveal_strlit("Alibaba-NLP/gte-Qwen2-7B-instruct");
    reveal_strlit("BAAI/bge-m3");
    reveal_strlit("BAAI/bge-small-en-v1.5");
    reveal_strlit("Nemotron-3-Embed-1B-BF16");
    reveal_strlit("Qwen/Qwen3-Embedding-0.6B");
    reveal_strlit("Qwen/Qwen3-Embedding-8B");
    reveal_strlit("Qwen/Qwen3-VL-Embedding-2B");
    reveal_strlit("Qwen/Qwen3-VL-Embedding-8B");
    reveal_strlit("RizwanMalik/qwen3-vl-embedding-2b:q4_k_m-q8_0");
    reveal_strlit("bge-m3");
    reveal_strlit("bge-small-en-v1.5");
    reveal_strlit("gte-Qwen2-7B-instruct");
    reveal_strlit("gte-qwen2-7b-instruct");
    reveal_strlit("hf.co/second-state/gte-Qwen2-7B-instruct-GGUF:Q4_K_M");
    reveal_strlit("hf.co/second-state/jina-embeddings-v3-GGUF:Q4_K_M");
    reveal_strlit("jina-embeddings-v3");
    reveal_strlit("jinaai/jina-embeddings-v3");
    reveal_strlit("kzzalews/Nemotron-3-Embed-1B-BF16-onnx");
    reveal_strlit("majentik/Qwen3-Embedding-8B-ONNX-FP16");
    reveal_strlit("nemotron-3-embed-1b");
    reveal_strlit("nemotron-3-embed-1b-bf16");
    reveal_strlit("neuradex/Qwen3-Embedding-0.6B-ONNX");
    reveal_strlit("nomic-ai/nomic-embed-text-v1.5");
    reveal_strlit("nomic-embed-text-v1.5");
    reveal_strlit("nvidia/NV-Embed-v2");
    reveal_strlit("nvidia/Nemotron-3-Embed-1B-BF16");
    reveal_strlit("nvidia/nemotron-3-embed-1b");
    reveal_strlit("qwen3-embedding-8b");
    reveal_strlit("qwen3-embedding:0.6b");
    reveal_strlit("qwen3-embedding:8b");
    reveal_strlit("qwen3-vl-embedding-2b");
    reveal_strlit("qwen3-vl-embedding-8b");
    reveal_strlit("since2006/gte-Qwen2-7B-instruct:Q4_K_M");
    assert("jinaai/jina-embeddings-v3"@[0] != "Qwen/Qwen3-Embedding-0.6B"@[0]);
}

proof fn lemma_nv_embed_v2_id_is_fixed()
    ensures
        catalog_entry(NV_EMBED_V2_ID@) == Some((NV_EMBED_V2_ID@, 4096nat)),
{
    reveal_strlit("Alibaba-NLP/gte-Qwen2-7B-instruct");
    reveal_strlit("BAAI/bge-m3");
    reveal_strlit("BAAI/bge-small-en-v1.5");
    reveal_strlit("Nemotron-3-Embed-1B-BF16");
    reveal_strlit("Qwen/Qwen3-Embedding-0.6B");
    reveal_strlit("Qwen/Qwen3-Embedding-8B");
    reveal_strlit("Qwen/Qwen3-VL-Embedding-2B");
    reveal_strlit("Qwen/Qwen3-VL-Embedding-8B");
    reveal_strlit("RizwanMalik/qwen3-vl-embedding-2b:q4_k_m-q8_0");
    reveal_strlit("bge-m3");
    reveal_strlit("bge-small-en-v1.5");
    reveal_strlit("gte-Qwen2-7B-instruct");
    reveal_strlit("gte-qwen2-7b-instruct");
    reveal_strlit("hf.co/second-state/gte-Qwen2-7B-instruct-GGUF:Q4_K_M");
    reveal_strlit("hf.co/second-state/jina-embeddings-v3-GGUF:Q4_K_M");
    reveal_strlit("jina-embeddings-v3");
    reveal_strlit("jinaai/jina-embeddings-v3");
    reveal_strlit("kzzalews/Nemotron-3-Embed-1B-BF16-onnx");
    reveal_strlit("majentik/Qwen3-Embedding-8B-ONNX-FP16");
    reveal_strlit("nemotron-3-embed-1b");
    reveal_strlit("nemotron-3-embed-1b-bf16");
    reveal_strlit("neuradex/Qwen3-Embedding-0.6B-ONNX");
    reveal_strlit("nomic-ai/nomic-embed-text-v1.5");
    reveal_strlit("nomic-embed-text-v1.5");
    reveal_strlit("nvidia/NV-Embed-v2");
    reveal_strlit("nvidia/Nemotron-3-Embed-1B-BF16");
    reveal_strlit("nvidia/nemotron-3-embed-1b");
    reveal_strlit("qwen3-embedding-8b");
    reveal_strlit("qwen3-embedding:0.6b");
    reveal_strlit("qwen3-embedding:8b");
    reveal_strlit("qwen3-vl-embedding-2b");
    reveal_strlit("qwen3-vl-embedding-8b");
    reveal_strlit("since2006/gte-Qwen2-7B-instruct:Q4_K_M");
    assert("nvidia/NV-Embed-v2"@[0] != "jina-embeddings-v3"@[0]);
    assert("nvidia/NV-Embed-v2"@[0] != "qwen3-embedding-8b"@[0]);
    assert("nvidia/NV-Embed-v2"@[0] != "qwen3-embedding:8b"@[0]);
}

proof fn lemma_qwen3_vl_2b_id_is_fixed()
    ensures
        catalog_entry(QWEN3_VL_EMBEDDING_2B_ID@) == Some((QWEN3_VL_EMBEDDING_2B_ID@, 2048nat)),
{
    reveal_strlit("Alibaba-NLP/gte-Qwen2-7B-instruct");
    reveal_strlit("BAAI/bge-m3");
    reveal_strlit("BAAI/bge-small-en-v1.5");
    reveal_strlit("Nemotron-3-Embed-1B-BF16");
    reveal_strlit("Qwen/Qwen3-Embedding-0.6B");
    reveal_strlit("Qwen/Qwen3-Embedding-8B");
    reveal_strlit("Qwen/Qwen3-VL-Embedding-2B");
    reveal_strlit("Qwen/Qwen3-VL-Embedding-8B");
    reveal_strlit("RizwanMalik/qwen3-vl-embedding-2b:q4_k_m-q8_0");
    reveal_strlit("bge-m3");
    reveal_strlit("bge-small-en-v1.5");
    reveal_strlit("gte-Qwen2-7B-instruct");
    reveal_strlit("gte-qwen2-7b-instruct");
    reveal_strlit("hf.co/second-state/gte-Qwen2-7B-instruct-GGUF:Q4_K_M");
    reveal_strlit("hf.co/second-state/jina-embeddings-v3-GGUF:Q4_K_M");
    reveal_strlit("jina-embeddings-v3");
    reveal_strlit("jinaai/jina-embeddings-v3");
    reveal_strlit("kzzalews/Nemotron-3-Embed-1B-BF16-onnx");
    reveal_strlit("majentik/Qwen3-Embedding-8B-ONNX-FP16");
    reveal_strlit("nemotron-3-embed-1b");
    reveal_strlit("nemotron-3-embed-1b-bf16");
    reveal_strlit("neuradex/Qwen3-Embedding-0.6B-ONNX");
    reveal_strlit("nomic-ai/nomic-embed-text-v1.5");
    reveal_strlit("nomic-embed-text-v1.5");
    reveal_strlit("nvidia/NV-Embed-v2");
    reveal_strlit("nvidia/Nemotron-3-Embed-1B-BF16");
    reveal_strlit("nvidia/nemotron-3-embed-1b");
    reveal_strlit("qwen3-embedding-8b");
    reveal_strlit("qwen3-embedding:0.6b");
    reveal_strlit("qwen3-embedding:8b");
    reveal_strlit("qwen3-vl-embedding-2b");
    reveal_strlit("qwen3-vl-embedding-8b");
    reveal_strlit("since2006/gte-Qwen2-7B-instruct:Q4_K_M");
    assert("Qwen/Qwen3-VL-Embedding-2B"@[24] != "Qwen/Qwen3-VL-Embedding-8B"@[24]);
    assert("Qwen/Qwen3-VL-Embedding-2B"@[0] != "nvidia/nemotron-3-embed-1b"@[0]);
}

proof fn lemma_qwen3_vl_8b_id_is_fixed()
    ensures
        catalog_entry(QWEN3_VL_EMBEDDING_8B_ID@) == Some((QWEN3_VL_EMBEDDING_8B_ID@, 4096nat)),
{
    reveal_strlit("Alibaba-NLP/gte-Qwen2-7B-instruct");
    reveal_strlit("BAAI/bge-m3");
    reveal_strlit("BAAI/bge-small-en-v1.5");
    reveal_strlit("Nemotron-3-Embed-1B-BF16");
    reveal_strlit("Qwen/Qwen3-Embedding-0.6B");
    reveal_strlit("Qwen/Qwen3-Embedding-8B");
    reveal_strlit("Qwen/Qwen3-VL-Embedding-2B");
    reveal_strlit("Qwen/Qwen3-VL-Embedding-8B");
    reveal_strlit("RizwanMalik/qwen3-vl-embedding-2b:q4_k_m-q8_0");
    reveal_strlit("bge-m3");
    reveal_strlit("bge-small-en-v1.5");
    reveal_strlit("gte-Qwen2-7B-instruct");
    reveal_strlit("gte-qwen2-7b-instruct");
    reveal_strlit("hf.co/second-state/gte-Qwen2-7B-instruct-GGUF:Q4_K_M");
    reveal_strlit("hf.co/second-state/jina-embeddings-v3-GGUF:Q4_K_M");
    reveal_strlit("jina-embeddings-v3");
    reveal_strlit("jinaai/jina-embeddings-v3");
    reveal_strlit("kzzalews/Nemotron-3-Embed-1B-BF16-onnx");
    reveal_strlit("majentik/Qwen3-Embedding-8B-ONNX-FP16");
    reveal_strlit("nemotron-3-embed-1b");
    reveal_strlit("nemotron-3-embed-1b-bf16");
    reveal_strlit("neuradex/Qwen3-Embedding-0.6B-ONNX");
    reveal_strlit("nomic-ai/nomic-embed-text-v1.5");
    reveal_strlit("nomic-embed-text-v1.5");
    reveal_strlit("nvidia/NV-Embed-v2");
    reveal_strlit("nvidia/Nemotron-3-Embed-1B-BF16");
    reveal_strlit("nvidia/nemotron-3-embed-1b");
    reveal_strlit("qwen3-embedding-8b");
    reveal_strlit("qwen3-embedding:0.6b");
    reveal_strlit("qwen3-embedding:8b");
    reveal_strlit("qwen3-vl-embedding-2b");
    reveal_strlit("qwen3-vl-embedding-8b");
    reveal_strlit("since2006/gte-Qwen2-7B-instruct:Q4_K_M");
    assert("Qwen/Qwen3-VL-Embedding-8B"@[24] != "Qwen/Qwen3-VL-Embedding-2B"@[24]);
    assert("Qwen/Qwen3-VL-Embedding-8B"@[0] != "nvidia/nemotron-3-embed-1b"@[0]);
}

proof fn lemma_gte_qwen2_id_is_fixed()
    ensures
        catalog_entry(GTE_QWEN2_7B_INSTRUCT_ID@) == Some((GTE_QWEN2_7B_INSTRUCT_ID@, 3584nat)),
{
    reveal_strlit("Alibaba-NLP/gte-Qwen2-7B-instruct");
    reveal_strlit("BAAI/bge-m3");
    reveal_strlit("BAAI/bge-small-en-v1.5");
    reveal_strlit("Nemotron-3-Embed-1B-BF16");
    reveal_strlit("Qwen/Qwen3-Embedding-0.6B");
    reveal_strlit("Qwen/Qwen3-Embedding-8B");
    reveal_strlit("Qwen/Qwen3-VL-Embedding-2B");
    reveal_strlit("Qwen/Qwen3-VL-Embedding-8B");
    reveal_strlit("RizwanMalik/qwen3-vl-embedding-2b:q4_k_m-q8_0");
    reveal_strlit("bge-m3");
    reveal_strlit("bge-small-en-v1.5");
    reveal_strlit("gte-Qwen2-7B-instruct");
    reveal_strlit("gte-qwen2-7b-instruct");
    reveal_strlit("hf.co/second-state/gte-Qwen2-7B-instruct-GGUF:Q4_K_M");
    reveal_strlit("hf.co/second-state/jina-embeddings-v3-GGUF:Q4_K_M");
    reveal_strlit("jina-embeddings-v3");
    reveal_strlit("jinaai/jina-embeddings-v3");
    reveal_strlit("kzzalews/Nemotron-3-Embed-1B-BF16-onnx");
    reveal_strlit("majentik/Qwen3-Embedding-8B-ONNX-FP16");
    reveal_strlit("nemotron-3-embed-1b");
    reveal_strlit("nemotron-3-embed-1b-bf16");
    reveal_strlit("neuradex/Qwen3-Embedding-0.6B-ONNX");
    reveal_strlit("nomic-ai/nomic-embed-text-v1.5");
    reveal_strlit("nomic-embed-text-v1.5");
    reveal_strlit("nvidia/NV-Embed-v2");
    reveal_strlit("nvidia/Nemotron-3-Embed-1B-BF16");
    reveal_strlit("nvidia/nemotron-3-embed-1b");
    reveal_strlit("qwen3-embedding-8b");
    reveal_strlit("qwen3-embedding:0.6b");
    reveal_strlit("qwen3-embedding:8b");
    reveal_strlit("qwen3-vl-embedding-2b");
    reveal_strlit("qwen3-vl-embedding-8b");
    reveal_strlit("since2006/gte-Qwen2-7B-instruct:Q4_K_M");
}

/// Every catalog id is itself a name of its entry: resolving the id of a
/// resolved entry gives that entry again.
pub proof fn lemma_catalog_ids_resolve_to_themselves(name: Seq<char>)
    requires
        catalog_entry(name) is Some,
    ensures
        catalog_entry(catalog_entry(name)->Some_0.0) == catalog_entry(name),
{
    if is_nomic(name) {
        lemma_nomic_id_is_fixed();
    } else if is_bge_m3(name) {
        lemma_bge_m3_id_is_fixed();
    } else if is_bge_small(name) {
        lemma_bge_small_id_is_fixed();
    } else if is_nemotron(name) {
        lemma_nemotron_id_is_fixed();
    } else if is_qwen3_0_6b(name) {
        lemma_qwen3_0_6b_id_is_fixed();
    } else if is_qwen3_8b(name) {
        lemma_qwen3_8b_id_is_fixed();
    } else if is_jina_v3(name) {
        lemma_jina_v3_id_is_fixed();
    } else if is_nv_embed_v2(name) {
        lemma_nv_embed_v2_id_is_fixed();
    } else if is_qwen3_vl_2b(name) {
        lemma_qwen3_vl_2b_id_is_fixed();
    } else if is_qwen3_vl_8b(name) {
        lemma_qwen3_vl_8b_id_is_fixed();
    } else if is_gte_qwen2(name) {
        lemma_gte_qwen2_id_is_fixed();
    }
}

} // verus!
