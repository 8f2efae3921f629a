//! Embedding encoders: the model catalog, and the pure parts of the HTTP,
//! ONNX and hashing encoders (configuration, request framing, response
//! checks, tokenisation).

pub mod bm25;
pub mod hash;
pub mod models;
pub mod ollama;
pub mod onnx;
pub mod openai;
pub mod tfidf;

pub use models::{
    expect_embedding_dim, require_dimensions, resolve_dense_model, DenseModelSpec,
    GTE_QWEN2_7B_INSTRUCT_DIM, GTE_QWEN2_7B_INSTRUCT_GGUF_Q4_K_M_FILE,
    GTE_QWEN2_7B_INSTRUCT_GGUF_REPO, GTE_QWEN2_7B_INSTRUCT_ID,
    GTE_QWEN2_7B_INSTRUCT_OLLAMA_COMMUNITY_Q4_K_M, GTE_QWEN2_7B_INSTRUCT_OLLAMA_TAG,
    JINA_EMBEDDINGS_V3_DIM, JINA_EMBEDDINGS_V3_GGUF_Q4_K_M_FILE, JINA_EMBEDDINGS_V3_GGUF_REPO,
    JINA_EMBEDDINGS_V3_ID, JINA_EMBEDDINGS_V3_OLLAMA_TAG, JINA_EMBEDDINGS_V3_ONNX_FILE,
    JINA_EMBEDDINGS_V3_ONNX_FP16_FILE, NEMOTRON_3_EMBED_1B_DIM, NEMOTRON_3_EMBED_1B_ID,
    NEMOTRON_3_EMBED_1B_OLLAMA_TAG, NEMOTRON_3_EMBED_1B_ONNX_EXPORT, NEMOTRON_3_EMBED_1B_ONNX_FILE,
    NEMOTRON_3_EMBED_1B_ONNX_FP16_FILE, NV_EMBED_V2_DIM, NV_EMBED_V2_ID, QWEN3_EMBEDDING_0_6B_DIM,
    QWEN3_EMBEDDING_0_6B_ID, QWEN3_EMBEDDING_0_6B_OLLAMA_TAG, QWEN3_EMBEDDING_0_6B_ONNX_EXPORT,
    QWEN3_EMBEDDING_0_6B_ONNX_FILE, QWEN3_EMBEDDING_8B_DIM, QWEN3_EMBEDDING_8B_ID,
    QWEN3_EMBEDDING_8B_OLLAMA_TAG, QWEN3_EMBEDDING_8B_ONNX_EXPORT, QWEN3_EMBEDDING_8B_ONNX_FILE,
    QWEN3_VL_EMBEDDING_2B_DIM, QWEN3_VL_EMBEDDING_2B_GGUF_Q4_K_M_FILE,
    QWEN3_VL_EMBEDDING_2B_GGUF_REPO, QWEN3_VL_EMBEDDING_2B_ID, QWEN3_VL_EMBEDDING_2B_OLLAMA_TAG,
    QWEN3_VL_EMBEDDING_8B_DIM, QWEN3_VL_EMBEDDING_8B_GGUF_Q4_K_M_FILE,
    QWEN3_VL_EMBEDDING_8B_GGUF_REPO, QWEN3_VL_EMBEDDING_8B_ID,
};

pub use bm25::Bm25Encoder;
pub use hash::HashDenseEncoder;
pub use ollama::OllamaEncoder;
pub use onnx::OnnxEncoder;
pub use openai::{embeddings_request, OpenAiEncoder};
pub use tfidf::TfidfEncoder;
