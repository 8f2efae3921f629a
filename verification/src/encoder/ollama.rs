//! Ollama / LM Studio / vLLM embeddings client: its configuration, its URLs
//! and the checks on an answer. The server already returns a pooled vector;
//! this client checks its width, it does not re-pool. The HTTP exchange
//! itself belongs to the caller: it posts to [`OllamaEncoder::embeddings_url`]
//! and, when that fails, to [`OllamaEncoder::embed_url`].

use vstd::prelude::*;

use super::models::{catalog_entry, expect_embedding_dim, is_mismatch, require_dimensions, resolve_dense_model};
use super::openai::width_for;
use crate::error::Error;
use crate::text::{owned, push_str, push_url, trim_slashes};

verus! {

/// Width assumed for models the catalog does not know.
pub const DEFAULT_OLLAMA_DIM: usize = 768;
/// Default local Ollama base URL.
pub const DEFAULT_OLLAMA_BASE: &'static str = "http://127.0.0.1:11434";

/// An Ollama-compatible embeddings client. Every model scores with the
/// default threshold of 0.3.
#[derive(Debug, Clone)]
pub struct OllamaEncoder {
    name: String,
    base_url: String,
    dim: usize,
}

impl OllamaEncoder {
    /// The model name sent in requests.
    pub closed spec fn spec_name(&self) -> Seq<char> {
        self.name@
    }

    /// The base URL.
    pub closed spec fn spec_base_url(&self) -> Seq<char> {
        self.base_url@
    }

    /// The embedding width answers must have.
    pub closed spec fn spec_dimensions(&self) -> nat {
        self.dim as nat
    }

    /// A client for `model` at `base_url`, with the catalog width of the model
    /// (768 for models the catalog does not know).
    pub fn new(model: &str, base_url: &str) -> (e: OllamaEncoder)
        ensures
            e.spec_name() == model@,
            e.spec_base_url() == base_url@,
            e.spec_dimensions() == width_for(model@, DEFAULT_OLLAMA_DIM as nat),
    {
        let dim = match resolve_dense_model(model) {
            Some(s) => s.dimensions,
            None => DEFAULT_OLLAMA_DIM,
        };
        OllamaEncoder { name: owned(model), base_url: owned(base_url), dim }
    }

    /// A client for `model` on the local default port.
    pub fn localhost(model: &str) -> (e: OllamaEncoder)
        ensures
            e.spec_name() == model@,
            e.spec_base_url() == DEFAULT_OLLAMA_BASE@,
            e.spec_dimensions() == width_for(model@, DEFAULT_OLLAMA_DIM as nat),
    {
        OllamaEncoder::new(model, DEFAULT_OLLAMA_BASE)
    }

    /// The same client with width `dim`; a catalog model rejects any width
    /// but its native one.
    pub fn with_dimensions(self, dim: usize) -> (r: Result<OllamaEncoder, Error>)
        ensures
            match catalog_entry(self.spec_name()) {
                Some((id, native)) if native != dim => r matches Err(e) && is_mismatch(
                    e,
                    id,
                    native,
                    dim as nat,
                ),
                _ => r matches Ok(e) && e.spec_name() == self.spec_name() && e.spec_base_url()
                    == self.spec_base_url() && e.spec_dimensions() == dim,
            },
    {
        match require_dimensions(self.name.as_str(), dim) {
            Err(e) => Err(e),
            Ok(()) => Ok(OllamaEncoder { dim, ..self }),
        }
    }

    /// The model name sent in requests.
    pub fn name(&self) -> (r: &str)
        ensures
            r@ == self.spec_name(),
    {
        self.name.as_str()
    }

    /// The embedding width.
    pub fn dimensions(&self) -> (r: usize)
        ensures
            r == self.spec_dimensions(),
    {
        self.dim
    }

    /// `{base}/api/embeddings` (the older endpoint, tried first).
    pub fn embeddings_url(&self) -> (r: String)
        ensures
            r@ == trim_slashes(self.spec_base_url()) + "/api/embeddings"@,
    {
        let mut r = String::new();
        push_url(&mut r, self.base_url.as_str(), "/api/embeddings");
        r
    }

    /// The URL of `endpoint` on this server.
    pub fn endpoint_url(&self, endpoint: OllamaEndpoint) -> (r: String)
        ensures
            r@ == trim_slashes(self.spec_base_url()) + match endpoint {
                OllamaEndpoint::Embeddings => "/api/embeddings"@,
                OllamaEndpoint::Embed => "/api/embed"@,
            },
    {
        match endpoint {
            OllamaEndpoint::Embeddings => self.embeddings_url(),
            OllamaEndpoint::Embed => self.embed_url(),
        }
    }

    /// `{base}/api/embed` (the newer endpoint, tried when the first fails).
    pub fn embed_url(&self) -> (r: String)
        ensures
            r@ == trim_slashes(self.spec_base_url()) + "/api/embed"@,
    {
        let mut r = String::new();
        push_url(&mut r, self.base_url.as_str(), "/api/embed");
        r
    }
}

/// The two embeddings endpoints of an Ollama server, in the order they are
/// tried.
#[derive(Debug, Clone, Copy, PartialEq, Eq)]
pub enum OllamaEndpoint {
    /// `/api/embeddings`, whose request carries the text as `prompt`.
    Embeddings,
    /// `/api/embed`, whose request carries the text as `input`.
    Embed,
}

/// What to do once an endpoint has answered.
#[derive(Debug, Clone, Copy, PartialEq, Eq)]
pub enum OllamaNext {
    /// Read the vector from the answer's body.
    ReadBody,
    /// Ask this endpoint instead.
    Ask(OllamaEndpoint),
}

/// The endpoint asked first for each text.
pub fn first_endpoint() -> (r: OllamaEndpoint)
    ensures
        r == OllamaEndpoint::Embeddings,
{
    OllamaEndpoint::Embeddings
}

/// After `asked` answered with HTTP `status` (`shown` as text): a success
/// is read; a refusal of the older endpoint turns to the newer one; a
/// refusal of the newer one is [`embed_failed_error`] of its status.
pub fn after_status(asked: OllamaEndpoint, status: u16, shown: &str) -> (r: Result<OllamaNext, Error>)
    ensures
        200 <= status <= 299 ==> r == Ok::<OllamaNext, Error>(OllamaNext::ReadBody),
        !(200 <= status <= 299) && asked == OllamaEndpoint::Embeddings ==> r == Ok::<
            OllamaNext,
            Error,
        >(OllamaNext::Ask(OllamaEndpoint::Embed)),
        !(200 <= status <= 299) && asked == OllamaEndpoint::Embed ==> (r matches Err(Error::Http(m))
            && m@ == "ollama embed failed: "@ + shown@),
{
    if 200 <= status && status <= 299 {
        Ok(OllamaNext::ReadBody)
    } else {
        match asked {
            OllamaEndpoint::Embeddings => Ok(OllamaNext::Ask(OllamaEndpoint::Embed)),
            OllamaEndpoint::Embed => Err(embed_failed_error(shown)),
        }
    }
}

/// The error when both endpoints refused the request: the second status.
pub fn embed_failed_error(status: &str) -> (e: Error)
    ensures
        e matches Error::Http(m) && m@ == "ollama embed failed: "@ + status@,
{
    let mut m = owned("ollama embed failed: ");
    push_str(&mut m, status);
    Error::Http(m)
}

/// The vector an answer carries: its `embedding`, else the first of its
/// `embeddings`; it must have width `expected_dim`.
pub open spec fn answer_vector<T>(embedding: Option<Vec<T>>, embeddings: Option<Vec<Vec<T>>>) -> Option<Vec<T>> {
    match embedding {
        Some(e) => Some(e),
        None => match embeddings {
            Some(es) => if es@.len() > 0 {
                Some(es@[0])
            } else {
                None
            },
            None => None,
        },
    }
}

/// Picks the vector out of an answer (`embedding`, else the first of
/// `embeddings`) and checks its width.
pub fn first_embedding<T>(embedding: Option<Vec<T>>, embeddings: Option<Vec<Vec<T>>>, model: &str, expected_dim: usize) -> (r: Result<Vec<T>, Error>)
    ensures
        match answer_vector(embedding, embeddings) {
            None => r matches Err(Error::Http(m)) && m@ == "ollama response missing embedding"@,
            Some(v) => if v@.len() == expected_dim {
                r == Ok::<Vec<T>, Error>(v)
            } else {
                (r matches Err(e) && is_mismatch(e, model@, expected_dim as nat, v@.len()))
            },
        },
{
    let emb = match embedding {
        Some(e) => e,
        None => match embeddings {
            Some(mut es) => {
                if es.len() == 0 {
                    return Err(Error::Http(owned("ollama response missing embedding")));
                }
                es.remove(0)
            },
            None => {
                return Err(Error::Http(owned("ollama response missing embedding")));
            },
        },
    };
    match expect_embedding_dim(model, expected_dim, emb.as_slice()) {
        Err(e) => Err(e),
        Ok(()) => Ok(emb),
    }
}

} // verus!
