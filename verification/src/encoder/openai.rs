//! OpenAI-compatible embeddings client (also LocalAI's `/v1/embeddings`):
//! its configuration, the request it sends and the checks on the answer.
//! The HTTP exchange itself belongs to the caller.
//!
//! Text requests keep `{ "model", "input": [strings] }`. Multimodal probes put
//! the text on `input.text` and `data:image/...;base64,...` URLs on
//! `input.images`.

use vstd::prelude::*;

use super::models::{catalog_entry, expect_embedding_dim, is_mismatch, require_dimensions, resolve_dense_model};
use crate::error::Error;
use crate::text::{join, owned, push_str, push_url, trim_slashes};

verus! {

/// Default OpenAI base URL.
pub const DEFAULT_OPENAI_BASE: &'static str = "https://api.openai.com/v1";
/// Default LocalAI base URL.
pub const DEFAULT_LOCALAI_BASE: &'static str = "http://127.0.0.1:8080/v1";
/// Width assumed for models the catalog does not know.
pub const DEFAULT_OPENAI_DIM: usize = 1536;

/// An OpenAI-compatible embeddings client. Every model scores with the
/// default threshold of 0.3.
#[derive(Debug, Clone)]
pub struct OpenAiEncoder {
    name: String,
    api_key: String,
    base_url: String,
    dim: usize,
}

/// The width an encoder assumes for a model name: the catalog's, else `default`.
pub open spec fn width_for(name: Seq<char>, default: nat) -> nat {
    match catalog_entry(name) {
        Some((_, d)) => d,
        None => default,
    }
}

impl OpenAiEncoder {
    /// The model name sent in requests.
    pub closed spec fn spec_name(&self) -> Seq<char> {
        self.name@
    }

    /// The bearer key.
    pub closed spec fn spec_api_key(&self) -> Seq<char> {
        self.api_key@
    }

    /// The base URL (`…/v1`).
    pub closed spec fn spec_base_url(&self) -> Seq<char> {
        self.base_url@
    }

    /// The embedding width answers must have.
    pub closed spec fn spec_dimensions(&self) -> nat {
        self.dim as nat
    }

    /// A client for `model` at the OpenAI base URL, with the catalog width of
    /// the model (1536 for models the catalog does not know).
    pub fn new(model: &str, api_key: &str) -> (e: OpenAiEncoder)
        ensures
            e.spec_name() == model@,
            e.spec_api_key() == api_key@,
            e.spec_base_url() == DEFAULT_OPENAI_BASE@,
            e.spec_dimensions() == width_for(model@, DEFAULT_OPENAI_DIM as nat),
    {
        let dim = match resolve_dense_model(model) {
            Some(s) => s.dimensions,
            None => DEFAULT_OPENAI_DIM,
        };
        OpenAiEncoder {
            name: owned(model),
            api_key: owned(api_key),
            base_url: owned(DEFAULT_OPENAI_BASE),
            dim,
        }
    }

    /// A LocalAI client for `model` at the loopback LocalAI base URL.
    pub fn localai(model: &str, api_key: &str) -> (e: OpenAiEncoder)
        ensures
            e.spec_name() == model@,
            e.spec_api_key() == api_key@,
            e.spec_base_url() == DEFAULT_LOCALAI_BASE@,
            e.spec_dimensions() == width_for(model@, DEFAULT_OPENAI_DIM as nat),
    {
        OpenAiEncoder::new(model, api_key).with_base_url(DEFAULT_LOCALAI_BASE)
    }

    /// The same client at another base URL.
    pub fn with_base_url(self, base_url: &str) -> (e: OpenAiEncoder)
        ensures
            e.spec_name() == self.spec_name(),
            e.spec_api_key() == self.spec_api_key(),
            e.spec_base_url() == base_url@,
            e.spec_dimensions() == self.spec_dimensions(),
    {
        OpenAiEncoder { base_url: owned(base_url), ..self }
    }

    /// The same client with width `dim`; a catalog model rejects any width
    /// but its native one.
    pub fn with_dimensions(self, dim: usize) -> (r: Result<OpenAiEncoder, Error>)
        ensures
            match catalog_entry(self.spec_name()) {
                Some((id, native)) if native != dim => r matches Err(e) && is_mismatch(
                    e,
                    id,
                    native,
                    dim as nat,
                ),
                _ => r matches Ok(e) && e.spec_name() == self.spec_name() && e.spec_api_key()
                    == self.spec_api_key() && e.spec_base_url() == self.spec_base_url()
                    && e.spec_dimensions() == dim,
            },
    {
        match require_dimensions(self.name.as_str(), dim) {
            Err(e) => Err(e),
            Ok(()) => Ok(OpenAiEncoder { dim, ..self }),
        }
    }

    /// The model name sent in requests.
    pub fn name(&self) -> (r: &str)
        ensures
            r@ == self.spec_name(),
    {
        self.name.as_str()
    }

    /// The bearer key.
    pub fn api_key(&self) -> (r: &str)
        ensures
            r@ == self.spec_api_key(),
    {
        self.api_key.as_str()
    }

    /// The base URL.
    pub fn base_url(&self) -> (r: &str)
        ensures
            r@ == self.spec_base_url(),
    {
        self.base_url.as_str()
    }

    /// The embedding width.
    pub fn dimensions(&self) -> (r: usize)
        ensures
            r == self.spec_dimensions(),
    {
        self.dim
    }

    /// `{base}/embeddings`, with the base's trailing slashes dropped.
    pub fn embeddings_url(&self) -> (r: String)
        ensures
            r@ == trim_slashes(self.spec_base_url()) + "/embeddings"@,
    {
        let mut r = String::new();
        push_url(&mut r, self.base_url.as_str(), "/embeddings");
        r
    }

    /// The request for one multimodal embedding (text plus image data URLs);
    /// an error when there is neither text nor image.
    pub fn multimodal_request(&self, texts: &Vec<String>, image_data_urls: &Vec<String>) -> (r: Result<EmbeddingsRequest, Error>)
        ensures
            image_data_urls@.len() == 0 && all_empty(texts@) ==> (r matches Err(Error::Message(m))
                && m@ == "encode_with_images requires text or at least one image"@),
            !(image_data_urls@.len() == 0 && all_empty(texts@)) ==> (r matches Ok(q) && request_view(q)
                == request_spec(self.spec_name(), texts@, image_data_urls@)),
    {
        if image_data_urls.len() == 0 && texts_all_empty(texts) {
            return Err(Error::msg("encode_with_images requires text or at least one image"));
        }
        Ok(embeddings_request(self.name.as_str(), texts, image_data_urls))
    }
}

/// What goes on `input`: a list of texts, or one multimodal object.
#[derive(Debug, Clone)]
pub enum EmbeddingsInput {
    /// `"input": [strings]`
    Texts(Vec<String>),
    /// `"input": { "text"?, "images": [...] }`
    Multimodal { text: Option<String>, images: Vec<String> },
}

/// The body of `POST {base}/embeddings`.
#[derive(Debug, Clone)]
pub struct EmbeddingsRequest {
    pub model: String,
    pub input: EmbeddingsInput,
}

/// A request as character sequences: the model, and either the texts or the
/// multimodal text and images.
pub open spec fn request_view(q: EmbeddingsRequest) -> (Seq<char>, Result<Seq<Seq<char>>, (Option<Seq<char>>, Seq<Seq<char>>)>) {
    (q.model@, match q.input {
        EmbeddingsInput::Texts(t) => Ok(crate::route::string_views(t@)),
        EmbeddingsInput::Multimodal { text, images } => Err((
            match text {
                Some(s) => Some(s@),
                None => None,
            },
            crate::route::string_views(images@),
        )),
    })
}

/// Every text is empty.
pub open spec fn all_empty(texts: Seq<String>) -> bool {
    forall|i: int| 0 <= i < texts.len() ==> #[trigger] texts[i]@.len() == 0
}

/// The non-empty texts, in order.
pub open spec fn non_empty(texts: Seq<Seq<char>>) -> Seq<Seq<char>> {
    texts.filter(|t: Seq<char>| t.len() > 0)
}

/// The request for `model`: with no image, the texts as a list; with images,
/// one object whose `text` is the non-empty texts joined by newlines (left
/// out when that is empty) and whose `images` are the data URLs.
pub open spec fn request_spec(model: Seq<char>, texts: Seq<String>, images: Seq<String>) -> (Seq<char>, Result<Seq<Seq<char>>, (Option<Seq<char>>, Seq<Seq<char>>)>) {
    let tv = crate::route::string_views(texts);
    if images.len() == 0 {
        (model, Ok(tv))
    } else {
        let joined = join(non_empty(tv), "\n"@);
        (model, Err((if joined.len() == 0 { None } else { Some(joined) }, crate::route::string_views(images))))
    }
}

fn texts_all_empty(texts: &Vec<String>) -> (r: bool)
    ensures
        r == all_empty(texts@),
{
    let mut i: usize = 0;
    while i < texts.len()
        invariant
            i <= texts.len(),
            forall|j: int| 0 <= j < i ==> #[trigger] texts@[j]@.len() == 0,
        decreases texts.len() - i,
    {
        if texts[i].as_str().unicode_len() != 0 {
            return false;
        }
        i = i + 1;
    }
    true
}

fn copy_strings(v: &Vec<String>) -> (r: Vec<String>)
    ensures
        crate::route::string_views(r@) == crate::route::string_views(v@),
{
    let mut r: Vec<String> = Vec::new();
    let mut i: usize = 0;
    while i < v.len()
        invariant
            i <= v.len(),
            crate::route::string_views(r@) == crate::route::string_views(v@.take(i as int)),
        decreases v.len() - i,
    {
        let c = v[i].clone();
        r.push(c);
        assert(v@.take(i + 1) =~= v@.take(i as int).push(v@[i as int]));
        assert(crate::route::string_views(v@.take(i + 1)) =~= crate::route::string_views(
            v@.take(i as int),
        ).push(v@[i as int]@));
        assert(crate::route::string_views(r@) =~= crate::route::string_views(v@.take(i + 1)));
        i = i + 1;
    }
    assert(v@.take(v.len() as int) =~= v@);
    r
}

proof fn lemma_join_empty_iff(items: Seq<Seq<char>>, sep: Seq<char>)
    requires
        forall|i: int| 0 <= i < items.len() ==> #[trigger] items[i].len() > 0,
    ensures
        (join(items, sep).len() == 0) == (items.len() == 0),
    decreases items.len(),
{
    if items.len() > 1 {
        lemma_join_empty_iff(items.drop_last(), sep);
    }
}

/// Joins the non-empty texts with newlines.
fn join_non_empty(texts: &Vec<String>) -> (r: String)
    ensures
        r@ == join(non_empty(crate::route::string_views(texts@)), "\n"@),
{
    let ghost tv = crate::route::string_views(texts@);
    let ghost pred = |t: Seq<char>| t.len() > 0;
    let mut r = String::new();
    let mut any = false;
    let mut i: usize = 0;
    assert(tv.take(0).filter(pred) =~= Seq::<Seq<char>>::empty());
    while i < texts.len()
        invariant
            i <= texts.len(),
            tv == crate::route::string_views(texts@),
            pred == (|t: Seq<char>| t.len() > 0),
            r@ == join(tv.take(i as int).filter(pred), "\n"@),
            any == (tv.take(i as int).filter(pred).len() > 0),
        decreases texts.len() - i,
    {
        let ghost before = tv.take(i as int).filter(pred);
        proof {
            assert(tv.take(i + 1) =~= tv.take(i as int).push(tv[i as int]));
            tv.take(i as int).lemma_filter_push(tv[i as int], pred);
        }
        if texts[i].as_str().unicode_len() != 0 {
            if any {
                push_str(&mut r, "\n");
            }
            push_str(&mut r, texts[i].as_str());
            any = true;
            proof {
                let after = before.push(tv[i as int]);
                assert(after.drop_last() =~= before);
                if before.len() == 0 {
                    assert(join(after, "\n"@) == after[0]);
                    assert(r@ =~= join(after, "\n"@));
                } else {
                    assert(r@ =~= join(after, "\n"@));
                }
            }
        }
        i = i + 1;
    }
    assert(tv.take(texts.len() as int) =~= tv);
    r
}

/// The request body for `model`: the texts as a list when there is no image,
/// else one multimodal object (see [`request_spec`]).
pub fn embeddings_request(model: &str, texts: &Vec<String>, image_data_urls: &Vec<String>) -> (q: EmbeddingsRequest)
    ensures
        request_view(q) == request_spec(model@, texts@, image_data_urls@),
{
    if image_data_urls.len() == 0 {
        let q = EmbeddingsRequest { model: owned(model), input: EmbeddingsInput::Texts(copy_strings(texts)) };
        return q;
    }
    let text = join_non_empty(texts);
    let has_text = text.as_str().unicode_len() != 0;
    let q = EmbeddingsRequest {
        model: owned(model),
        input: EmbeddingsInput::Multimodal {
            text: if has_text { Some(text) } else { None },
            images: copy_strings(image_data_urls),
        },
    };
    q
}

/// Checks the vectors of an embeddings answer: at least one, each of width
/// `expected_dim` (the first that is not gives the mismatch error).
pub fn embeddings_from_response<T>(data: Vec<Vec<T>>, model: &str, expected_dim: usize) -> (r: Result<Vec<Vec<T>>, Error>)
    ensures
        data@.len() == 0 ==> (r matches Err(Error::Http(m)) && m@
            == "openai embeddings response missing data"@),
        data@.len() > 0 && (forall|i: int| 0 <= i < data@.len() ==> #[trigger] data@[i]@.len()
            == expected_dim) ==> r == Ok::<Vec<Vec<T>>, Error>(data),
        data@.len() > 0 ==> (r is Err <==> exists|i: int|
            0 <= i < data@.len() && #[trigger] data@[i]@.len() != expected_dim),
        data@.len() > 0 && r is Err ==> (exists|i: int|
            0 <= i < data@.len() && data@[i]@.len() != expected_dim && (forall|j: int|
                0 <= j < i ==> data@[j]@.len() == expected_dim) && is_mismatch(
                r->Err_0,
                model@,
                expected_dim as nat,
                #[trigger] data@[i]@.len(),
            )),
{
    if data.len() == 0 {
        return Err(Error::Http(owned("openai embeddings response missing data")));
    }
    let mut i: usize = 0;
    while i < data.len()
        invariant
            i <= data.len(),
            forall|j: int| 0 <= j < i ==> #[trigger] data@[j]@.len() == expected_dim,
        decreases data.len() - i,
    {
        match expect_embedding_dim(model, expected_dim, data[i].as_slice()) {
            Err(e) => {
                return Err(e);
            },
            Ok(()) => {},
        }
        i = i + 1;
    }
    Ok(data)
}

/// The error for an unsuccessful embeddings answer: its status line and body.
pub fn embeddings_status_error(status: &str, body: &str) -> (e: Error)
    ensures
        e matches Error::Http(m) && m@ == "openai embeddings "@ + status@ + ": "@ + body@,
{
    let mut m = owned("openai embeddings ");
    push_str(&mut m, status);
    push_str(&mut m, ": ");
    push_str(&mut m, body);
    Error::Http(m)
}

} // verus!
