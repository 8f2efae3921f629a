//! ONNX embedding encoder settings. Without a linked ONNX runtime the
//! encoder embeds with the bag-of-words stand-in at the published width of
//! the named model, so the rest of the stack can boot.
//!
//! Model **weights** are not MIT. Complete the license line per deployment.

use vstd::prelude::*;

use super::models::{catalog_entry, is_mismatch, require_dimensions, resolve_dense_model};
use crate::error::Error;
use crate::text::{owned, push_str};

verus! {

/// Width assumed for models the catalog does not know.
pub const DEFAULT_ONNX_DIM: usize = 768;

/// An ONNX encoder: the model id, the graph file when one was found, and the
/// name and width of the stand-in encoder that embeds meanwhile (scoring with
/// the default threshold of 0.3).
#[derive(Debug, Clone)]
pub struct OnnxEncoder {
    model_id: String,
    model_path: Option<std::path::PathBuf>,
    name: String,
    dim: usize,
}

/// The catalog id of `name`, or `name` itself.
pub open spec fn onnx_model_id(name: Seq<char>) -> Seq<char> {
    match catalog_entry(name) {
        Some((id, _)) => id,
        None => name,
    }
}

/// The catalog width of `name`, or 768.
pub open spec fn onnx_width(name: Seq<char>) -> nat {
    match catalog_entry(name) {
        Some((_, d)) => d,
        None => DEFAULT_ONNX_DIM as nat,
    }
}

/// The message of an ONNX build without a runtime.
pub open spec fn no_runtime_text() -> Seq<char> {
    "rebuild with feature `onnx-embed` and a linked ONNX Runtime to load .onnx files"@
}

impl OnnxEncoder {
    /// The model id.
    pub closed spec fn spec_model_id(&self) -> Seq<char> {
        self.model_id@
    }

    /// The stand-in encoder's name.
    pub closed spec fn spec_name(&self) -> Seq<char> {
        self.name@
    }

    /// The width.
    pub closed spec fn spec_dimensions(&self) -> nat {
        self.dim as nat
    }

    /// Whether a graph file was found.
    pub closed spec fn spec_has_path(&self) -> bool {
        self.model_path is Some
    }

    /// The encoder for a known model (catalog id and width) or, for any other
    /// name, that name at width 768. No graph file is attached.
    pub fn from_model(name: &str) -> (r: Result<OnnxEncoder, Error>)
        ensures
            r matches Ok(e) && e.spec_model_id() == onnx_model_id(name@) && e.spec_name()
                == onnx_model_id(name@) && e.spec_dimensions() == onnx_width(name@)
                && !e.spec_has_path(),
    {
        let (id, dim) = match resolve_dense_model(name) {
            Some(spec) => (owned(spec.id), spec.dimensions),
            None => (owned(name), DEFAULT_ONNX_DIM),
        };
        let inner_name = id.clone();
        Ok(OnnxEncoder { model_id: id, model_path: None, name: inner_name, dim })
    }

    /// The same encoder with the graph file found for it (if any).
    pub fn with_model_path(self, path: Option<std::path::PathBuf>) -> (e: OnnxEncoder)
        ensures
            e.spec_model_id() == self.spec_model_id(),
            e.spec_name() == self.spec_name(),
            e.spec_dimensions() == self.spec_dimensions(),
            e.spec_has_path() == path is Some,
    {
        OnnxEncoder { model_path: path, ..self }
    }

    /// As [`OnnxEncoder::from_model`], at width `dim`: a known model rejects
    /// any width but its native one, and an unknown name keeps `dim` as is.
    pub fn from_model_with_dimensions(name: &str, dim: usize) -> (r: Result<OnnxEncoder, Error>)
        ensures
            match catalog_entry(name@) {
                Some((id, native)) if native != dim => r matches Err(e) && is_mismatch(
                    e,
                    id,
                    native,
                    dim as nat,
                ),
                _ => r matches Ok(e) && e.spec_model_id() == onnx_model_id(name@) && e.spec_name()
                    == onnx_model_id(name@) && e.spec_dimensions() == dim && !e.spec_has_path(),
            },
    {
        match require_dimensions(name, dim) {
            Err(e) => {
                return Err(e);
            },
            Ok(()) => {},
        }
        let enc = match OnnxEncoder::from_model(name) {
            Ok(e) => e,
            Err(e) => {
                return Err(e);
            },
        };
        if enc.dim != dim {
            Ok(OnnxEncoder { name: enc.model_id.clone(), dim, ..enc })
        } else {
            Ok(enc)
        }
    }

    /// Loading a graph file: `display` is the path as shown, `exists` whether
    /// it is there, `stem` its file stem and `parent_name` the name of its
    /// directory. A missing file is an error; a known model (named by the
    /// directory, else the stem) must be asked for at its native width; and a
    /// build without an ONNX runtime cannot load the graph.
    pub fn from_path_parts(display: &str, exists: bool, stem: Option<&str>, parent_name: Option<&str>, dim: usize) -> (r: Result<OnnxEncoder, Error>)
        ensures
            !exists ==> (r matches Err(Error::Onnx(m)) && m@ == "model not found: "@ + display@),
            exists ==> ({
                let s = match stem {
                    Some(t) => t@,
                    None => "onnx"@,
                };
                let h = match parent_name {
                    Some(p) => p@,
                    None => s,
                };
                match (catalog_entry(h), catalog_entry(s)) {
                    (Some((id, native)), _) if native != dim => r matches Err(e) && is_mismatch(
                        e,
                        id,
                        native,
                        dim as nat,
                    ),
                    (_, Some((id, native))) if native != dim => r matches Err(e) && is_mismatch(
                        e,
                        id,
                        native,
                        dim as nat,
                    ),
                    _ => r matches Err(Error::Onnx(m)) && m@ == no_runtime_text(),
                }
            }),
    {
        if !exists {
            let mut m = owned("model not found: ");
            push_str(&mut m, display);
            return Err(Error::Onnx(m));
        }
        let s = match stem {
            Some(t) => t,
            None => "onnx",
        };
        let h = match parent_name {
            Some(p) => p,
            None => s,
        };
        match require_dimensions(h, dim) {
            Err(e) => {
                return Err(e);
            },
            Ok(()) => {},
        }
        match require_dimensions(s, dim) {
            Err(e) => {
                return Err(e);
            },
            Ok(()) => {},
        }
        Err(
            Error::Onnx(
                owned(
                    "rebuild with feature `onnx-embed` and a linked ONNX Runtime to load .onnx files",
                ),
            ),
        )
    }

    /// The model id.
    pub fn model_id(&self) -> (r: &str)
        ensures
            r@ == self.spec_model_id(),
    {
        self.model_id.as_str()
    }

    /// The graph file, when one was found.
    pub fn model_path(&self) -> (r: Option<&std::path::PathBuf>)
        ensures
            r is Some == self.spec_has_path(),
    {
        match &self.model_path {
            Some(p) => Some(p),
            None => None,
        }
    }

    /// The stand-in encoder's name.
    pub fn name(&self) -> (r: &str)
        ensures
            r@ == self.spec_name(),
    {
        self.name.as_str()
    }

    /// The width.
    pub fn dimensions(&self) -> (r: usize)
        ensures
            r == self.spec_dimensions(),
    {
        self.dim
    }
}

} // verus!
