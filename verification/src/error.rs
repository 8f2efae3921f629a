//! The library's error type.

use vstd::prelude::*;

use crate::text::{owned, push_decimal, push_str};

verus! {

/// `std::io::Error`, carried opaquely in [`Error::Io`].
#[verifier::external_type_specification]
#[verifier::external_body]
pub struct ExIoError(std::io::Error);

/// Everything that can go wrong in the router, its encoders and its indexes.
#[derive(Debug)]
pub enum Error {
    Message(String),
    IndexNotReady,
    MissingQuery,
    BadAggregation(String),
    EmptyFilter,
    EncoderNotFitted,
    MissingSparse,
    HybridRouteFilter,
    Io(std::io::Error),
    /// A JSON document could not be read or written; the parser's message.
    Json(String),
    /// A YAML document could not be read or written; the parser's message.
    Yaml(String),
    Http(String),
    Database(String),
    SyncConflict,
    Onnx(String),
    /// A known embedding model was asked for (or answered with) a width
    /// other than its native one.
    DimensionMismatch { model: String, expected: usize, got: usize },
}

/// The text `std::io::Error` displays. It comes from the operating system,
/// so nothing is stated of it.
#[verifier::external_body]
pub(crate) fn io_error_text(e: &std::io::Error) -> String {
    e.to_string()
}

/// The message shown for a dimension mismatch.
pub open spec fn dimension_mismatch_text(model: Seq<char>, expected: nat, got: nat) -> Seq<char> {
    "embedding dimension mismatch for "@ + model + ": expected "@ + crate::text::decimal(expected)
        + ", got "@ + crate::text::decimal(got)
}

/// The message of every variant whose text does not come from an outside
/// error value.
pub open spec fn error_text(e: Error) -> Option<Seq<char>> {
    match e {
        Error::Message(m) => Some(m@),
        Error::IndexNotReady => Some("index is not ready"@),
        Error::MissingQuery => Some("either text or vector must be provided"@),
        Error::BadAggregation(a) => Some("unsupported aggregation: "@ + a@),
        Error::EmptyFilter => Some("no routes matched the filter"@),
        Error::EncoderNotFitted => Some("encoder not fitted"@),
        Error::MissingSparse => Some("sparse vector required for hybrid index"@),
        Error::HybridRouteFilter => Some("route filter is not supported for HybridLocalIndex"@),
        Error::Json(m) => Some("json: "@ + m@),
        Error::Yaml(m) => Some("yaml: "@ + m@),
        Error::Http(m) => Some("http: "@ + m@),
        Error::Database(m) => Some("database: "@ + m@),
        Error::SyncConflict => Some("sync error: local and remote utterances differ"@),
        Error::Onnx(m) => Some("onnx: "@ + m@),
        Error::DimensionMismatch { model, expected, got } => Some(
            dimension_mismatch_text(model@, expected as nat, got as nat),
        ),
        _ => None,
    }
}

impl Error {
    /// A free-form error message.
    pub fn msg(m: &str) -> (e: Error)
        ensures
            e matches Error::Message(t) && t@ == m@,
    {
        Error::Message(owned(m))
    }

    /// The human-readable message of this error.
    pub fn message(&self) -> (r: String)
        ensures
            error_text(*self) matches Some(t) ==> r@ == t,
            self matches Error::Io(_) ==> r@.take(4) == "io: "@,
    {
        match self {
            Error::Message(m) => m.clone(),
            Error::IndexNotReady => owned("index is not ready"),
            Error::MissingQuery => owned("either text or vector must be provided"),
            Error::BadAggregation(a) => {
                let mut r = owned("unsupported aggregation: ");
                push_str(&mut r, a.as_str());
                r
            },
            Error::EmptyFilter => owned("no routes matched the filter"),
            Error::EncoderNotFitted => owned("encoder not fitted"),
            Error::MissingSparse => owned("sparse vector required for hybrid index"),
            Error::HybridRouteFilter => owned("route filter is not supported for HybridLocalIndex"),
            Error::Io(e) => {
                let mut r = owned("io: ");
                let t = io_error_text(e);
                push_str(&mut r, t.as_str());
                proof { reveal_strlit("io: "); }
                assert(r@.take(4) =~= "io: "@);
                r
            },
            Error::Json(m) => {
                let mut r = owned("json: ");
                push_str(&mut r, m.as_str());
                r
            },
            Error::Yaml(m) => {
                let mut r = owned("yaml: ");
                push_str(&mut r, m.as_str());
                r
            },
            Error::Http(m) => {
                let mut r = owned("http: ");
                push_str(&mut r, m.as_str());
                r
            },
            Error::Database(m) => {
                let mut r = owned("database: ");
                push_str(&mut r, m.as_str());
                r
            },
            Error::SyncConflict => owned("sync error: local and remote utterances differ"),
            Error::Onnx(m) => {
                let mut r = owned("onnx: ");
                push_str(&mut r, m.as_str());
                r
            },
            Error::DimensionMismatch { model, expected, got } => {
                let mut r = owned("embedding dimension mismatch for ");
                push_str(&mut r, model.as_str());
                push_str(&mut r, ": expected ");
                push_decimal(&mut r, *expected);
                push_str(&mut r, ", got ");
                push_decimal(&mut r, *got);
                r
            },
        }
    }
}

impl From<std::io::Error> for Error {
    /// An I/O failure, carried as is.
    fn from(e: std::io::Error) -> (r: Error) {
        Error::Io(e)
    }
}

impl vstd::std_specs::convert::FromSpecImpl<std::io::Error> for Error {
    open spec fn obeys_from_spec() -> bool {
        true
    }

    open spec fn from_spec(e: std::io::Error) -> Error {
        Error::Io(e)
    }
}

} // verus!
