//! Shared record types: utterances, sync modes, configuration parameters.

use std::collections::BTreeMap;

use vstd::prelude::*;

use crate::text::{owned, push_str, str_eq};

verus! {

broadcast use vstd::laws_cmp::group_laws_cmp, vstd::std_specs::btree::group_btree_axioms;

/// `serde_json::Value`: metadata and function schemas are carried opaquely.
#[verifier::external_type_specification]
#[verifier::external_body]
pub struct ExJsonValue(serde_json::Value);

/// A copy of a list of JSON values (`Vec<serde_json::Value>::clone`; the
/// derived `Clone` of `Value` copies the whole tree, so the copy is the same
/// value).
#[verifier::external_body]
pub(crate) fn copy_json_values(v: &Vec<serde_json::Value>) -> (r: Vec<serde_json::Value>)
    ensures
        r == *v,
{
    v.clone()
}

/// A copy of a metadata map (`BTreeMap<String, serde_json::Value>::clone`;
/// keys and values are copied whole, so the copy is the same map).
#[verifier::external_body]
pub(crate) fn copy_metadata(m: &BTreeMap<String, serde_json::Value>) -> (r: BTreeMap<String, serde_json::Value>)
    ensures
        r == *m,
{
    m.clone()
}

/// One utterance of one route, as indexes store and sync them.
#[derive(Debug, Clone)]
pub struct Utterance {
    pub route: String,
    pub utterance: String,
    pub function_schemas: Option<Vec<serde_json::Value>>,
    pub metadata: BTreeMap<String, serde_json::Value>,
    pub diff_tag: String,
}

/// The line that identifies an utterance when local and remote indexes are
/// compared: `<route>: <utterance>`.
pub open spec fn utterance_key(route: Seq<char>, utterance: Seq<char>) -> Seq<char> {
    route + ": "@ + utterance
}

/// What `serde_json::to_string` gives for a list of JSON values (the empty
/// string should it fail).
pub uninterp spec fn json_of_values(values: Seq<serde_json::Value>) -> Seq<char>;

/// What `serde_json::to_string` gives for a metadata map (`{}` should it fail).
pub uninterp spec fn json_of_metadata(m: Map<String, serde_json::Value>) -> Seq<char>;

/// What `{:?}` writes for a string: the string quoted, with `str::escape_debug`
/// escapes.
pub uninterp spec fn debug_quoted(s: Seq<char>) -> Seq<char>;

/// `serde_json::to_string` of a list of values, or `""` on failure. A
/// deterministic function of the values; its text is named, not spelled out.
#[verifier::external_body]
fn values_json(v: &Vec<serde_json::Value>) -> (r: String)
    ensures
        r@ == json_of_values(v@),
{
    serde_json::to_string(v).unwrap_or_default()
}

/// `serde_json::to_string` of a metadata map, or `{}` on failure (keys in
/// map order). A deterministic function of the map; its text is named, not
/// spelled out.
#[verifier::external_body]
fn metadata_json(m: &BTreeMap<String, serde_json::Value>) -> (r: String)
    ensures
        r@ == json_of_metadata(m@),
{
    serde_json::to_string(m).unwrap_or_else(|_| "{}".into())
}

/// `format!("{:?}", s)` for a string.
#[verifier::external_body]
fn debug_string(s: &str) -> (r: String)
    ensures
        r@ == debug_quoted(s@),
{
    format!("{:?}", s)
}

/// What `{:?}` writes for an optional string: `None`, or `Some(` the quoted
/// string `)`.
pub open spec fn debug_option(o: Option<Seq<char>>) -> Seq<char> {
    match o {
        None => "None"@,
        Some(s) => "Some("@ + debug_quoted(s) + ")"@,
    }
}

/// The text form of an utterance: `<route>: <utterance>`, and with metadata
/// `<route>: <utterance> | <schemas as {:?} of the optional JSON text> | <metadata JSON>`.
pub open spec fn utterance_text(u: Utterance, include_metadata: bool) -> Seq<char> {
    if include_metadata {
        utterance_key(u.route@, u.utterance@) + " | "@ + debug_option(
            match u.function_schemas {
                Some(s) => Some(json_of_values(s@)),
                None => None,
            },
        ) + " | "@ + json_of_metadata(u.metadata@)
    } else {
        utterance_key(u.route@, u.utterance@)
    }
}

/// The diff tag an utterance read without one gets: a single space.
pub fn space_tag() -> (r: String)
    ensures
        r@ == " "@,
{
    owned(" ")
}

impl Utterance {
    /// An utterance with no function schemas, empty metadata and the blank
    /// diff tag.
    pub fn new(route: &str, utterance: &str) -> (u: Utterance)
        ensures
            u.route@ == route@,
            u.utterance@ == utterance@,
            u.function_schemas is None,
            u.metadata@ == Map::<String, serde_json::Value>::empty(),
            u.diff_tag@ == " "@,
    {
        Utterance {
            route: owned(route),
            utterance: owned(utterance),
            function_schemas: None,
            metadata: BTreeMap::new(),
            diff_tag: owned(" "),
        }
    }

    /// A field-for-field copy.
    pub fn duplicate(&self) -> (r: Utterance)
        ensures
            r == *self,
    {
        Utterance {
            route: self.route.clone(),
            utterance: self.utterance.clone(),
            function_schemas: match &self.function_schemas {
                Some(s) => Some(copy_json_values(s)),
                None => None,
            },
            metadata: copy_metadata(&self.metadata),
            diff_tag: self.diff_tag.clone(),
        }
    }

    /// The text form of this utterance (see [`utterance_text`]).
    pub fn to_str(&self, include_metadata: bool) -> (r: String)
        ensures
            r@ == utterance_text(*self, include_metadata),
    {
        let mut r = self.route.clone();
        push_str(&mut r, ": ");
        push_str(&mut r, self.utterance.as_str());
        if include_metadata {
            push_str(&mut r, " | ");
            match &self.function_schemas {
                Some(s) => {
                    let j = values_json(s);
                    push_str(&mut r, "Some(");
                    let d = debug_string(j.as_str());
                    push_str(&mut r, d.as_str());
                    push_str(&mut r, ")");
                },
                None => {
                    push_str(&mut r, "None");
                },
            }
            push_str(&mut r, " | ");
            let m = metadata_json(&self.metadata);
            push_str(&mut r, m.as_str());
        }
        r
    }
}

/// How local and remote utterances are reconciled.
#[derive(Debug, Clone, Copy, PartialEq, Eq, Structural)]
pub enum SyncMode {
    Error,
    Remote,
    Local,
    MergeForceRemote,
    MergeForceLocal,
    Merge,
}

/// The kebab-case name of a sync mode.
pub open spec fn sync_mode_name(m: SyncMode) -> Seq<char> {
    match m {
        SyncMode::Error => "error"@,
        SyncMode::Remote => "remote"@,
        SyncMode::Local => "local"@,
        SyncMode::MergeForceRemote => "merge-force-remote"@,
        SyncMode::MergeForceLocal => "merge-force-local"@,
        SyncMode::Merge => "merge"@,
    }
}

/// The sync mode a name stands for.
pub open spec fn sync_mode_named(s: Seq<char>) -> Option<SyncMode> {
    if s == "error"@ {
        Some(SyncMode::Error)
    } else if s == "remote"@ {
        Some(SyncMode::Remote)
    } else if s == "local"@ {
        Some(SyncMode::Local)
    } else if s == "merge-force-remote"@ {
        Some(SyncMode::MergeForceRemote)
    } else if s == "merge-force-local"@ {
        Some(SyncMode::MergeForceLocal)
    } else if s == "merge"@ {
        Some(SyncMode::Merge)
    } else {
        None
    }
}

impl SyncMode {
    /// The kebab-case name of this mode.
    pub fn as_str(self) -> (r: &'static str)
        ensures
            r@ == sync_mode_name(self),
    {
        match self {
            SyncMode::Error => "error",
            SyncMode::Remote => "remote",
            SyncMode::Local => "local",
            SyncMode::MergeForceRemote => "merge-force-remote",
            SyncMode::MergeForceLocal => "merge-force-local",
            SyncMode::Merge => "merge",
        }
    }

    /// The mode a kebab-case name stands for, if any.
    pub fn parse(s: &str) -> (r: Option<SyncMode>)
        ensures
            r == sync_mode_named(s@),
    {
        if str_eq(s, "error") {
            Some(SyncMode::Error)
        } else if str_eq(s, "remote") {
            Some(SyncMode::Remote)
        } else if str_eq(s, "local") {
            Some(SyncMode::Local)
        } else if str_eq(s, "merge-force-remote") {
            Some(SyncMode::MergeForceRemote)
        } else if str_eq(s, "merge-force-local") {
            Some(SyncMode::MergeForceLocal)
        } else if str_eq(s, "merge") {
            Some(SyncMode::Merge)
        } else {
            None
        }
    }
}

/// Parsing the name of a mode gives the mode back.
pub proof fn lemma_sync_mode_name_round_trip(m: SyncMode)
    ensures
        sync_mode_named(sync_mode_name(m)) == Some(m),
{
    reveal_strlit("error");
    reveal_strlit("remote");
    reveal_strlit("local");
    reveal_strlit("merge-force-remote");
    reveal_strlit("merge-force-local");
    reveal_strlit("merge");
    assert("error"@.len() == 5);
    assert("remote"@.len() == 6);
    assert("local"@.len() == 5);
    assert("merge-force-remote"@.len() == 18);
    assert("merge-force-local"@.len() == 17);
    assert("merge"@.len() == 5);
    assert("error"@[0] != "local"@[0]);
    assert("error"@[0] != "merge"@[0]);
    assert("local"@[0] != "merge"@[0]);
}

/// A name that parses is the name of the mode it parses to.
pub proof fn lemma_sync_mode_parse_is_exact(s: Seq<char>)
    requires
        sync_mode_named(s) is Some,
    ensures
        sync_mode_name(sync_mode_named(s)->Some_0) == s,
{
}

/// The outcome of routing one query: the chosen route's name and its score,
/// or nothing. `S` is the score type (the router uses `f32`).
#[derive(Debug, Clone)]
pub struct RouteChoice<S> {
    pub name: Option<String>,
    pub function_call: Option<Vec<serde_json::Value>>,
    pub similarity_score: Option<S>,
}

impl<S> RouteChoice<S> {
    /// No route chosen.
    pub fn empty() -> (c: RouteChoice<S>)
        ensures
            c.name is None,
            c.function_call is None,
            c.similarity_score is None,
    {
        RouteChoice { name: None, function_call: None, similarity_score: None }
    }

    /// The route `name`, chosen with `score`.
    pub fn named(name: &str, score: S) -> (c: RouteChoice<S>)
        ensures
            c.name matches Some(n) && n@ == name@,
            c.function_call is None,
            c.similarity_score == Some(score),
    {
        RouteChoice { name: Some(owned(name)), function_call: None, similarity_score: Some(score) }
    }
}

impl<S> Default for RouteChoice<S> {
    /// No route chosen.
    fn default() -> (c: RouteChoice<S>)
        ensures
            c.name is None,
            c.function_call is None,
            c.similarity_score is None,
    {
        RouteChoice::empty()
    }
}

/// A sparse vector: the indices of its non-zero entries and their values.
/// `S` is the value type (the encoders use `f32`).
#[derive(Debug, Clone)]
pub struct SparseEmbedding<S> {
    pub indices: Vec<u32>,
    pub values: Vec<S>,
}

/// The map of a sparse vector's pairs, index to value, for its first `n`
/// pairs (a later pair of the same index replaces an earlier one).
pub open spec fn pairs_map<S>(indices: Seq<u32>, values: Seq<S>, n: int) -> Map<u32, S>
    decreases n,
{
    if n <= 0 {
        Map::empty()
    } else {
        pairs_map(indices, values, n - 1).insert(indices[n - 1], values[n - 1])
    }
}

impl<S: Copy> SparseEmbedding<S> {
    /// The entries as a map from index to value (pairs beyond the shorter of
    /// the two lists are ignored; a repeated index keeps its last value).
    pub fn to_map(&self) -> (m: BTreeMap<u32, S>)
        ensures
            m@ == pairs_map(
                self.indices@,
                self.values@,
                if self.indices@.len() < self.values@.len() {
                    self.indices@.len() as int
                } else {
                    self.values@.len() as int
                },
            ),
    {
        let n = if self.indices.len() < self.values.len() {
            self.indices.len()
        } else {
            self.values.len()
        };
        let mut m: BTreeMap<u32, S> = BTreeMap::new();
        let mut i: usize = 0;
        while i < n
            invariant
                i <= n,
                n <= self.indices@.len(),
                n <= self.values@.len(),
                m@ == pairs_map(self.indices@, self.values@, i as int),
            decreases n - i,
        {
            m.insert(self.indices[i], self.values[i]);
            i = i + 1;
        }
        m
    }
}

/// One stored utterance with its dense (and, in hybrid indexes, sparse)
/// embedding. `S` is the value type (the encoders use `f32`).
#[derive(Debug, Clone)]
pub struct UtteranceRecord<S> {
    pub route: String,
    pub utterance: String,
    pub embedding: Vec<S>,
    pub sparse: Option<SparseEmbedding<S>>,
    pub metadata: BTreeMap<String, serde_json::Value>,
    pub function_schemas: Option<Vec<serde_json::Value>>,
}

/// The utterance a record stands for: its route and text, and with
/// `include_metadata` its metadata and function schemas.
pub open spec fn record_utterance<S>(r: UtteranceRecord<S>, include_metadata: bool, u: Utterance) -> bool {
    &&& u.route@ == r.route@
    &&& u.utterance@ == r.utterance@
    &&& u.diff_tag@ == " "@
    &&& if include_metadata {
        u.metadata == r.metadata && u.function_schemas == r.function_schemas
    } else {
        u.metadata@ == Map::<String, serde_json::Value>::empty() && u.function_schemas is None
    }
}

impl<S> UtteranceRecord<S> {
    /// The utterance this record stands for (see [`record_utterance`]).
    pub fn to_utterance(&self, include_metadata: bool) -> (u: Utterance)
        ensures
            record_utterance(*self, include_metadata, u),
    {
        let mut u = Utterance::new(self.route.as_str(), self.utterance.as_str());
        if include_metadata {
            u.metadata = copy_metadata(&self.metadata);
            u.function_schemas = match &self.function_schemas {
                Some(s) => Some(copy_json_values(s)),
                None => None,
            };
        }
        u
    }
}

/// A configuration parameter of a remote index.
#[derive(Debug, Clone, PartialEq, Eq)]
pub struct ConfigParameter {
    pub field: String,
    pub value: String,
    pub scope: Option<String>,
}

} // verus!
