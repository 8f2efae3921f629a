//! The probe's model allowlist and the catalog id → LocalAI `name:` mapping.
//!
//! jina-embeddings-v3 and NV-Embed-v2 are in the library catalog but not in
//! this allowlist (non-commercial weights). Qwen3-Embedding-0.6B is also
//! omitted.

use vstd::prelude::*;

use super::{mode_name, CliError, EmbedMode};
use crate::encoder::models::{
    catalog_entry, resolve_dense_model, GTE_QWEN2_7B_INSTRUCT_ID, JINA_EMBEDDINGS_V3_ID,
    NEMOTRON_3_EMBED_1B_ID, NV_EMBED_V2_ID, QWEN3_EMBEDDING_0_6B_ID, QWEN3_EMBEDDING_8B_ID,
    QWEN3_VL_EMBEDDING_2B_ID, QWEN3_VL_EMBEDDING_8B_ID,
};
use crate::text::{
    contains_text, join, lacks_char, lemma_contains_text_in_part, lemma_contains_text_split,
    lemma_lacking_char_excludes, lemma_lacks_char_concat, lemma_lacks_char_join, push_joined, push_str,
    str_eq, views,
};

verus! {

/// Catalog ids allowed in `--mode text`.
pub const TEXT_CATALOG_IDS: [&'static str; 7] = [
    "nomic-embed-text-v1.5",
    "bge-m3",
    "bge-small-en-v1.5",
    NEMOTRON_3_EMBED_1B_ID,
    QWEN3_VL_EMBEDDING_2B_ID,
    QWEN3_EMBEDDING_8B_ID,
    GTE_QWEN2_7B_INSTRUCT_ID,
];

/// Catalog ids allowed in `--mode multimodal`.
pub const MULTIMODAL_CATALOG_IDS: [&'static str; 2] = [
    QWEN3_VL_EMBEDDING_2B_ID,
    QWEN3_VL_EMBEDDING_8B_ID,
];

/// The ids each mode allows.
pub open spec fn allowed(mode: EmbedMode) -> Seq<Seq<char>> {
    match mode {
        EmbedMode::Text => seq![
            "nomic-embed-text-v1.5"@,
            "bge-m3"@,
            "bge-small-en-v1.5"@,
            NEMOTRON_3_EMBED_1B_ID@,
            QWEN3_VL_EMBEDDING_2B_ID@,
            QWEN3_EMBEDDING_8B_ID@,
            GTE_QWEN2_7B_INSTRUCT_ID@,
        ],
        EmbedMode::Multimodal => seq![QWEN3_VL_EMBEDDING_2B_ID@, QWEN3_VL_EMBEDDING_8B_ID@],
    }
}

/// The ids allowed in `mode`.
pub fn allowed_ids(mode: EmbedMode) -> (r: &'static [&'static str])
    ensures
        views(r@) == allowed(mode),
{
    match mode {
        EmbedMode::Text => {
            let r: &'static [&'static str] = &TEXT_CATALOG_IDS;
            assert(views(r@) =~= allowed(mode));
            r
        },
        EmbedMode::Multimodal => {
            let r: &'static [&'static str] = &MULTIMODAL_CATALOG_IDS;
            assert(views(r@) =~= allowed(mode));
            r
        },
    }
}

/// The LocalAI YAML `name:` the probe sends for a catalog id.
pub open spec fn localai_name(catalog_id: Seq<char>) -> Option<Seq<char>> {
    if catalog_id == "nomic-embed-text-v1.5"@ {
        Some("nomic-embed-text-v1.5"@)
    } else if catalog_id == "bge-m3"@ {
        Some("bge-m3"@)
    } else if catalog_id == "bge-small-en-v1.5"@ {
        Some("bge-small-en-v1.5"@)
    } else if catalog_id == NEMOTRON_3_EMBED_1B_ID@ {
        Some("nemotron-3-embed-1b"@)
    } else if catalog_id == QWEN3_VL_EMBEDDING_2B_ID@ {
        Some("qwen3-vl-embedding-2b"@)
    } else if catalog_id == QWEN3_EMBEDDING_8B_ID@ {
        Some("qwen3-embedding-8b"@)
    } else if catalog_id == GTE_QWEN2_7B_INSTRUCT_ID@ {
        Some("gte-qwen2-7b-instruct"@)
    } else if catalog_id == QWEN3_VL_EMBEDDING_8B_ID@ {
        Some("qwen3-vl-embedding-8b"@)
    } else {
        None
    }
}

/// Maps a catalog id to the LocalAI YAML `name:` this probe sends.
///
/// `--model` still accepts catalog ids and library aliases via
/// `resolve_dense_model`.
pub fn localai_name_for_catalog_id(catalog_id: &str) -> (r: Option<&'static str>)
    ensures
        match r {
            Some(n) => localai_name(catalog_id@) == Some(n@),
            None => localai_name(catalog_id@) is None,
        },
{
    if str_eq(catalog_id, "nomic-embed-text-v1.5") {
        Some("nomic-embed-text-v1.5")
    } else if str_eq(catalog_id, "bge-m3") {
        Some("bge-m3")
    } else if str_eq(catalog_id, "bge-small-en-v1.5") {
        Some("bge-small-en-v1.5")
    } else if str_eq(catalog_id, NEMOTRON_3_EMBED_1B_ID) {
        Some("nemotron-3-embed-1b")
    } else if str_eq(catalog_id, QWEN3_VL_EMBEDDING_2B_ID) {
        Some("qwen3-vl-embedding-2b")
    } else if str_eq(catalog_id, QWEN3_EMBEDDING_8B_ID) {
        Some("qwen3-embedding-8b")
    } else if str_eq(catalog_id, GTE_QWEN2_7B_INSTRUCT_ID) {
        Some("gte-qwen2-7b-instruct")
    } else if str_eq(catalog_id, QWEN3_VL_EMBEDDING_8B_ID) {
        Some("qwen3-vl-embedding-8b")
    } else {
        None
    }
}

/// A model accepted for a mode: its catalog id, native width and LocalAI name.
#[derive(Debug, Clone, Copy, PartialEq, Eq)]
pub struct ResolvedModel {
    pub catalog_id: &'static str,
    pub dimensions: usize,
    /// LocalAI YAML `name:` / request `model` field (short alias).
    pub localai_name: &'static str,
}

/// Whether `id` is one of `items`.
fn contains_id(items: &[&str], id: &str) -> (r: bool)
    ensures
        r == views(items@).contains(id@),
{
    let ghost all = views(items@);
    let mut i: usize = 0;
    while i < items.len()
        invariant
            i <= items@.len(),
            all == views(items@),
            forall|j: int| 0 <= j < i ==> all[j] != id@,
        decreases items.len() - i,
    {
        if str_eq(items[i], id) {
            assert(all[i as int] == id@);
            return true;
        }
        i = i + 1;
    }
    false
}

/// The ids that are in the catalog but left out of the probe on purpose.
pub open spec fn is_omitted(catalog_id: Seq<char>) -> bool {
    catalog_id == "jinaai/jina-embeddings-v3"@ || catalog_id == "nvidia/NV-Embed-v2"@
        || catalog_id == "Qwen/Qwen3-Embedding-0.6B"@
}

/// The other mode.
pub open spec fn other_mode(mode: EmbedMode) -> EmbedMode {
    match mode {
        EmbedMode::Text => EmbedMode::Multimodal,
        EmbedMode::Multimodal => EmbedMode::Text,
    }
}

/// `. <mode> mode allows: <ids>`
pub open spec fn allows_suffix(mode: EmbedMode) -> Seq<char> {
    ". "@ + mode_name(mode) + " mode allows: "@ + join(allowed(mode), ", "@)
}

/// The message for a name that is not in the catalog at all.
pub open spec fn unknown_model_text(raw: Seq<char>, mode: EmbedMode) -> Seq<char> {
    "unknown model `"@ + raw + "`"@ + allows_suffix(mode)
}

/// The message for a catalog model that `mode` does not allow.
pub open spec fn mode_mismatch_text(raw: Seq<char>, catalog_id: Seq<char>, mode: EmbedMode) -> Seq<char> {
    "model `"@ + raw + "` ("@ + catalog_id + ")"@ + refusal_reason(catalog_id, mode) + allows_suffix(mode)
}

/// The clause that says why a catalog model is refused in `mode`: it is
/// left out of the probe, or only the other mode allows it (and the message
/// names that mode), or neither mode does.
pub open spec fn refusal_reason(catalog_id: Seq<char>, mode: EmbedMode) -> Seq<char> {
    if is_omitted(catalog_id) {
        " is "@ + omitted_phrase()
            + " (jina-v3 and NV-Embed-v2 are omitted; Qwen3-Embedding-0.6B is not a Capa 1 LocalAI probe target)"@
    } else if allowed(other_mode(mode)).contains(catalog_id) {
        " is not allowed in "@ + mode_name(mode) + " mode; use --mode "@ + mode_name(other_mode(mode))
    } else {
        " is not allowed in "@ + mode_name(mode) + " mode"@
    }
}

/// The message for an allowed id without a LocalAI name.
pub open spec fn unmapped_text(catalog_id: Seq<char>) -> Seq<char> {
    "model `"@ + catalog_id + "` has no LocalAI name mapping in this CLI"@
}

fn push_allows_suffix(out: &mut String, mode: EmbedMode)
    ensures
        final(out)@ == old(out)@ + allows_suffix(mode),
{
    push_str(out, ". ");
    push_str(out, mode.as_str());
    push_str(out, " mode allows: ");
    push_joined(out, allowed_ids(mode), ", ");
}

fn mode_mismatch_error(raw: &str, catalog_id: &str, mode: EmbedMode) -> (e: CliError)
    ensures
        e matches CliError::Usage(m) && m@ == mode_mismatch_text(raw@, catalog_id@, mode),
{
    let other = match mode {
        EmbedMode::Text => EmbedMode::Multimodal,
        EmbedMode::Multimodal => EmbedMode::Text,
    };
    let in_other = contains_id(allowed_ids(other), catalog_id);
    let omitted = str_eq(catalog_id, "jinaai/jina-embeddings-v3") || str_eq(
        catalog_id,
        "nvidia/NV-Embed-v2",
    ) || str_eq(catalog_id, "Qwen/Qwen3-Embedding-0.6B");
    let mut msg = crate::text::owned("model `");
    push_str(&mut msg, raw);
    push_str(&mut msg, "` (");
    push_str(&mut msg, catalog_id);
    push_str(&mut msg, ")");
    if omitted {
        push_str(&mut msg, " is ");
        push_str(&mut msg, "not in this CLI allowlist");
        push_str(
            &mut msg,
            " (jina-v3 and NV-Embed-v2 are omitted; Qwen3-Embedding-0.6B is not a Capa 1 LocalAI probe target)",
        );
    } else if in_other {
        push_str(&mut msg, " is not allowed in ");
        push_str(&mut msg, mode.as_str());
        push_str(&mut msg, " mode; use --mode ");
        push_str(&mut msg, other.as_str());
    } else {
        push_str(&mut msg, " is not allowed in ");
        push_str(&mut msg, mode.as_str());
        push_str(&mut msg, " mode");
    }
    push_allows_suffix(&mut msg, mode);
    assert(msg@ =~= mode_mismatch_text(raw@, catalog_id@, mode));
    CliError::Usage(msg)
}

/// What `resolve_cli_model` gives for `raw` in `mode`: the resolved model
/// (catalog id, width, LocalAI name) or the usage message.
pub open spec fn cli_model_outcome(raw: Seq<char>, mode: EmbedMode) -> Result<
    (Seq<char>, nat, Seq<char>),
    Seq<char>,
> {
    match catalog_entry(raw) {
        None => Err(unknown_model_text(raw, mode)),
        Some((id, dims)) => if !allowed(mode).contains(id) {
            Err(mode_mismatch_text(raw, id, mode))
        } else {
            match localai_name(id) {
                Some(n) => Ok((id, dims, n)),
                None => Err(unmapped_text(id)),
            }
        },
    }
}

/// Resolves `--model` for `--mode`: the name must be in the catalog, its
/// entry allowed in the mode, and mapped to a LocalAI name.
pub fn resolve_cli_model(raw: &str, mode: EmbedMode) -> (r: Result<ResolvedModel, CliError>)
    ensures
        match cli_model_outcome(raw@, mode) {
            Ok((id, dims, n)) => r matches Ok(m) && m.catalog_id@ == id && m.dimensions == dims
                && m.localai_name@ == n,
            Err(t) => r matches Err(CliError::Usage(m)) && m@ == t,
        },
{
    let spec = match resolve_dense_model(raw) {
        Some(s) => s,
        None => {
            let mut msg = crate::text::owned("unknown model `");
            push_str(&mut msg, raw);
            push_str(&mut msg, "`");
            push_allows_suffix(&mut msg, mode);
            assert(msg@ =~= unknown_model_text(raw@, mode));
            return Err(CliError::Usage(msg));
        },
    };
    let allowed_list = allowed_ids(mode);
    if !contains_id(allowed_list, spec.id) {
        return Err(mode_mismatch_error(raw, spec.id, mode));
    }
    let localai_name = match localai_name_for_catalog_id(spec.id) {
        Some(n) => n,
        None => {
            let mut msg = crate::text::owned("model `");
            push_str(&mut msg, spec.id);
            push_str(&mut msg, "` has no LocalAI name mapping in this CLI");
            assert(msg@ =~= unmapped_text(spec.id@));
            return Err(CliError::Usage(msg));
        },
    };
    Ok(ResolvedModel { catalog_id: spec.id, dimensions: spec.dimensions, localai_name })
}

/// Every id that either mode allows has a LocalAI name, so an allowed model
/// always resolves: the "no LocalAI name mapping" error never happens.
pub proof fn lemma_allowed_ids_are_mapped(mode: EmbedMode, id: Seq<char>)
    requires
        allowed(mode).contains(id),
    ensures
        localai_name(id) is Some,
{
    let i = choose|i: int| 0 <= i < allowed(mode).len() && allowed(mode)[i] == id;
    match mode {
        EmbedMode::Text => {
            assert(0 <= i < 7);
        },
        EmbedMode::Multimodal => {
            assert(0 <= i < 2);
        },
    }
}

/// A model the probe accepts is one its mode allows, with the catalog's
/// native width and the LocalAI name of its catalog id.
pub proof fn lemma_resolved_model_is_allowed(raw: Seq<char>, mode: EmbedMode)
    requires
        cli_model_outcome(raw, mode) is Ok,
    ensures
        ({
            let (id, dims, n) = cli_model_outcome(raw, mode)->Ok_0;
            &&& allowed(mode).contains(id)
            &&& catalog_entry(raw) == Some((id, dims))
            &&& localai_name(id) == Some(n)
        }),
{
}

/// A catalog model that its mode allows is always accepted.
pub proof fn lemma_allowed_catalog_model_resolves(raw: Seq<char>, mode: EmbedMode)
    requires
        catalog_entry(raw) matches Some((id, _)) && allowed(mode).contains(id),
    ensures
        cli_model_outcome(raw, mode) is Ok,
{
    let (id, dims) = catalog_entry(raw)->Some_0;
    lemma_allowed_ids_are_mapped(mode, id);
}

/// The LocalAI name mapping covers exactly the ids that one of the two modes
/// allows.
pub proof fn lemma_localai_names_cover_allowlist(id: Seq<char>)
    ensures
        localai_name(id) is Some <==> (allowed(EmbedMode::Text).contains(id) || allowed(
            EmbedMode::Multimodal,
        ).contains(id)),
{
    let t = allowed(EmbedMode::Text);
    let m = allowed(EmbedMode::Multimodal);
    if localai_name(id) is Some {
        if id == "nomic-embed-text-v1.5"@ {
            assert(t[0] == id);
        } else if id == "bge-m3"@ {
            assert(t[1] == id);
        } else if id == "bge-small-en-v1.5"@ {
            assert(t[2] == id);
        } else if id == NEMOTRON_3_EMBED_1B_ID@ {
            assert(t[3] == id);
        } else if id == QWEN3_VL_EMBEDDING_2B_ID@ {
            assert(t[4] == id);
        } else if id == QWEN3_EMBEDDING_8B_ID@ {
            assert(t[5] == id);
        } else if id == GTE_QWEN2_7B_INSTRUCT_ID@ {
            assert(t[6] == id);
        } else {
            assert(m[1] == id);
        }
    }
    if t.contains(id) {
        lemma_allowed_ids_are_mapped(EmbedMode::Text, id);
    }
    if m.contains(id) {
        lemma_allowed_ids_are_mapped(EmbedMode::Multimodal, id);
    }
}

/// The catalog id whose LocalAI name is `n`.
spec fn id_for_localai_name(n: Seq<char>) -> Seq<char> {
    if n == "nomic-embed-text-v1.5"@ {
        "nomic-embed-text-v1.5"@
    } else if n == "bge-m3"@ {
        "bge-m3"@
    } else if n == "bge-small-en-v1.5"@ {
        "bge-small-en-v1.5"@
    } else if n == "nemotron-3-embed-1b"@ {
        NEMOTRON_3_EMBED_1B_ID@
    } else if n == "qwen3-vl-embedding-2b"@ {
        QWEN3_VL_EMBEDDING_2B_ID@
    } else if n == "qwen3-embedding-8b"@ {
        QWEN3_EMBEDDING_8B_ID@
    } else if n == "gte-qwen2-7b-instruct"@ {
        GTE_QWEN2_7B_INSTRUCT_ID@
    } else {
        QWEN3_VL_EMBEDDING_8B_ID@
    }
}

proof fn lemma_localai_name_inverse(id: Seq<char>)
    requires
        localai_name(id) is Some,
    ensures
        id_for_localai_name(localai_name(id)->Some_0) == id,
{
    reveal_strlit("nomic-embed-text-v1.5");
    reveal_strlit("bge-m3");
    reveal_strlit("bge-small-en-v1.5");
    reveal_strlit("nemotron-3-embed-1b");
    reveal_strlit("qwen3-vl-embedding-2b");
    reveal_strlit("qwen3-embedding-8b");
    reveal_strlit("gte-qwen2-7b-instruct");
    reveal_strlit("qwen3-vl-embedding-8b");
    let n = localai_name(id)->Some_0;
    if n == "qwen3-vl-embedding-8b"@ {
        assert(n[0] != "nomic-embed-text-v1.5"@[0]);
        assert(n.len() != "bge-m3"@.len());
        assert(n.len() != "bge-small-en-v1.5"@.len());
        assert(n.len() != "nemotron-3-embed-1b"@.len());
        assert(n[19] != "qwen3-vl-embedding-2b"@[19]);
        assert(n.len() != "qwen3-embedding-8b"@.len());
        assert(n[0] != "gte-qwen2-7b-instruct"@[0]);
    } else if n == "gte-qwen2-7b-instruct"@ {
        assert(n[0] != "nomic-embed-text-v1.5"@[0]);
        assert(n.len() != "bge-m3"@.len());
        assert(n.len() != "bge-small-en-v1.5"@.len());
        assert(n.len() != "nemotron-3-embed-1b"@.len());
        assert(n[0] != "qwen3-vl-embedding-2b"@[0]);
        assert(n.len() != "qwen3-embedding-8b"@.len());
    } else if n == "qwen3-embedding-8b"@ {
        assert(n.len() != "nomic-embed-text-v1.5"@.len());
        assert(n.len() != "bge-m3"@.len());
        assert(n.len() != "bge-small-en-v1.5"@.len());
        assert(n.len() != "nemotron-3-embed-1b"@.len());
        assert(n.len() != "qwen3-vl-embedding-2b"@.len());
    } else if n == "qwen3-vl-embedding-2b"@ {
        assert(n[0] != "nomic-embed-text-v1.5"@[0]);
        assert(n.len() != "bge-m3"@.len());
        assert(n.len() != "bge-small-en-v1.5"@.len());
        assert(n.len() != "nemotron-3-embed-1b"@.len());
    } else if n == "nemotron-3-embed-1b"@ {
        assert(n.len() != "nomic-embed-text-v1.5"@.len());
        assert(n.len() != "bge-m3"@.len());
        assert(n.len() != "bge-small-en-v1.5"@.len());
    } else if n == "bge-small-en-v1.5"@ {
        assert(n.len() != "nomic-embed-text-v1.5"@.len());
        assert(n.len() != "bge-m3"@.len());
    } else if n == "bge-m3"@ {
        assert(n.len() != "nomic-embed-text-v1.5"@.len());
    }
}

/// Distinct ids get distinct LocalAI names: each allowlisted id resolves to
/// a name of its own.
pub proof fn lemma_localai_names_distinct(a: Seq<char>, b: Seq<char>)
    requires
        localai_name(a) is Some,
        localai_name(a) == localai_name(b),
    ensures
        a == b,
{
    lemma_localai_name_inverse(a);
    lemma_localai_name_inverse(b);
}

/// A catalog model that `mode` does not allow is refused with a usage
/// message made of the name as given and its catalog id, the reason (left
/// out of the probe; allowed only in the other mode, which it names; or
/// allowed in neither), and, at its end, the list of ids `mode` allows.
pub proof fn lemma_mode_mismatch_message(raw: Seq<char>, mode: EmbedMode)
    requires
        catalog_entry(raw) matches Some((id, _)) && !allowed(mode).contains(id),
    ensures
        ({
            let id = catalog_entry(raw)->Some_0.0;
            let head = "model `"@ + raw + "` ("@ + id + ")"@;
            let tail = allows_suffix(mode);
            let m = head + refusal_reason(id, mode) + tail;
            &&& cli_model_outcome(raw, mode) == Err::<(Seq<char>, nat, Seq<char>), Seq<char>>(m)
            &&& m.subrange(m.len() - tail.len(), m.len() as int) == tail
            &&& m.subrange(0, head.len() as int) == head
        }),
{
    let id = catalog_entry(raw)->Some_0.0;
    let head = "model `"@ + raw + "` ("@ + id + ")"@;
    let tail = allows_suffix(mode);
    let m = head + refusal_reason(id, mode) + tail;
    assert(m.subrange(m.len() - tail.len(), m.len() as int) =~= tail);
    assert(m.subrange(0, head.len() as int) =~= head);
}

/// The phrase of the message for an id left out of the probe.
pub open spec fn omitted_phrase() -> Seq<char> {
    "not in this CLI allowlist"@
}

/// The phrase that sends the user to `mode`.
pub open spec fn use_mode_phrase(mode: EmbedMode) -> Seq<char> {
    "use --mode "@ + mode_name(mode)
}

/// The ids of the catalog hold neither a space nor a `C`.
proof fn lemma_catalog_id_chars(raw: Seq<char>)
    requires
        catalog_entry(raw) is Some,
    ensures
        lacks_char(catalog_entry(raw)->Some_0.0, ' '),
        lacks_char(catalog_entry(raw)->Some_0.0, 'C'),
{
    reveal_strlit("nomic-embed-text-v1.5");
    reveal_strlit("bge-m3");
    reveal_strlit("bge-small-en-v1.5");
    reveal_strlit("nvidia/Nemotron-3-Embed-1B-BF16");
    reveal_strlit("Qwen/Qwen3-Embedding-0.6B");
    reveal_strlit("Qwen/Qwen3-Embedding-8B");
    reveal_strlit("jinaai/jina-embeddings-v3");
    reveal_strlit("nvidia/NV-Embed-v2");
    reveal_strlit("Qwen/Qwen3-VL-Embedding-2B");
    reveal_strlit("Qwen/Qwen3-VL-Embedding-8B");
    reveal_strlit("Alibaba-NLP/gte-Qwen2-7B-instruct");
}

/// Every id of the catalog is left out of the probe or allowed in a mode.
proof fn lemma_catalog_id_placed(raw: Seq<char>)
    requires
        catalog_entry(raw) is Some,
    ensures
        ({
            let id = catalog_entry(raw)->Some_0.0;
            is_omitted(id) || allowed(EmbedMode::Text).contains(id) || allowed(
                EmbedMode::Multimodal,
            ).contains(id)
        }),
{
    let id = catalog_entry(raw)->Some_0.0;
    let t = allowed(EmbedMode::Text);
    let m = allowed(EmbedMode::Multimodal);
    if id == t[0] || id == t[1] || id == t[2] || id == t[3] || id == t[4] || id == t[5] || id == t[6] {
    } else if id == m[0] || id == m[1] {
    } else {
        reveal_strlit("Qwen/Qwen3-Embedding-0.6B");
        reveal_strlit("jinaai/jina-embeddings-v3");
        reveal_strlit("nvidia/NV-Embed-v2");
    }
}

/// Past the catalog id, a message for a non-omitted id holds no `C`.
proof fn lemma_reason_and_suffix_lack_c(id: Seq<char>, mode: EmbedMode)
    requires
        !is_omitted(id),
    ensures
        lacks_char(refusal_reason(id, mode) + allows_suffix(mode), 'C'),
{
    reveal_strlit(" is not allowed in ");
    reveal_strlit(" mode; use --mode ");
    reveal_strlit(" mode");
    reveal_strlit(". ");
    reveal_strlit(" mode allows: ");
    reveal_strlit(", ");
    reveal_strlit("text");
    reveal_strlit("multimodal");
    reveal_strlit("nomic-embed-text-v1.5");
    reveal_strlit("bge-m3");
    reveal_strlit("bge-small-en-v1.5");
    reveal_strlit("nvidia/Nemotron-3-Embed-1B-BF16");
    reveal_strlit("Qwen/Qwen3-Embedding-8B");
    reveal_strlit("Qwen/Qwen3-VL-Embedding-2B");
    reveal_strlit("Qwen/Qwen3-VL-Embedding-8B");
    reveal_strlit("Alibaba-NLP/gte-Qwen2-7B-instruct");
    let items = allowed(mode);
    assert forall|i: int| 0 <= i < items.len() implies lacks_char(#[trigger] items[i], 'C') by {}
    lemma_lacks_char_join(items, ", "@, 'C');
    let mn = mode_name(mode);
    let mo = mode_name(other_mode(mode));
    lemma_lacks_char_concat(". "@, mn, 'C');
    lemma_lacks_char_concat(". "@ + mn, " mode allows: "@, 'C');
    lemma_lacks_char_concat(". "@ + mn + " mode allows: "@, join(items, ", "@), 'C');
    lemma_lacks_char_concat(" is not allowed in "@, mn, 'C');
    lemma_lacks_char_concat(" is not allowed in "@ + mn, " mode; use --mode "@, 'C');
    lemma_lacks_char_concat(" is not allowed in "@ + mn + " mode; use --mode "@, mo, 'C');
    lemma_lacks_char_concat(" is not allowed in "@ + mn, " mode"@, 'C');
    lemma_lacks_char_concat(refusal_reason(id, mode), allows_suffix(mode), 'C');
}

/// The two phrases hold no backtick and no parenthesis; each holds a space,
/// and the first a `C`.
proof fn lemma_phrase_chars(mode: EmbedMode)
    ensures
        !omitted_phrase().contains('`'),
        !omitted_phrase().contains('('),
        !omitted_phrase().contains(')'),
        omitted_phrase().contains(' '),
        omitted_phrase().contains('C'),
        !use_mode_phrase(mode).contains('`'),
        !use_mode_phrase(mode).contains('('),
        !use_mode_phrase(mode).contains(')'),
        use_mode_phrase(mode).contains(' '),
{
    reveal_strlit("not in this CLI allowlist");
    reveal_strlit("use --mode ");
    reveal_strlit("text");
    reveal_strlit("multimodal");
    let p = omitted_phrase();
    let q = use_mode_phrase(mode);
    assert(p[3] == ' ');
    assert(p[12] == 'C');
    assert(q[3] == ' ');
    assert(lacks_char(q, '`'));
    assert(lacks_char(q, '('));
    assert(lacks_char(q, ')'));
}

/// Where the name as given holds `p`, and the catalog id holds no space
/// while `p` holds one (and no backtick or parenthesis), a mismatch message
/// holds `p` exactly when the part after the catalog id does.
proof fn lemma_message_phrase_in_tail(raw: Seq<char>, id: Seq<char>, mode: EmbedMode, p: Seq<char>)
    requires
        !contains_text(raw, p),
        lacks_char(id, ' '),
        p.contains(' '),
        !p.contains('`'),
        !p.contains('('),
        !p.contains(')'),
        p.len() > 6,
    ensures
        contains_text(mode_mismatch_text(raw, id, mode), p) <==> contains_text(
            refusal_reason(id, mode) + allows_suffix(mode),
            p,
        ),
{
    reveal_strlit("model `");
    reveal_strlit("` (");
    reveal_strlit(")");
    let tail = refusal_reason(id, mode) + allows_suffix(mode);
    let b3 = id + seq![')'] + tail;
    let b2 = seq![' '] + seq!['('] + b3;
    let b1 = raw + seq!['`'] + b2;
    let m = mode_mismatch_text(raw, id, mode);
    reveal_strlit("model ");
    assert("model `"@ =~= "model "@ + seq!['`']);
    assert("` ("@ =~= seq!['`'] + seq![' '] + seq!['(']);
    assert(")"@ =~= seq![')']);
    assert(m =~= "model "@ + seq!['`'] + b1);
    let head = "model `"@ + raw + "` ("@ + id + ")"@;
    assert(m =~= head + tail);
    lemma_contains_text_in_part(head, tail, p);
    if contains_text(m, p) {
        lemma_contains_text_split("model "@, '`', b1, p);
        lemma_contains_text_split(raw, '`', b2, p);
        lemma_contains_text_split(seq![' '], '(', b3, p);
        lemma_contains_text_split(id, ')', tail, p);
        lemma_lacking_char_excludes(id, p, ' ');
    }
}

/// For a name that holds neither phrase and whose catalog model `mode` does
/// not allow, the message says the model is left out of this allowlist
/// exactly when it is one of the omitted ids; otherwise it sends the user
/// to the other mode exactly when that mode allows the model.
pub proof fn lemma_mode_mismatch_phrases(raw: Seq<char>, mode: EmbedMode)
    requires
        catalog_entry(raw) matches Some((id, _)) && !allowed(mode).contains(id),
        !contains_text(raw, omitted_phrase()),
        !contains_text(raw, use_mode_phrase(other_mode(mode))),
    ensures
        ({
            let id = catalog_entry(raw)->Some_0.0;
            let m = mode_mismatch_text(raw, id, mode);
            &&& cli_model_outcome(raw, mode) == Err::<(Seq<char>, nat, Seq<char>), Seq<char>>(m)
            &&& contains_text(m, omitted_phrase()) <==> is_omitted(id)
            &&& !is_omitted(id) ==> (contains_text(m, use_mode_phrase(other_mode(mode)))
                <==> allowed(other_mode(mode)).contains(id))
        }),
{
    let id = catalog_entry(raw)->Some_0.0;
    let other = other_mode(mode);
    let tail = refusal_reason(id, mode) + allows_suffix(mode);
    let p1 = omitted_phrase();
    let p2 = use_mode_phrase(other);
    lemma_catalog_id_chars(raw);
    lemma_phrase_chars(other);
    reveal_strlit("not in this CLI allowlist");
    reveal_strlit("use --mode ");
    lemma_message_phrase_in_tail(raw, id, mode, p1);
    lemma_message_phrase_in_tail(raw, id, mode, p2);
    if is_omitted(id) {
        let r = refusal_reason(id, mode);
        let rest = " (jina-v3 and NV-Embed-v2 are omitted; Qwen3-Embedding-0.6B is not a Capa 1 LocalAI probe target)"@;
        assert(p1.subrange(0, p1.len() as int) =~= p1);
        assert(p1.subrange(0, 0 + p1.len() as int) == p1);
        assert(contains_text(p1, p1));
        lemma_contains_text_in_part(" is "@, p1, p1);
        assert(r == " is "@ + p1 + rest);
        lemma_contains_text_in_part(" is "@ + p1, rest, p1);
        lemma_contains_text_in_part(r, allows_suffix(mode), p1);
    } else {
        lemma_reason_and_suffix_lack_c(id, mode);
        lemma_lacking_char_excludes(tail, p1, 'C');
        lemma_catalog_id_placed(raw);
        assert(allowed(other).contains(id)) by {
            match mode {
                EmbedMode::Text => {},
                EmbedMode::Multimodal => {},
            }
        }
        let x = " is not allowed in "@ + mode_name(mode) + " mode; "@;
        reveal_strlit(" mode; use --mode ");
        reveal_strlit(" mode; ");
        assert(refusal_reason(id, mode) =~= x + p2);
        assert(p2.subrange(0, p2.len() as int) =~= p2);
        assert(p2.subrange(0, 0 + p2.len() as int) == p2);
        assert(contains_text(p2, p2));
        lemma_contains_text_in_part(x, p2, p2);
        lemma_contains_text_in_part(refusal_reason(id, mode), allows_suffix(mode), p2);
    }
}

} // verus!
