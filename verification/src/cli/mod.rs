//! The embeddings probe's own rules: which models each mode allows, how its
//! inputs are checked, and its error type. Argument parsing, file and network
//! I/O live in the binary.

pub mod allowlist;

use vstd::prelude::*;

use crate::error::{error_text, Error};
use crate::text::{
    ascii_lower, ascii_lowercase, char_is_whitespace, chars_eq, chars_of, is_white_space, join,
    owned, push_joined, push_str, views,
};

pub use allowlist::{
    allowed_ids, localai_name_for_catalog_id, resolve_cli_model, ResolvedModel,
    MULTIMODAL_CATALOG_IDS, TEXT_CATALOG_IDS,
};

verus! {

/// `text` (dense utterance models) or `multimodal` (Qwen3-VL-Embedding).
#[derive(Clone, Copy, Debug, PartialEq, Eq, Structural)]
pub enum EmbedMode {
    Text,
    Multimodal,
}

/// The name of a mode, as written on the command line.
pub open spec fn mode_name(mode: EmbedMode) -> Seq<char> {
    match mode {
        EmbedMode::Text => "text"@,
        EmbedMode::Multimodal => "multimodal"@,
    }
}

impl EmbedMode {
    /// The name of this mode, as written on the command line.
    pub fn as_str(self) -> (r: &'static str)
        ensures
            r@ == mode_name(self),
    {
        match self {
            EmbedMode::Text => "text",
            EmbedMode::Multimodal => "multimodal",
        }
    }
}

/// How the report is printed.
#[derive(Clone, Copy, Debug, PartialEq, Eq, Structural)]
pub enum OutputFormat {
    Json,
    Table,
}

/// Errors of the embeddings probe.
#[derive(Debug)]
pub enum CliError {
    /// Bad flags or inputs; the message says which.
    Usage(String),
    Io(std::io::Error),
    Router(Error),
}

/// `std::path::PathBuf`, carried opaquely (file and image paths).
#[verifier::external_type_specification]
#[verifier::external_body]
pub struct ExPathBuf(std::path::PathBuf);

/// The probe's flags, as the binary parses them from the command line.
#[derive(Debug)]
pub struct Cli {
    /// `text` (dense utterance models) or `multimodal` (Qwen3-VL-Embedding).
    pub mode: EmbedMode,
    /// Catalog id or alias (e.g. `bge-m3`, `Qwen/Qwen3-Embedding-8B`).
    pub model: String,
    /// Text to embed. Combined with `file`; otherwise stdin if it is not a TTY.
    pub text: Option<String>,
    /// UTF-8 file whose contents are the text to embed.
    pub file: Option<std::path::PathBuf>,
    /// Image files (repeatable). Multimodal only. Sent as data URLs.
    pub images: Vec<std::path::PathBuf>,
    /// LocalAI OpenAI base (`…/v1`). Request path is `{base}/embeddings`.
    pub base_url: String,
    /// LocalAI key; else `OPENAI_API_KEY`, then `LOCALAI_API_KEY`, else `sk-local`.
    pub api_key: Option<String>,
    pub output: OutputFormat,
    /// Include the full embedding vector in the output.
    pub full_vector: bool,
}

/// Default LocalAI base URL.
pub const DEFAULT_BASE_URL: &'static str = "http://127.0.0.1:8080/v1";
/// Default LocalAI key.
pub const DEFAULT_API_KEY: &'static str = "sk-local";

/// A text counts as given when something other than white space is left
/// after trimming it.
pub open spec fn has_text(text: Option<Seq<char>>) -> bool {
    match text {
        Some(t) => !is_blank(t),
        None => false,
    }
}

/// Every character of `t` is white space (so `t.trim()` is empty).
pub open spec fn is_blank(t: Seq<char>) -> bool {
    forall|i: int| 0 <= i < t.len() ==> #[trigger] is_white_space(t[i])
}

fn text_is_given(text: Option<&str>) -> (r: bool)
    ensures
        r == has_text(
            match text {
                Some(t) => Some(t@),
                None => None,
            },
        ),
{
    match text {
        None => false,
        Some(t) => {
            let cs = chars_of(t);
            let mut i: usize = 0;
            while i < cs.len()
                invariant
                    cs@ == t@,
                    text == Some(t),
                    i <= cs.len(),
                    forall|j: int| 0 <= j < i ==> is_white_space(cs@[j]),
                decreases cs.len() - i,
            {
                if !char_is_whitespace(cs[i]) {
                    assert(!is_white_space(t@[i as int]));
                    return true;
                }
                i = i + 1;
            }
            false
        },
    }
}

/// What `validate_inputs` answers: `None` when the inputs are usable, else
/// the usage message.
pub open spec fn input_problem(mode: EmbedMode, text: Option<Seq<char>>, n_images: nat) -> Option<Seq<char>> {
    if mode == EmbedMode::Text && n_images > 0 {
        Some("--image is not allowed in --mode text; use --mode multimodal"@)
    } else if mode == EmbedMode::Multimodal && !has_text(text) && n_images == 0 {
        Some("multimodal mode requires --text/--file/stdin and/or at least one --image"@)
    } else if mode == EmbedMode::Text && !has_text(text) {
        Some("text mode requires --text, --file, or stdin"@)
    } else {
        None
    }
}

/// Checks that the inputs fit the mode: text mode needs text and takes no
/// image; multimodal mode needs text, an image, or both.
pub fn validate_inputs(mode: EmbedMode, text: Option<&str>, images: &[std::path::PathBuf]) -> (r: Result<(), CliError>)
    ensures
        match input_problem(
            mode,
            match text {
                Some(t) => Some(t@),
                None => None,
            },
            images@.len(),
        ) {
            None => r is Ok,
            Some(m) => r matches Err(CliError::Usage(u)) && u@ == m,
        },
{
    if mode == EmbedMode::Text && images.len() != 0 {
        return Err(CliError::usage("--image is not allowed in --mode text; use --mode multimodal"));
    }
    let given = text_is_given(text);
    if mode == EmbedMode::Multimodal && !given && images.len() == 0 {
        return Err(
            CliError::usage(
                "multimodal mode requires --text/--file/stdin and/or at least one --image",
            ),
        );
    }
    if mode == EmbedMode::Text && !given {
        return Err(CliError::usage("text mode requires --text, --file, or stdin"));
    }
    Ok(())
}

/// The pieces of text to embed: `--text`, then the file's contents; when
/// there is neither, what stdin gave (the binary reads it only then), unless
/// it is blank.
pub open spec fn text_parts(text: Option<Seq<char>>, file: Option<Seq<char>>, stdin: Option<Seq<char>>) -> Seq<Seq<char>> {
    let given = match text {
        Some(t) => seq![t],
        None => Seq::empty(),
    } + match file {
        Some(f) => seq![f],
        None => Seq::empty(),
    };
    if given.len() > 0 {
        given
    } else {
        match stdin {
            Some(s) => if is_blank(s) {
                Seq::empty()
            } else {
                seq![s]
            },
            None => Seq::empty(),
        }
    }
}

/// The text to embed: the pieces joined by newlines, or none when there is
/// no piece.
pub open spec fn gathered_text(text: Option<Seq<char>>, file: Option<Seq<char>>, stdin: Option<Seq<char>>) -> Option<Seq<char>> {
    let parts = text_parts(text, file, stdin);
    if parts.len() == 0 {
        None
    } else {
        Some(join(parts, "\n"@))
    }
}

/// Puts together the text to embed from `--text`, the contents of `--file`
/// and, when both are absent, what was read from stdin.
pub fn gather_text(text: Option<&str>, file: Option<&str>, stdin: Option<&str>) -> (r: Option<String>)
    ensures
        match r {
            Some(s) => gathered_text(opt_str(text), opt_str(file), opt_str(stdin)) == Some(s@),
            None => gathered_text(opt_str(text), opt_str(file), opt_str(stdin)) is None,
        },
{
    let mut parts: Vec<&str> = Vec::new();
    if let Some(t) = text {
        parts.push(t);
    }
    if let Some(f) = file {
        parts.push(f);
    }
    if parts.len() == 0 {
        if let Some(s) = stdin {
            if text_is_given(Some(s)) {
                parts.push(s);
            }
        }
    }
    proof {
        let tp = text_parts(opt_str(text), opt_str(file), opt_str(stdin));
        assert(views(parts@) =~= tp);
    }
    if parts.len() == 0 {
        None
    } else {
        let mut out = String::new();
        push_joined(&mut out, parts.as_slice(), "\n");
        Some(out)
    }
}

/// An optional string as an optional character sequence.
pub open spec fn opt_str(s: Option<&str>) -> Option<Seq<char>> {
    match s {
        Some(t) => Some(t@),
        None => None,
    }
}

/// The API key to send: a non-empty `--api-key`, else a non-empty
/// `OPENAI_API_KEY`, else a non-empty `LOCALAI_API_KEY`, else `sk-local`.
pub open spec fn api_key_choice(flag: Option<Seq<char>>, openai_env: Option<Seq<char>>, localai_env: Option<Seq<char>>) -> Seq<char> {
    if flag matches Some(k) && k.len() > 0 {
        flag->Some_0
    } else if openai_env matches Some(k) && k.len() > 0 {
        openai_env->Some_0
    } else if localai_env matches Some(k) && k.len() > 0 {
        localai_env->Some_0
    } else {
        DEFAULT_API_KEY@
    }
}

/// Picks the API key from the flag and the values of `OPENAI_API_KEY` and
/// `LOCALAI_API_KEY` (which the binary reads from the environment).
pub fn choose_api_key(flag: Option<&str>, openai_env: Option<&str>, localai_env: Option<&str>) -> (r: String)
    ensures
        r@ == api_key_choice(
            match flag {
                Some(t) => Some(t@),
                None => None,
            },
            match openai_env {
                Some(t) => Some(t@),
                None => None,
            },
            match localai_env {
                Some(t) => Some(t@),
                None => None,
            },
        ),
{
    if let Some(k) = flag {
        if k.unicode_len() != 0 {
            return owned(k);
        }
    }
    if let Some(k) = openai_env {
        if k.unicode_len() != 0 {
            return owned(k);
        }
    }
    if let Some(k) = localai_env {
        if k.unicode_len() != 0 {
            return owned(k);
        }
    }
    owned(DEFAULT_API_KEY)
}

/// The MIME type sent for an image with the given file extension (compared
/// ASCII-case-insensitively); PNG when the extension is unknown or missing.
pub open spec fn mime_type(ext: Option<Seq<char>>) -> Seq<char> {
    match ext {
        Some(e) => {
            let l = ascii_lower(e);
            if l == "png"@ {
                "image/png"@
            } else if l == "jpg"@ || l == "jpeg"@ {
                "image/jpeg"@
            } else if l == "webp"@ {
                "image/webp"@
            } else if l == "gif"@ {
                "image/gif"@
            } else if l == "bmp"@ {
                "image/bmp"@
            } else {
                "image/png"@
            }
        },
        None => "image/png"@,
    }
}

/// The MIME type for an image file extension.
pub fn mime_for_extension(ext: Option<&str>) -> (r: &'static str)
    ensures
        r@ == mime_type(
            match ext {
                Some(e) => Some(e@),
                None => None,
            },
        ),
{
    match ext {
        None => "image/png",
        Some(e) => {
            let l = ascii_lowercase(e);
            if chars_eq(&l, "png") {
                "image/png"
            } else if chars_eq(&l, "jpg") || chars_eq(&l, "jpeg") {
                "image/jpeg"
            } else if chars_eq(&l, "webp") {
                "image/webp"
            } else if chars_eq(&l, "gif") {
                "image/gif"
            } else if chars_eq(&l, "bmp") {
                "image/bmp"
            } else {
                "image/png"
            }
        },
    }
}

/// The extension that `std::path::Path::extension` finds in the path
/// written `path` (the part of the file name after its last `.`, when the
/// name neither starts with that dot nor lacks one), as the platform the
/// library is built for splits paths.
pub uninterp spec fn path_extension_of(path: Seq<char>) -> Option<Seq<char>>;

/// `Path::new(path).extension()`, as text. The contract claims only that the
/// result is the extension std finds in this path (a function of the path
/// alone); which characters that is, is not restated here.
#[verifier::external_body]
fn path_extension(path: &str) -> (r: Option<String>)
    ensures
        match r {
            Some(e) => path_extension_of(path@) == Some(e@),
            None => path_extension_of(path@) is None,
        },
{
    std::path::Path::new(path).extension().and_then(|e| e.to_str()).map(|e| e.to_string())
}

/// The MIME type for an image file, from its extension.
pub fn mime_for_path(path: &str) -> (r: &'static str)
    ensures
        r@ == mime_type(path_extension_of(path@)),
{
    let ext = path_extension(path);
    match ext {
        Some(e) => mime_for_extension(Some(e.as_str())),
        None => mime_for_extension(None),
    }
}

/// The character of a 6-bit value in the standard base64 alphabet
/// (`A`–`Z`, `a`–`z`, `0`–`9`, `+`, `/`).
pub open spec fn b64_digit(v: int) -> char {
    if v < 26 {
        (65 + v) as char
    } else if v < 52 {
        (97 + v - 26) as char
    } else if v < 62 {
        (48 + v - 52) as char
    } else if v == 62 {
        '+'
    } else {
        '/'
    }
}

/// Standard base64 (RFC 4648 alphabet, `=` padding) of `b`: each group of
/// three bytes becomes four characters; a trailing group of one or two bytes
/// is padded with `=`.
pub open spec fn base64_standard(b: Seq<u8>) -> Seq<char>
    decreases b.len(),
{
    if b.len() == 0 {
        Seq::empty()
    } else if b.len() == 1 {
        seq![b64_digit(b[0] as int / 4), b64_digit((b[0] as int % 4) * 16), '=', '=']
    } else if b.len() == 2 {
        seq![
            b64_digit(b[0] as int / 4),
            b64_digit((b[0] as int % 4) * 16 + b[1] as int / 16),
            b64_digit((b[1] as int % 16) * 4),
            '=',
        ]
    } else {
        seq![
            b64_digit(b[0] as int / 4),
            b64_digit((b[0] as int % 4) * 16 + b[1] as int / 16),
            b64_digit((b[1] as int % 16) * 4 + b[2] as int / 64),
            b64_digit(b[2] as int % 64),
        ] + base64_standard(b.subrange(3, b.len() as int))
    }
}

/// `base64::engine::general_purpose::STANDARD.encode`: standard alphabet,
/// padded. It panics when the encoded length overflows `usize`, which the
/// precondition rules out.
#[verifier::external_body]
fn base64_encode(bytes: &[u8]) -> (r: String)
    requires
        bytes@.len() / 3 * 4 + 4 <= usize::MAX,
    ensures
        r@ == base64_standard(bytes@),
{
    base64::Engine::encode(&base64::engine::general_purpose::STANDARD, bytes)
}

/// The data URL of an image: `data:<mime>;base64,<standard base64 of bytes>`.
pub fn image_data_url(mime: &str, bytes: &[u8]) -> (r: String)
    requires
        bytes@.len() / 3 * 4 + 4 <= usize::MAX,
    ensures
        r@ == "data:"@ + mime@ + ";base64,"@ + base64_standard(bytes@),
{
    let b64 = base64_encode(bytes);
    let mut r = owned("data:");
    push_str(&mut r, mime);
    push_str(&mut r, ";base64,");
    push_str(&mut r, b64.as_str());
    r
}

impl CliError {
    /// A usage error with the given message.
    pub fn usage(msg: &str) -> (e: CliError)
        ensures
            e matches CliError::Usage(m) && m@ == msg@,
    {
        CliError::Usage(owned(msg))
    }

    /// The text the probe prints for this error.
    pub fn message(&self) -> (r: String)
        ensures
            self matches CliError::Usage(m) ==> r@ == m@,
            self matches CliError::Router(e) ==> (error_text(*e) matches Some(t) ==> r@ == t),
    {
        match self {
            CliError::Usage(m) => m.clone(),
            CliError::Io(e) => {
                let mut r = owned("io: ");
                let t = crate::error::io_error_text(e);
                push_str(&mut r, t.as_str());
                r
            },
            CliError::Router(e) => e.message(),
        }
    }

    /// The process exit code for this error.
    pub fn exit_code(&self) -> (code: i32)
        ensures
            code == 1,
    {
        1
    }
}

impl From<Error> for CliError {
    /// A library error, reported as is.
    fn from(e: Error) -> (r: CliError) {
        CliError::Router(e)
    }
}

impl vstd::std_specs::convert::FromSpecImpl<Error> for CliError {
    open spec fn obeys_from_spec() -> bool {
        true
    }

    open spec fn from_spec(e: Error) -> CliError {
        CliError::Router(e)
    }
}

impl From<std::io::Error> for CliError {
    /// A file or stdin error, reported as is.
    fn from(e: std::io::Error) -> (r: CliError) {
        CliError::Io(e)
    }
}

impl vstd::std_specs::convert::FromSpecImpl<std::io::Error> for CliError {
    open spec fn obeys_from_spec() -> bool {
        true
    }

    open spec fn from_spec(e: std::io::Error) -> CliError {
        CliError::Io(e)
    }
}

} // verus!
