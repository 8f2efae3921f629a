//! The router configuration: its defaults, which document format a file is
//! read and written in, and its fingerprint (the SHA-256 of its JSON form).
//! Reading and writing files, and turning documents into values, belong to
//! the caller.

use sha2::Digest;
use vstd::prelude::*;
use vstd::string::StringSliceAdditionalSpecFns;

use crate::route::Route;
use crate::text::{ascii_lower, ascii_lowercase, char_is_whitespace, chars_eq, chars_of, is_white_space, owned, push_char};

verus! {

/// A router's configuration: the encoder it was built with and its routes.
#[derive(Debug, Clone)]
pub struct RouterConfig<S> {
    pub encoder_type: String,
    pub encoder_name: Option<String>,
    pub routes: Vec<Route<S>>,
}

/// The encoder type a configuration that names none gets: `hash`.
pub fn default_encoder_type() -> (r: String)
    ensures
        r@ == "hash"@,
{
    owned("hash")
}

impl<S> RouterConfig<S> {
    /// A configuration for `routes` with the built-in hash encoder
    /// (`hash` / `hash-dense`).
    pub fn new(routes: Vec<Route<S>>) -> (c: RouterConfig<S>)
        ensures
            c.encoder_type@ == "hash"@,
            c.encoder_name matches Some(n) && n@ == "hash-dense"@,
            c.routes == routes,
    {
        RouterConfig { encoder_type: owned("hash"), encoder_name: Some(owned("hash-dense")), routes }
    }
}

/// The document formats a configuration file can be in.
#[derive(Debug, Clone, Copy, PartialEq, Eq, Structural)]
pub enum ConfigFormat {
    Json,
    Yaml,
}

/// Whether the first character of `t` that is not white space is `{`.
pub open spec fn opens_with_brace(t: Seq<char>) -> bool {
    exists|i: int|
        0 <= i < t.len() && t[i] == '{' && forall|j: int| 0 <= j < i ==> #[trigger] is_white_space(t[j])
}

/// The format a file is read in: by its extension (any case) `json`, or
/// `yaml` / `yml`; with any other extension, or none, JSON when the text
/// opens with `{` after white space, else YAML.
pub open spec fn read_format_of(ext: Option<Seq<char>>, text: Seq<char>) -> ConfigFormat {
    let e = match ext {
        Some(e) => ascii_lower(e),
        None => Seq::empty(),
    };
    if e == "json"@ {
        ConfigFormat::Json
    } else if e == "yaml"@ || e == "yml"@ {
        ConfigFormat::Yaml
    } else if opens_with_brace(text) {
        ConfigFormat::Json
    } else {
        ConfigFormat::Yaml
    }
}

/// The format a file is written in: YAML for the extension (any case) `yaml`
/// or `yml`, JSON otherwise (and without an extension).
pub open spec fn write_format_of(ext: Option<Seq<char>>) -> ConfigFormat {
    match ext {
        Some(e) => if ascii_lower(e) == "yaml"@ || ascii_lower(e) == "yml"@ {
            ConfigFormat::Yaml
        } else {
            ConfigFormat::Json
        },
        None => ConfigFormat::Json,
    }
}

/// An optional string as an optional character sequence.
pub open spec fn opt_view(ext: Option<&str>) -> Option<Seq<char>> {
    match ext {
        Some(e) => Some(e@),
        None => None,
    }
}

fn is_yaml_ext(lower: &[char]) -> (r: bool)
    ensures
        r == (lower@ == "yaml"@ || lower@ == "yml"@),
{
    chars_eq(lower, "yaml") || chars_eq(lower, "yml")
}

fn starts_with_brace(text: &str) -> (r: bool)
    ensures
        r == opens_with_brace(text@),
{
    let cs = chars_of(text);
    let mut i: usize = 0;
    while i < cs.len()
        invariant
            cs@ == text@,
            i <= cs.len(),
            forall|j: int| 0 <= j < i ==> #[trigger] is_white_space(cs@[j]),
        decreases cs.len() - i,
    {
        if !char_is_whitespace(cs[i]) {
            let r = cs[i] == '{';
            proof {
                if !r && opens_with_brace(text@) {
                    let k = choose|k: int|
                        0 <= k < text@.len() && text@[k] == '{' && forall|j: int|
                            0 <= j < k ==> #[trigger] is_white_space(text@[j]);
                    if k < i {
                        assert(is_white_space(cs@[k]));
                    } else if k > i {
                        assert(is_white_space(text@[i as int]));
                    }
                }
            }
            return r;
        }
        i = i + 1;
    }
    proof {
        if opens_with_brace(text@) {
            let k = choose|k: int|
                0 <= k < text@.len() && text@[k] == '{' && forall|j: int|
                    0 <= j < k ==> #[trigger] is_white_space(text@[j]);
            assert(is_white_space(cs@[k]));
        }
    }
    false
}

/// The format to read a file in, from its extension (when it has one) and
/// its text.
pub fn read_format(ext: Option<&str>, text: &str) -> (f: ConfigFormat)
    ensures
        f == read_format_of(opt_view(ext), text@),
{
    let lower: Vec<char> = match ext {
        Some(e) => ascii_lowercase(e),
        None => Vec::new(),
    };
    proof {
        reveal_strlit("json");
    }
    if chars_eq(lower.as_slice(), "json") {
        ConfigFormat::Json
    } else if is_yaml_ext(lower.as_slice()) {
        ConfigFormat::Yaml
    } else if starts_with_brace(text) {
        ConfigFormat::Json
    } else {
        ConfigFormat::Yaml
    }
}

/// The format to write a file in, from its extension (when it has one).
pub fn write_format(ext: Option<&str>) -> (f: ConfigFormat)
    ensures
        f == write_format_of(opt_view(ext)),
{
    match ext {
        Some(e) => {
            let lower = ascii_lowercase(e);
            if is_yaml_ext(lower.as_slice()) {
                ConfigFormat::Yaml
            } else {
                ConfigFormat::Json
            }
        },
        None => ConfigFormat::Json,
    }
}

/// A configuration written to a file is read back in the format it was
/// written in: always when the file's extension is `json`, `yaml` or `yml`
/// (any case), and otherwise when the written text opens with `{` (as JSON
/// text does).
pub proof fn lemma_written_format_reads_back(ext: Option<Seq<char>>, text: Seq<char>)
    requires
        (ext matches Some(e) && (ascii_lower(e) == "json"@ || ascii_lower(e) == "yaml"@ || ascii_lower(
            e,
        ) == "yml"@)) || opens_with_brace(text),
    ensures
        read_format_of(ext, text) == write_format_of(ext),
{
    reveal_strlit("json");
    reveal_strlit("yaml");
    reveal_strlit("yml");
    assert("json"@[0] == 'j' && "yaml"@[0] == 'y' && "yml"@[0] == 'y');
    assert("json"@.len() == 4 && "yaml"@.len() == 4 && "yml"@.len() == 3);
    if let Some(e) = ext {
        let l = ascii_lower(e);
        if l == "json"@ {
            assert(l[0] == 'j');
        }
    }
}

/// What SHA-256 makes of `data`: its 32-byte digest.
pub uninterp spec fn sha256_digest(data: Seq<u8>) -> Seq<u8>;

/// The SHA-256 digest of `data` (`sha2::Sha256::digest`), 32 bytes long.
#[verifier::external_body]
fn sha256(data: &[u8]) -> (r: Vec<u8>)
    ensures
        r@ == sha256_digest(data@),
        r@.len() == 32,
{
    sha2::Sha256::digest(data).to_vec()
}

/// The lower-case hexadecimal digit of a value below 16.
pub open spec fn hex_digit(v: int) -> char {
    if v < 10 {
        ('0' as int + v) as char
    } else {
        ('a' as int + v - 10) as char
    }
}

/// `b` in lower-case hexadecimal, two digits per byte, high digit first.
pub open spec fn hex_lower(b: Seq<u8>) -> Seq<char>
    decreases b.len(),
{
    if b.len() == 0 {
        Seq::empty()
    } else {
        hex_lower(b.drop_last()) + seq![hex_digit((b.last() / 16) as int), hex_digit((b.last() % 16) as int)]
    }
}

fn hex_char(v: u8) -> (c: char)
    requires
        v < 16,
    ensures
        c == hex_digit(v as int),
{
    if v < 10 {
        let c = (48u8 + v) as char;
        c
    } else {
        let c = (97u8 + (v - 10)) as char;
        c
    }
}

/// The fingerprint of a configuration from its JSON text: the SHA-256 of the
/// text's UTF-8 bytes, in lower-case hexadecimal (64 digits).
pub fn config_hash(json: &str) -> (r: String)
    ensures
        r@ == hex_lower(sha256_digest(json.spec_bytes())),
        r@.len() == 64,
{
    let d = sha256(json.as_bytes());
    let mut r = String::new();
    let mut i: usize = 0;
    while i < d.len()
        invariant
            i <= d.len(),
            d@.len() == 32,
            r@ == hex_lower(d@.take(i as int)),
            r@.len() == 2 * i,
        decreases d.len() - i,
    {
        let b = d[i];
        push_char(&mut r, hex_char(b / 16));
        push_char(&mut r, hex_char(b % 16));
        assert(d@.take(i + 1).drop_last() =~= d@.take(i as int));
        i = i + 1;
    }
    assert(d@.take(32) =~= d@);
    r
}

} // verus!
