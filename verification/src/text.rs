//! Character-level helpers shared by the modules that compare, build and
//! split strings.

use vstd::prelude::*;

verus! {

/// The characters of `s`, in order (`str::chars`, collected).
#[verifier::external_body]
pub(crate) fn chars_of(s: &str) -> (r: Vec<char>)
    ensures
        r@ == s@,
{
    s.chars().collect()
}

/// The string made of the characters of `v`, in order (`String: FromIterator<char>`).
#[verifier::external_body]
pub(crate) fn string_from_chars(v: &[char]) -> (r: String)
    ensures
        r@ == v@,
{
    v.iter().collect()
}

/// Equality of two strings, character by character.
pub fn str_eq(a: &str, b: &str) -> (r: bool)
    ensures
        r == (a@ == b@),
{
    let x = chars_of(a);
    let y = chars_of(b);
    if x.len() != y.len() {
        return false;
    }
    let mut i: usize = 0;
    while i < x.len()
        invariant
            x@ == a@,
            y@ == b@,
            x.len() == y.len(),
            i <= x.len(),
            forall|j: int| 0 <= j < i ==> x@[j] == y@[j],
        decreases x.len() - i,
    {
        if x[i] != y[i] {
            return false;
        }
        i = i + 1;
    }
    assert(x@ =~= y@);
    true
}

/// Appends one character to `s` (`String::push`).
#[verifier::external_body]
pub(crate) fn push_char(s: &mut String, c: char)
    ensures
        final(s)@ == old(s)@.push(c),
{
    s.push(c);
}

/// The decimal digits of `n`, most significant first, with no leading zero
/// (zero itself is written `0`).
pub open spec fn decimal(n: nat) -> Seq<char>
    decreases n,
{
    if n < 10 {
        seq![digit_char(n)]
    } else {
        decimal(n / 10).push(digit_char(n % 10))
    }
}

/// The character of the digit `d` (`0` to `9`).
pub open spec fn digit_char(d: nat) -> char {
    if d == 0 { '0' }
    else if d == 1 { '1' }
    else if d == 2 { '2' }
    else if d == 3 { '3' }
    else if d == 4 { '4' }
    else if d == 5 { '5' }
    else if d == 6 { '6' }
    else if d == 7 { '7' }
    else if d == 8 { '8' }
    else { '9' }
}

fn digit(d: usize) -> (c: char)
    requires
        d < 10,
    ensures
        c == digit_char(d as nat),
{
    if d == 0 { '0' }
    else if d == 1 { '1' }
    else if d == 2 { '2' }
    else if d == 3 { '3' }
    else if d == 4 { '4' }
    else if d == 5 { '5' }
    else if d == 6 { '6' }
    else if d == 7 { '7' }
    else if d == 8 { '8' }
    else { '9' }
}

/// Appends the decimal form of `n` to `out` (as `{}` formats a `usize`).
pub fn push_decimal(out: &mut String, n: usize)
    ensures
        final(out)@ == old(out)@ + decimal(n as nat),
    decreases n,
{
    if n < 10 {
        push_char(out, digit(n));
        assert(decimal(n as nat) =~= seq![digit_char(n as nat)]);
    } else {
        push_decimal(out, n / 10);
        push_char(out, digit(n % 10));
        assert(decimal(n as nat) == decimal((n / 10) as nat).push(digit_char((n % 10) as nat)));
    }
}

/// Appends `t` to `out`.
pub fn push_str(out: &mut String, t: &str)
    ensures
        final(out)@ == old(out)@ + t@,
{
    out.append(t);
}

/// A fresh string holding the characters of `t`.
pub fn owned(t: &str) -> (r: String)
    ensures
        r@ == t@,
{
    String::from_str(t)
}

/// `items` joined with `sep` between consecutive items.
pub open spec fn join(items: Seq<Seq<char>>, sep: Seq<char>) -> Seq<char>
    decreases items.len(),
{
    if items.len() == 0 {
        Seq::empty()
    } else if items.len() == 1 {
        items[0]
    } else {
        join(items.drop_last(), sep) + sep + items.last()
    }
}

/// The character sequences of a slice of strings.
pub open spec fn views(items: Seq<&str>) -> Seq<Seq<char>> {
    items.map_values(|s: &str| s@)
}

/// Appends `items` joined with `sep` to `out`.
pub fn push_joined(out: &mut String, items: &[&str], sep: &str)
    ensures
        final(out)@ == old(out)@ + join(views(items@), sep@),
{
    let ghost start = out@;
    let ghost all = views(items@);
    let mut i: usize = 0;
    while i < items.len()
        invariant
            i <= items@.len(),
            all == views(items@),
            out@ == start + join(all.take(i as int), sep@),
        decreases items.len() - i,
    {
        if i != 0 {
            push_str(out, sep);
        }
        push_str(out, items[i]);
        assert(all.take(i + 1).drop_last() =~= all.take(i as int));
        assert(all.take(i + 1).last() == items@[i as int]@);
        if i == 0 {
            assert(join(all.take(1), sep@) == all.take(1)[0]);
            assert(out@ =~= start + join(all.take(i + 1), sep@));
        } else {
            assert(out@ =~= start + join(all.take(i + 1), sep@));
        }
        i = i + 1;
    }
    assert(all.take(items@.len() as int) =~= all);
}

/// `c` with an ASCII upper-case letter turned lower-case (other characters
/// unchanged), as `char::to_ascii_lowercase` does.
pub open spec fn ascii_lower_char(c: char) -> char {
    if 'A' <= c <= 'Z' {
        ((c as u32) + 32) as char
    } else {
        c
    }
}

/// `s` with its ASCII upper-case letters turned lower-case.
pub open spec fn ascii_lower(s: Seq<char>) -> Seq<char> {
    s.map_values(|c: char| ascii_lower_char(c))
}

fn lower_char(c: char) -> (r: char)
    ensures
        r == ascii_lower_char(c),
{
    if 'A' <= c && c <= 'Z' {
        let b = c as u8;
        let l = (b + 32) as char;
        assert(l as u32 == c as u32 + 32);
        l
    } else {
        c
    }
}

/// The ASCII-lower-cased copy of `s` (`str::to_ascii_lowercase`).
pub fn ascii_lowercase(s: &str) -> (r: Vec<char>)
    ensures
        r@ == ascii_lower(s@),
{
    let cs = chars_of(s);
    let mut out: Vec<char> = Vec::new();
    let mut i: usize = 0;
    while i < cs.len()
        invariant
            cs@ == s@,
            i <= cs.len(),
            out@ == ascii_lower(s@.take(i as int)),
        decreases cs.len() - i,
    {
        out.push(lower_char(cs[i]));
        assert(ascii_lower(s@.take(i + 1)) =~= ascii_lower(s@.take(i as int)).push(
            ascii_lower_char(s@[i as int]),
        ));
        i = i + 1;
    }
    assert(s@.take(cs.len() as int) =~= s@);
    out
}

/// Whether the characters of `v` spell `t`.
pub fn chars_eq(v: &[char], t: &str) -> (r: bool)
    ensures
        r == (v@ == t@),
{
    let y = chars_of(t);
    if v.len() != y.len() {
        return false;
    }
    let mut i: usize = 0;
    while i < v.len()
        invariant
            y@ == t@,
            v.len() == y.len(),
            i <= v.len(),
            forall|j: int| 0 <= j < i ==> v@[j] == y@[j],
        decreases v.len() - i,
    {
        if v[i] != y[i] {
            return false;
        }
        i = i + 1;
    }
    assert(v@ =~= y@);
    true
}

/// Whether two character vectors hold the same characters.
pub fn same_chars(a: &[char], b: &[char]) -> (r: bool)
    ensures
        r == (a@ == b@),
{
    if a.len() != b.len() {
        return false;
    }
    let mut i: usize = 0;
    while i < a.len()
        invariant
            a.len() == b.len(),
            i <= a.len(),
            forall|j: int| 0 <= j < i ==> a@[j] == b@[j],
        decreases a.len() - i,
    {
        if a[i] != b[i] {
            return false;
        }
        i = i + 1;
    }
    assert(a@ =~= b@);
    true
}

/// `s` without its trailing `/` characters (`str::trim_end_matches('/')`).
pub open spec fn trim_slashes(s: Seq<char>) -> Seq<char>
    decreases s.len(),
{
    if s.len() > 0 && s.last() == '/' {
        trim_slashes(s.drop_last())
    } else {
        s
    }
}

/// Appends `base` without its trailing slashes, then `path`.
pub fn push_url(out: &mut String, base: &str, path: &str)
    ensures
        final(out)@ == old(out)@ + trim_slashes(base@) + path@,
{
    let cs = chars_of(base);
    let mut n: usize = cs.len();
    assert(cs@.take(n as int) =~= cs@);
    while n > 0 && cs[n - 1] == '/'
        invariant
            n <= cs.len(),
            cs@ == base@,
            trim_slashes(base@) == trim_slashes(cs@.take(n as int)),
        decreases n,
    {
        assert(cs@.take(n as int).drop_last() =~= cs@.take(n - 1));
        n = n - 1;
    }
    let trimmed = string_from_chars(&cs.as_slice()[0..n]);
    proof {
        assert(cs@.take(n as int).len() > 0 ==> cs@.take(n as int).last() == cs@[n - 1]);
    }
    assert(trimmed@ =~= cs@.take(n as int));
    push_str(out, trimmed.as_str());
    push_str(out, path);
}

/// The characters that have the Unicode `White_Space` property (what
/// `char::is_whitespace` tests).
pub open spec fn is_white_space(c: char) -> bool {
    let u = c as u32;
    (0x9 <= u <= 0xd) || u == 0x20 || u == 0x85 || u == 0xa0 || u == 0x1680 || (0x2000 <= u
        <= 0x200a) || u == 0x2028 || u == 0x2029 || u == 0x202f || u == 0x205f || u == 0x3000
}

/// Whether `c` has the `White_Space` property (as `char::is_whitespace`).
pub(crate) fn char_is_whitespace(c: char) -> (r: bool)
    ensures
        r == is_white_space(c),
{
    let u = c as u32;
    (0x9 <= u && u <= 0xd) || u == 0x20 || u == 0x85 || u == 0xa0 || u == 0x1680 || (0x2000 <= u
        && u <= 0x200a) || u == 0x2028 || u == 0x2029 || u == 0x202f || u == 0x205f || u == 0x3000
}

/// Whether `p` occurs in `s` as a run of consecutive characters.
pub open spec fn contains_text(s: Seq<char>, p: Seq<char>) -> bool {
    exists|i: int| 0 <= i && i + p.len() <= s.len() && #[trigger] s.subrange(i, i + p.len()) == p
}

/// Whether the character `c` occurs nowhere in `s`.
pub open spec fn lacks_char(s: Seq<char>, c: char) -> bool {
    forall|j: int| 0 <= j < s.len() ==> s[j] != c
}

/// A text in which some character of `p` never occurs does not contain `p`.
pub proof fn lemma_lacking_char_excludes(s: Seq<char>, p: Seq<char>, c: char)
    requires
        lacks_char(s, c),
        p.contains(c),
    ensures
        !contains_text(s, p),
{
    if contains_text(s, p) {
        let i = choose|i: int| 0 <= i && i + p.len() <= s.len() && #[trigger] s.subrange(i, i + p.len()) == p;
        let k = choose|k: int| 0 <= k < p.len() && p[k] == c;
        assert(s.subrange(i, i + p.len())[k] == s[i + k]);
    }
}

/// A character absent from both parts is absent from their concatenation.
pub proof fn lemma_lacks_char_concat(a: Seq<char>, b: Seq<char>, c: char)
    requires
        lacks_char(a, c),
        lacks_char(b, c),
    ensures
        lacks_char(a + b, c),
{
    assert forall|j: int| 0 <= j < (a + b).len() implies (a + b)[j] != c by {
        if j < a.len() {
            assert((a + b)[j] == a[j]);
        } else {
            assert((a + b)[j] == b[j - a.len()]);
        }
    }
}

/// A character absent from every item and from the separator is absent from
/// the joined text.
pub proof fn lemma_lacks_char_join(items: Seq<Seq<char>>, sep: Seq<char>, c: char)
    requires
        forall|i: int| 0 <= i < items.len() ==> lacks_char(#[trigger] items[i], c),
        lacks_char(sep, c),
    ensures
        lacks_char(join(items, sep), c),
    decreases items.len(),
{
    if items.len() > 1 {
        let init = items.drop_last();
        assert forall|i: int| 0 <= i < init.len() implies lacks_char(#[trigger] init[i], c) by {
            assert(init[i] == items[i]);
        }
        lemma_lacks_char_join(init, sep, c);
        assert(lacks_char(items.last(), c)) by {
            assert(items[items.len() - 1] == items.last());
        }
        lemma_lacks_char_concat(join(init, sep), sep, c);
        lemma_lacks_char_concat(join(init, sep) + sep, items.last(), c);
    } else if items.len() == 1 {
        assert(lacks_char(items[0], c));
    }
}

/// `p` occurs in `a + b` when it occurs in `a` or in `b`.
pub proof fn lemma_contains_text_in_part(a: Seq<char>, b: Seq<char>, p: Seq<char>)
    ensures
        contains_text(a, p) ==> contains_text(a + b, p),
        contains_text(b, p) ==> contains_text(a + b, p),
{
    if contains_text(a, p) {
        let i = choose|i: int| 0 <= i && i + p.len() <= a.len() && #[trigger] a.subrange(i, i + p.len()) == p;
        assert((a + b).subrange(i, i + p.len()) =~= a.subrange(i, i + p.len()));
    }
    if contains_text(b, p) {
        let i = choose|i: int| 0 <= i && i + p.len() <= b.len() && #[trigger] b.subrange(i, i + p.len()) == p;
        let k = a.len() + i;
        assert((a + b).subrange(k, k + p.len()) =~= b.subrange(i, i + p.len()));
    }
}

/// Where `p` lacks the character `c`, an occurrence of `p` in `a`, `c`, `b`
/// lies within `a` or within `b`.
pub proof fn lemma_contains_text_split(a: Seq<char>, c: char, b: Seq<char>, p: Seq<char>)
    requires
        !p.contains(c),
        contains_text(a + seq![c] + b, p),
    ensures
        contains_text(a, p) || contains_text(b, p),
{
    let s = a + seq![c] + b;
    let i = choose|i: int| 0 <= i && i + p.len() <= s.len() && #[trigger] s.subrange(i, i + p.len()) == p;
    if i + p.len() <= a.len() {
        assert(a.subrange(i, i + p.len()) =~= s.subrange(i, i + p.len()));
    } else if i > a.len() {
        let k = i - a.len() - 1;
        assert(b.subrange(k, k + p.len()) =~= s.subrange(i, i + p.len()));
    } else {
        let k = a.len() - i;
        assert(s.subrange(i, i + p.len())[k] == s[a.len() as int]);
        assert(s[a.len() as int] == c);
        assert(p[k] == c);
    }
}

} // verus!
