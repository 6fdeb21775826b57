//! Recognition of asset references: CSS `url(..)` tokens, the `?`/`#` suffix
//! of a reference, and whether a reference names a local relative file.
use vstd::prelude::*;
use vstd::string::*;

use crate::text::{
    ascii_lower, ascii_lower_char, ascii_lower_seq, chars_of, has_prefix, starts_with_at,
    string_of_range, trim_bounds, trim_seq, trim_start_seq,
};

verus! {

/// The whitespace that the CSS `url(..)` scanner skips.
pub open spec fn is_css_space(c: char) -> bool {
    c == ' ' || c == '\n' || c == '\r' || c == '\t' || c == '\u{000C}'
}

/// The first index at or after `i` that does not hold CSS whitespace.
pub open spec fn skip_css_space(s: Seq<char>, i: int) -> int
    decreases s.len() - i,
{
    if 0 <= i < s.len() && is_css_space(s[i]) {
        skip_css_space(s, i + 1)
    } else {
        i
    }
}

/// The first index at or after `i` that holds `c`.
pub open spec fn find_char_from(s: Seq<char>, i: int, c: char) -> Option<int>
    decreases s.len() - i,
{
    if i < 0 || i >= s.len() {
        None
    } else if s[i] == c {
        Some(i)
    } else {
        find_char_from(s, i + 1, c)
    }
}

/// `s[i..i + 3]` spells `url` in any ASCII case.
pub open spec fn url_keyword_at(s: Seq<char>, i: int) -> bool {
    0 <= i && i + 3 <= s.len() && ascii_lower(s[i]) == 'u' && ascii_lower(s[i + 1]) == 'r'
        && ascii_lower(s[i + 2]) == 'l'
}

/// The CSS `url(..)` token that starts at `start`: its value and the index
/// just past its closing parenthesis.
///
/// A quoted value is taken verbatim up to the matching quote, which must be
/// followed (after whitespace) by `)`; an unquoted value runs to the first
/// `)` and is trimmed.
pub open spec fn url_token_at(s: Seq<char>, start: int) -> Option<(Seq<char>, int)> {
    if !url_keyword_at(s, start) {
        None
    } else {
        let open = skip_css_space(s, start + 3);
        if !(open < s.len() && s[open] == '(') {
            None
        } else {
            let b = skip_css_space(s, open + 1);
            if b < s.len() && (s[b] == '\'' || s[b] == '"') {
                match find_char_from(s, b + 1, s[b]) {
                    Some(e) => {
                        let c = skip_css_space(s, e + 1);
                        if c < s.len() && s[c] == ')' {
                            Some((s.subrange(b + 1, e), c + 1))
                        } else {
                            None
                        }
                    },
                    None => None,
                }
            } else {
                match find_char_from(s, b, ')') {
                    Some(e) => Some((trim_seq(s.subrange(b, e)), e + 1)),
                    None => None,
                }
            }
        }
    }
}

pub proof fn lemma_skip_css_space_bounds(s: Seq<char>, i: int)
    requires
        0 <= i,
    ensures
        i <= skip_css_space(s, i),
        i <= s.len() ==> skip_css_space(s, i) <= s.len(),
        skip_css_space(s, i) < s.len() ==> !is_css_space(s[skip_css_space(s, i)]),
    decreases s.len() - i,
{
    if 0 <= i < s.len() && is_css_space(s[i]) {
        lemma_skip_css_space_bounds(s, i + 1);
    }
}

pub proof fn lemma_find_char_from_bounds(s: Seq<char>, i: int, c: char)
    ensures
        find_char_from(s, i, c) matches Some(k) ==> i <= k < s.len() && s[k] == c && 0 <= k,
    decreases s.len() - i,
{
    if 0 <= i < s.len() && s[i] != c {
        lemma_find_char_from_bounds(s, i + 1, c);
    }
}

/// A token found at `start` ends after it.
pub proof fn lemma_url_token_advances(s: Seq<char>, start: int)
    ensures
        url_token_at(s, start) matches Some((_, end)) ==> start + 4 <= end <= s.len(),
{
    if url_keyword_at(s, start) {
        lemma_skip_css_space_bounds(s, start + 3);
        let open = skip_css_space(s, start + 3);
        if open < s.len() && s[open] == '(' {
            lemma_skip_css_space_bounds(s, open + 1);
            let b = skip_css_space(s, open + 1);
            if b < s.len() && (s[b] == '\'' || s[b] == '"') {
                lemma_find_char_from_bounds(s, b + 1, s[b]);
                if let Some(e) = find_char_from(s, b + 1, s[b]) {
                    lemma_skip_css_space_bounds(s, e + 1);
                }
            } else {
                lemma_find_char_from_bounds(s, b, ')');
            }
        }
    }
}

fn is_css_space_char(c: char) -> (r: bool)
    ensures
        r == is_css_space(c),
{
    c == ' ' || c == '\n' || c == '\r' || c == '\t' || c == '\u{000C}'
}

fn skip_space(v: &Vec<char>, i: usize) -> (r: usize)
    requires
        i <= v@.len(),
    ensures
        r as int == skip_css_space(v@, i as int),
        i <= r <= v@.len(),
{
    let mut k = i;
    while k < v.len() && is_css_space_char(v[k])
        invariant
            i <= k <= v@.len(),
            skip_css_space(v@, i as int) == skip_css_space(v@, k as int),
        decreases v@.len() - k,
    {
        k += 1;
    }
    k
}

pub fn find_char(v: &Vec<char>, i: usize, c: char) -> (r: Option<usize>)
    requires
        i <= v@.len(),
    ensures
        r matches Some(k) ==> find_char_from(v@, i as int, c) == Some(k as int),
        r is None ==> find_char_from(v@, i as int, c) is None,
{
    let mut k = i;
    while k < v.len()
        invariant
            i <= k <= v@.len(),
            find_char_from(v@, i as int, c) == find_char_from(v@, k as int, c),
        decreases v@.len() - k,
    {
        if v[k] == c {
            return Some(k);
        }
        k += 1;
    }
    None
}

/// The `url(..)` token of `v` at `start`, over characters.
pub fn url_token_in(v: &Vec<char>, start: usize) -> (r: Option<(String, usize)>)
    ensures
        r matches Some((t, e)) ==> url_token_at(v@, start as int) == Some((t@, e as int)),
        r is None ==> url_token_at(v@, start as int) is None,
{
    if start > v.len() || v.len() - start < 3 {
        return None;
    }
    if !(ascii_lower_char(v[start]) == 'u' && ascii_lower_char(v[start + 1]) == 'r'
        && ascii_lower_char(v[start + 2]) == 'l') {
        return None;
    }
    let open = skip_space(v, start + 3);
    if !(open < v.len() && v[open] == '(') {
        return None;
    }
    let b = skip_space(v, open + 1);
    if b < v.len() && (v[b] == '\'' || v[b] == '"') {
        let q = v[b];
        match find_char(v, b + 1, q) {
            Some(e) => {
                proof {
                    lemma_find_char_from_bounds(v@, b + 1, q);
                }
                let c = skip_space(v, e + 1);
                if c < v.len() && v[c] == ')' {
                    Some((string_of_range(v, b + 1, e), c + 1))
                } else {
                    None
                }
            },
            None => None,
        }
    } else {
        match find_char(v, b, ')') {
            Some(e) => {
                proof {
                    lemma_find_char_from_bounds(v@, b as int, ')');
                }
                let (x, y) = trim_bounds(v, b, e);
                Some((string_of_range(v, x, y), e + 1))
            },
            None => None,
        }
    }
}

/// The byte offset of character `k` of `s` in its UTF-8 encoding.
pub open spec fn byte_offset(s: Seq<char>, k: int) -> int {
    vstd::utf8::encode_utf8(s.take(k)).len() as int
}

/// The character that starts at byte `b` of the UTF-8 encoding of `s`,
/// looking from character `i` on: its index, or `None` when no character
/// starts there.
pub open spec fn char_at_byte_from(s: Seq<char>, b: int, i: int) -> Option<int>
    decreases s.len() - i,
{
    if i < 0 || i > s.len() || byte_offset(s, i) > b {
        None
    } else if byte_offset(s, i) == b {
        Some(i)
    } else if i == s.len() {
        None
    } else {
        char_at_byte_from(s, b, i + 1)
    }
}

/// The index of the character that starts at byte `b` of the UTF-8
/// encoding of `s` (`s.len()` for the end), or `None` when `b` falls inside
/// a character or past the end.
pub open spec fn char_at_byte(s: Seq<char>, b: int) -> Option<int> {
    char_at_byte_from(s, b, 0)
}

proof fn lemma_encode_push(a: Seq<char>, c: char)
    ensures
        vstd::utf8::encode_utf8(a.push(c)) == vstd::utf8::encode_utf8(a) + vstd::utf8::encode_scalar(
            c as u32,
        ),
    decreases a.len(),
{
    if a.len() == 0 {
        assert(a.push(c).drop_first() =~= Seq::<char>::empty());
        assert(a.push(c)[0] == c);
        assert(vstd::utf8::encode_utf8(Seq::<char>::empty()) =~= Seq::<u8>::empty());
        assert(vstd::utf8::encode_utf8(a) =~= Seq::<u8>::empty());
        assert(vstd::utf8::encode_utf8(a.push(c)) =~= vstd::utf8::encode_scalar(c as u32)
            + vstd::utf8::encode_utf8(a.push(c).drop_first()));
    } else {
        assert(a.push(c).drop_first() =~= a.drop_first().push(c));
        lemma_encode_push(a.drop_first(), c);
        assert(vstd::utf8::encode_utf8(a.push(c)) =~= vstd::utf8::encode_utf8(a)
            + vstd::utf8::encode_scalar(c as u32));
    }
}

/// The byte offset grows by the width of each character.
proof fn lemma_byte_offset_step(s: Seq<char>, k: int)
    requires
        0 <= k < s.len(),
    ensures
        byte_offset(s, k + 1) == byte_offset(s, k) + vstd::utf8::encode_scalar(s[k] as u32).len(),
        vstd::utf8::encode_scalar(s[k] as u32).len() >= 1,
{
    assert(s.take(k + 1) =~= s.take(k).push(s[k]));
    lemma_encode_push(s.take(k), s[k]);
}

/// Byte offsets grow with the character index.
proof fn lemma_byte_offset_grows(s: Seq<char>, k: int, m: int)
    requires
        0 <= k <= m <= s.len(),
    ensures
        byte_offset(s, k) <= byte_offset(s, m),
    decreases m - k,
{
    if k < m {
        lemma_byte_offset_step(s, k);
        lemma_byte_offset_grows(s, k + 1, m);
    }
}

/// The number of bytes of `c` in UTF-8.
fn utf8_width(c: char) -> (w: usize)
    ensures
        w == vstd::utf8::encode_scalar(c as u32).len(),
{
    let code = c as u32;
    if code < 0x80 {
        1
    } else if code < 0x800 {
        2
    } else if code < 0x10000 {
        3
    } else {
        4
    }
}

/// The CSS `url(..)` token of `source` that starts at byte offset `start`:
/// its value and the byte offset just past it. There is none when `start`
/// is not where a character starts.
pub fn parse_url_token(source: &str, start: usize) -> (r: Option<(String, usize)>)
    requires
        vstd::utf8::encode_utf8(source@).len() <= usize::MAX,
    ensures
        match char_at_byte(source@, start as int) {
            None => r is None,
            Some(k) => match url_token_at(source@, k) {
                None => r is None,
                Some((t, e)) => r matches Some((value, end)) && value@ == t && end == byte_offset(
                    source@,
                    e,
                ),
            },
        },
{
    let v = chars_of(source);
    proof {
        assert(v@.take(v@.len() as int) =~= v@);
    }
    let mut i: usize = 0;
    let mut offset: usize = 0;
    assert(v@.take(0) =~= Seq::<char>::empty());
    while offset < start && i < v.len()
        invariant
            v@ == source@,
            i <= v@.len(),
            offset == byte_offset(v@, i as int),
            byte_offset(v@, v@.len() as int) <= usize::MAX,
            char_at_byte(v@, start as int) == char_at_byte_from(v@, start as int, i as int),
        decreases v@.len() - i,
    {
        proof {
            lemma_byte_offset_step(v@, i as int);
            lemma_byte_offset_grows(v@, i + 1, v@.len() as int);
        }
        offset = offset + utf8_width(v[i]);
        i = i + 1;
    }
    if offset != start {
        return None;
    }
    proof {
        lemma_url_token_advances(v@, i as int);
    }
    match url_token_in(&v, i) {
        None => None,
        Some((value, end)) => {
            let mut j: usize = 0;
            let mut end_offset: usize = 0;
            while j < end
                invariant
                    v@ == source@,
                    j <= end <= v@.len(),
                    end_offset == byte_offset(v@, j as int),
                    byte_offset(v@, v@.len() as int) <= usize::MAX,
                decreases end - j,
            {
                proof {
                    lemma_byte_offset_step(v@, j as int);
                    lemma_byte_offset_grows(v@, j + 1, v@.len() as int);
                }
                end_offset = end_offset + utf8_width(v[j]);
                j = j + 1;
            }
            Some((value, end_offset))
        },
    }
}

/// The index of the first `?` or `#` of `s` at or after `i`, or `s.len()`.
pub open spec fn suffix_start_from(s: Seq<char>, i: int) -> int
    decreases s.len() - i,
{
    if i < 0 || i >= s.len() {
        s.len() as int
    } else if s[i] == '?' || s[i] == '#' {
        i
    } else {
        suffix_start_from(s, i + 1)
    }
}

pub proof fn lemma_suffix_start_bounds(s: Seq<char>, i: int)
    requires
        0 <= i,
    ensures
        i <= s.len() ==> i <= suffix_start_from(s, i) <= s.len(),
        forall|j: int| i <= j < suffix_start_from(s, i) ==> s[j] != '?' && s[j] != '#',
        suffix_start_from(s, i) < s.len() ==> (s[suffix_start_from(s, i)] == '?' || s[suffix_start_from(s, i)] == '#'),
    decreases s.len() - i,
{
    if i < s.len() && !(s[i] == '?' || s[i] == '#') {
        lemma_suffix_start_bounds(s, i + 1);
    }
}

pub fn suffix_start(v: &Vec<char>, from: usize) -> (r: usize)
    requires
        from <= v@.len(),
    ensures
        r as int == suffix_start_from(v@, from as int),
        from <= r <= v@.len(),
{
    let mut k = from;
    while k < v.len() && !(v[k] == '?' || v[k] == '#')
        invariant
            from <= k <= v@.len(),
            suffix_start_from(v@, from as int) == suffix_start_from(v@, k as int),
        decreases v@.len() - k,
    {
        k += 1;
    }
    k
}

/// Splits `reference` before its first `?` or `#`: the path part and the
/// query-or-fragment suffix.
pub fn split_reference_suffix(reference: &str) -> (r: (&str, &str))
    ensures
        r.0@ == reference@.subrange(0, suffix_start_from(reference@, 0)),
        r.1@ == reference@.subrange(suffix_start_from(reference@, 0), reference@.len() as int),
{
    let v = chars_of(reference);
    let k = suffix_start(&v, 0);
    let n = reference.unicode_len();
    (reference.substring_char(0, k), reference.substring_char(k, n))
}

/// The characters a URI scheme is made of.
pub open spec fn is_scheme_char(c: char) -> bool {
    ('a' <= c && c <= 'z') || ('A' <= c && c <= 'Z') || ('0' <= c && c <= '9') || c == '+' || c
        == '-' || c == '.'
}

/// `s` begins with scheme characters followed by `:`.
pub open spec fn starts_with_scheme(s: Seq<char>) -> bool
    decreases s.len(),
{
    if s.len() == 0 {
        false
    } else if is_scheme_char(s[0]) {
        starts_with_scheme(s.drop_first())
    } else {
        s[0] == ':'
    }
}

/// Whether `reference` names a file relative to some base directory: not
/// empty, not rooted (`/`, `//`), not a fragment, not inline SVG markup, and
/// without a URI scheme (`http:`, `https:`, `data:` or any other).
pub open spec fn is_local_relative(reference: Seq<char>) -> bool {
    let r = trim_seq(reference);
    &&& r.len() > 0
    &&& !has_prefix(r, seq!['/'])
    &&& !has_prefix(r, seq!['#'])
    &&& !has_prefix(trim_start_seq(r), seq!['<', 's', 'v', 'g'])
    &&& !has_prefix(ascii_lower_seq(r), seq!['h', 't', 't', 'p', ':', '/', '/'])
    &&& !has_prefix(ascii_lower_seq(r), seq!['h', 't', 't', 'p', 's', ':', '/', '/'])
    &&& !has_prefix(ascii_lower_seq(r), seq!['d', 'a', 't', 'a', ':'])
    &&& !starts_with_scheme(r)
}

pub fn has_scheme(v: &Vec<char>, from: usize, to: usize) -> (r: bool)
    requires
        from <= to <= v@.len(),
    ensures
        r == starts_with_scheme(v@.subrange(from as int, to as int)),
    decreases to - from,
{
    if from == to {
        return false;
    }
    let c = v[from];
    let scheme_char = ('a' <= c && c <= 'z') || ('A' <= c && c <= 'Z') || ('0' <= c && c <= '9')
        || c == '+' || c == '-' || c == '.';
    proof {
        assert(v@.subrange(from as int, to as int).drop_first() =~= v@.subrange(
            from + 1,
            to as int,
        ));
    }
    if scheme_char {
        has_scheme(v, from + 1, to)
    } else {
        c == ':'
    }
}

fn lowered(v: &Vec<char>, from: usize, to: usize) -> (r: Vec<char>)
    requires
        from <= to <= v@.len(),
    ensures
        r@ == ascii_lower_seq(v@.subrange(from as int, to as int)),
{
    let mut r: Vec<char> = Vec::new();
    let mut i = from;
    while i < to
        invariant
            from <= i <= to <= v@.len(),
            r@ == ascii_lower_seq(v@.subrange(from as int, i as int)),
        decreases to - i,
    {
        r.push(ascii_lower_char(v[i]));
        i += 1;
        assert(r@ =~= ascii_lower_seq(v@.subrange(from as int, i as int)));
    }
    r
}

/// Whether `reference` is a local relative file reference.
pub fn is_local_relative_reference(reference: &str) -> (r: bool)
    ensures
        r == is_local_relative(reference@),
{
    let v = chars_of(reference);
    let (a, b) = trim_bounds(&v, 0, v.len());
    assert(v@.subrange(0, v@.len() as int) =~= v@);
    let ghost t = v@.subrange(a as int, b as int);
    if a == b {
        return false;
    }
    let slash = vec!['/'];
    let hash = vec!['#'];
    let svg = vec!['<', 's', 'v', 'g'];
    let trimmed = string_of_range(&v, a, b);
    let tv = chars_of(trimmed.as_str());
    assert(tv@ == t);
    let n = tv.len();
    proof {
        assert(tv@.subrange(0, n as int) =~= t);
        crate::text::lemma_trim_seq_ends(v@);
        assert(trim_start_seq(t) == t);
        assert(slash@ =~= seq!['/']);
        assert(hash@ =~= seq!['#']);
        assert(svg@ =~= seq!['<', 's', 'v', 'g']);
    }
    if starts_with_at(&tv, 0, &slash) || starts_with_at(&tv, 0, &hash) || starts_with_at(
        &tv,
        0,
        &svg,
    ) {
        return false;
    }
    let lower = lowered(&tv, 0, n);
    proof {
        assert(lower@.subrange(0, lower@.len() as int) =~= lower@);
    }
    let http = vec!['h', 't', 't', 'p', ':', '/', '/'];
    let https = vec!['h', 't', 't', 'p', 's', ':', '/', '/'];
    let data = vec!['d', 'a', 't', 'a', ':'];
    assert(http@ =~= seq!['h', 't', 't', 'p', ':', '/', '/']);
    assert(https@ =~= seq!['h', 't', 't', 'p', 's', ':', '/', '/']);
    assert(data@ =~= seq!['d', 'a', 't', 'a', ':']);
    assert(tv@.subrange(0, n as int) =~= tv@);
    if starts_with_at(&lower, 0, &http) || starts_with_at(&lower, 0, &https) || starts_with_at(
        &lower,
        0,
        &data,
    ) {
        return false;
    }
    !has_scheme(&tv, 0, n)
}

/// The kind of reference being resolved, as named in error messages.
#[derive(Debug, Clone, Copy, PartialEq, Eq)]
pub enum LocalReferenceKind {
    Stylesheet,
    Image,
    CssUrl,
}

/// The word an error message uses for a reference of `kind`.
pub open spec fn kind_label(kind: LocalReferenceKind) -> Seq<char> {
    match kind {
        LocalReferenceKind::Stylesheet => seq!['s', 't', 'y', 'l', 'e', 's', 'h', 'e', 'e', 't'],
        LocalReferenceKind::Image => seq!['i', 'm', 'a', 'g', 'e'],
        LocalReferenceKind::CssUrl => seq!['c', 's', 's', ' ', 'u', 'r', 'l'],
    }
}

impl LocalReferenceKind {
    pub fn label(self) -> (r: String)
        ensures
            r@ == kind_label(self),
    {
        let chars = match self {
            LocalReferenceKind::Stylesheet => vec!['s', 't', 'y', 'l', 'e', 's', 'h', 'e', 'e', 't'],
            LocalReferenceKind::Image => vec!['i', 'm', 'a', 'g', 'e'],
            LocalReferenceKind::CssUrl => vec!['c', 's', 's', ' ', 'u', 'r', 'l'],
        };
        let r = crate::text::string_of(&chars);
        assert(r@ =~= kind_label(self));
        r
    }
}


/// A reference is its path part followed by its suffix, and the suffix, if
/// any, starts with `?` or `#`.
pub proof fn law_split_reassembles(reference: Seq<char>)
    ensures
        reference.subrange(0, suffix_start_from(reference, 0)) + reference.subrange(
            suffix_start_from(reference, 0),
            reference.len() as int,
        ) == reference,
        suffix_start_from(reference, 0) < reference.len() ==> (reference[suffix_start_from(
            reference,
            0,
        )] == '?' || reference[suffix_start_from(reference, 0)] == '#'),
{
    lemma_suffix_start_bounds(reference, 0);
    assert(reference.subrange(0, suffix_start_from(reference, 0)) + reference.subrange(
        suffix_start_from(reference, 0),
        reference.len() as int,
    ) =~= reference);
}

} // verus!
