//! The identifier normaliser: catalog identifiers, ISBNs, slugs and relation
//! keys in their bare canonical forms.

use vstd::prelude::*;
use crate::text::{
    after_last, after_last_char, all_digits, ascii_lower, ascii_upper, chars_of, contains_char,
    is_all_digits, is_alphanumeric, is_ascii_alphanumeric, is_ascii_digit, is_ascii_lower,
    is_ascii_whitespace, is_char, is_digit, is_key_char, is_white, lemma_after_last,
    lemma_strip_all, lemma_strip_ends, lemma_strip_is_stretch, lemma_strip_keeps_last, literal,
    lowercased, slice_of, starts_with, string_of, to_lower, to_lowercase, to_upper, trim,
    trim_matches, trimmed, trimmed_of, white_space,
};

verus! {

// ---------------------------------------------------------------------------
// Catalog identifiers
// ---------------------------------------------------------------------------

/// The bare identifier in `raw`, a reference into the namespace `kind`
/// (`books`, `works`).
///
/// White space and then slashes are taken off both ends. What is left is the
/// identifier where it holds no slash. Otherwise the identifier is what follows
/// `kind` and a slash at the start, or else what follows the last slash, once
/// more without slashes at its ends. An empty identifier is none.
pub open spec fn catalog_id(raw: Seq<char>, kind: Seq<char>) -> Option<Seq<char>> {
    let t = trimmed_of(trimmed(raw), '/');
    if t.len() == 0 {
        None
    } else if !t.contains('/') {
        Some(t)
    } else {
        let rest = if kind.push('/').is_prefix_of(t) {
            t.skip(kind.len() as int + 1)
        } else {
            after_last(t, '/')
        };
        let id = trimmed_of(rest, '/');
        if id.len() == 0 {
            None
        } else {
            Some(id)
        }
    }
}

/// An identifier that is not empty and neither begins nor ends with a slash.
pub open spec fn is_bare_id(id: Seq<char>) -> bool {
    id.len() > 0 && id[0] != '/' && id.last() != '/'
}

/// There is an identifier exactly where something is left of `raw` once
/// white space and then slashes are taken off its ends, and every
/// identifier is bare.
pub proof fn lemma_catalog_id(raw: Seq<char>, kind: Seq<char>)
    ensures
        catalog_id(raw, kind) is Some <==> trimmed_of(trimmed(raw), '/').len() > 0,
        catalog_id(raw, kind) matches Some(id) ==> is_bare_id(id),
{
    let t = trimmed_of(trimmed(raw), '/');
    lemma_strip_ends(trimmed(raw), is_char('/'));
    if t.len() > 0 && t.contains('/') {
        let rest = if kind.push('/').is_prefix_of(t) {
            t.skip(kind.len() as int + 1)
        } else {
            after_last(t, '/')
        };
        assert(rest.len() > 0 && rest.last() == t.last()) by {
            if kind.push('/').is_prefix_of(t) {
                if t.len() == kind.len() + 1 {
                    assert(t.last() == kind.push('/')[kind.len() as int]);
                }
            }
        }
        lemma_strip_keeps_last(rest, is_char('/'));
        lemma_strip_ends(rest, is_char('/'));
    }
}

/// Normalises a catalog identifier such as `/works/OL45804W` to its bare form.
pub fn normalize_openlibrary_id(value: &str, prefix: &str) -> (id: Option<String>)
    ensures
        id.deep_view() == catalog_id(value@, prefix@),
        id is Some <==> trimmed_of(trimmed(value@), '/').len() > 0,
        id matches Some(text) ==> is_bare_id(text@),
{
    proof {
        lemma_catalog_id(value@, prefix@);
    }
    let v = chars_of(value);
    let t = trim_matches(&trim(&v), '/');
    if t.len() == 0 {
        return None;
    }
    if !contains_char(&t, '/') {
        return Some(string_of(&t));
    }
    let mut marker = chars_of(prefix);
    marker.push('/');
    let rest = if starts_with(&t, &marker) {
        slice_of(&t, marker.len(), t.len())
    } else {
        after_last_char(&t, '/')
    };
    let id = trim_matches(&rest, '/');
    if id.len() == 0 {
        None
    } else {
        Some(string_of(&id))
    }
}

/// The last segment of a language reference such as `/languages/eng`: what
/// follows the last slash once white space and then slashes are taken off
/// both ends of `raw`. An empty segment is none.
pub open spec fn language_code(raw: Seq<char>) -> Option<Seq<char>> {
    let last = after_last(trimmed_of(trimmed(raw), '/'), '/');
    if last.len() == 0 {
        None
    } else {
        Some(last)
    }
}

/// The language code that a language reference names.
pub fn language_from_key(value: &str) -> (code: Option<String>)
    ensures
        code.deep_view() == language_code(value@),
        code is Some <==> trimmed_of(trimmed(value@), '/').len() > 0,
        code matches Some(text) ==> text@.len() > 0 && !text@.contains('/'),
{
    let v = chars_of(value);
    let t = trim_matches(&trim(&v), '/');
    let last = after_last_char(&t, '/');
    proof {
        lemma_after_last(t@, '/');
        lemma_strip_ends(trimmed(value@), is_char('/'));
    }
    if last.len() == 0 {
        None
    } else {
        Some(string_of(&last))
    }
}

// ---------------------------------------------------------------------------
// ISBNs
// ---------------------------------------------------------------------------

/// The predicate "is an ASCII digit".
pub open spec fn digit() -> spec_fn(char) -> bool {
    |c: char| is_ascii_digit(c)
}

/// The digits of `raw`, in order.
pub open spec fn digits_of(raw: Seq<char>) -> Seq<char> {
    raw.filter(digit())
}

/// The ISBN-13 in `raw`: its digits, where there are exactly thirteen.
pub open spec fn isbn13_of(raw: Seq<char>) -> Option<Seq<char>> {
    if digits_of(raw).len() == 13 {
        Some(digits_of(raw))
    } else {
        None
    }
}

/// Thirteen ASCII digits.
pub open spec fn is_isbn13(s: Seq<char>) -> bool {
    s.len() == 13 && all_digits(s)
}

/// Strips every character that is no digit, and gives the rest where it has
/// exactly thirteen digits.
pub fn normalize_isbn13(value: &str) -> (isbn: Option<String>)
    ensures
        isbn.deep_view() == isbn13_of(value@),
        isbn is Some <==> digits_of(value@).len() == 13,
        isbn matches Some(text) ==> is_isbn13(text@),
{
    let v = chars_of(value);
    let mut digits: Vec<char> = Vec::new();
    let mut i: usize = 0;
    while i < v.len()
        invariant
            i <= v.len(),
            digits@ == digits_of(v@.take(i as int)),
        decreases v.len() - i,
    {
        proof {
            reveal(Seq::filter);
            assert(v@.take(i as int + 1).drop_last() =~= v@.take(i as int));
        }
        if is_digit(v[i]) {
            digits.push(v[i]);
        }
        i += 1;
    }
    assert(v@.take(v.len() as int) =~= v@);
    if digits.len() == 13 {
        Some(string_of(&digits))
    } else {
        None
    }
}

/// The first ISBN-13 among `values`: `isbn13_of` of the first of them that
/// has one.
pub open spec fn first_isbn13_of(values: Seq<Seq<char>>) -> Option<Seq<char>>
    decreases values.len(),
{
    if values.len() == 0 {
        None
    } else if isbn13_of(values[0]) is Some {
        isbn13_of(values[0])
    } else {
        first_isbn13_of(values.drop_first())
    }
}

/// An ISBN-13 that is found among values is thirteen digits.
pub proof fn lemma_first_isbn13_of(values: Seq<Seq<char>>)
    ensures
        first_isbn13_of(values) matches Some(isbn) ==> is_isbn13(isbn),
    decreases values.len(),
{
    if values.len() > 0 && isbn13_of(values[0]) is None {
        lemma_first_isbn13_of(values.drop_first());
    }
}

/// The first value of the list that normalises to an ISBN-13, normalised.
pub fn first_isbn13(values: &[String]) -> (isbn: Option<String>)
    ensures
        isbn.deep_view() == first_isbn13_of(values.deep_view()),
        isbn matches Some(text) ==> is_isbn13(text@),
{
    let ghost all = values.deep_view();
    let mut i: usize = 0;
    assert(all.skip(0) =~= all);
    while i < values.len()
        invariant
            i <= values.len(),
            all == values.deep_view(),
            first_isbn13_of(all) == first_isbn13_of(all.skip(i as int)),
        decreases values.len() - i,
    {
        let found = normalize_isbn13(values[i].as_str());
        assert(all.skip(i as int).drop_first() =~= all.skip(i as int + 1));
        if found.is_some() {
            return found;
        }
        i += 1;
    }
    None
}

/// `c` separates the groups of a written ISBN: a dash or ASCII white space.
pub open spec fn is_isbn_separator(c: char) -> bool {
    c == '-' || is_ascii_whitespace(c)
}

/// The predicate "is no ISBN separator".
pub open spec fn no_separator() -> spec_fn(char) -> bool {
    |c: char| !is_isbn_separator(c)
}

/// `raw` without the white space at its ends and without separators.
pub open spec fn compacted(raw: Seq<char>) -> Seq<char> {
    trimmed(raw).filter(no_separator())
}

/// `c` can close an ISBN-10: a digit or the check letter `X`, in either case.
pub open spec fn is_isbn10_check(c: char) -> bool {
    is_ascii_digit(c) || c == 'X' || c == 'x'
}

/// Nine ASCII digits and a check character.
pub open spec fn is_isbn10(s: Seq<char>) -> bool {
    s.len() == 10 && all_digits(s.take(9)) && is_isbn10_check(s[9])
}

/// The ISBN that `raw` is, as a whole: thirteen digits, or nine digits and a
/// check character, with separators between them at will. The check letter
/// comes out as a capital. Anything else, such as a title that holds an
/// ISBN, is none.
pub open spec fn exact_isbn(raw: Seq<char>) -> Option<Seq<char>> {
    let c = compacted(raw);
    if is_isbn13(c) {
        Some(c)
    } else if is_isbn10(c) {
        Some(c.take(9).push(ascii_upper(c[9])))
    } else {
        None
    }
}

/// Reads a free-text query as an ISBN where it is nothing but an ISBN.
pub fn normalize_exact_isbn_search(value: &str) -> (isbn: Option<String>)
    ensures
        isbn.deep_view() == exact_isbn(value@),
        isbn is Some <==> is_isbn13(compacted(value@)) || is_isbn10(compacted(value@)),
        isbn matches Some(text) ==> text@.len() == 13 || text@.len() == 10,
{
    let v = chars_of(value);
    let t = trim(&v);
    let mut c: Vec<char> = Vec::new();
    let mut i: usize = 0;
    while i < t.len()
        invariant
            i <= t.len(),
            c@ == t@.take(i as int).filter(no_separator()),
        decreases t.len() - i,
    {
        proof {
            reveal(Seq::filter);
            assert(t@.take(i as int + 1).drop_last() =~= t@.take(i as int));
        }
        let ch = t[i];
        let separator = ch == '-' || ch == ' ' || ch == '\t' || ch == '\n' || ch == '\x0C' || ch
            == '\r';
        if !separator {
            c.push(ch);
        }
        i += 1;
    }
    assert(t@.take(t.len() as int) =~= t@);
    if c.len() == 13 && is_all_digits(&c) {
        return Some(string_of(&c));
    }
    if c.len() != 10 {
        return None;
    }
    let mut body = slice_of(&c, 0, 9);
    let last = c[9];
    if is_all_digits(&body) && (is_digit(last) || last == 'X' || last == 'x') {
        body.push(to_upper(last));
        Some(string_of(&body))
    } else {
        None
    }
}

// ---------------------------------------------------------------------------
// Years
// ---------------------------------------------------------------------------

/// The number that the digit `c` writes.
pub open spec fn digit_value(c: char) -> int {
    c as int - 48
}

/// The number that the four characters of `s` from `i` on write.
pub open spec fn four_digits(s: Seq<char>, i: int) -> int {
    digit_value(s[i]) * 1000 + digit_value(s[i + 1]) * 100 + digit_value(s[i + 2]) * 10
        + digit_value(s[i + 3])
}

/// The year written at position `i` of `s`: four ASCII digits there whose
/// number lies from 1000 to 2999.
pub open spec fn year_at(s: Seq<char>, i: int) -> Option<u16> {
    if 0 <= i && i + 4 <= s.len() && is_ascii_digit(s[i]) && is_ascii_digit(s[i + 1])
        && is_ascii_digit(s[i + 2]) && is_ascii_digit(s[i + 3]) && 1000 <= four_digits(s, i)
        <= 2999 {
        Some(four_digits(s, i) as u16)
    } else {
        None
    }
}

/// The year written at the first position from `i` on that has one.
pub open spec fn year_from(s: Seq<char>, i: int) -> Option<u16>
    decreases s.len() - i,
{
    if i < 0 || i + 4 > s.len() {
        None
    } else if year_at(s, i) is Some {
        year_at(s, i)
    } else {
        year_from(s, i + 1)
    }
}

/// The first year written in `s`.
pub open spec fn first_year(s: Seq<char>) -> Option<u16> {
    year_from(s, 0)
}

/// A year that `year_from` finds is written somewhere, lies from 1000 to
/// 2999, and no position before it from `i` on has a year.
pub proof fn lemma_year_from(s: Seq<char>, i: int)
    requires
        0 <= i,
    ensures
        match year_from(s, i) {
            Some(y) => 1000 <= y <= 2999 && exists|k: int|
                i <= k && #[trigger] year_at(s, k) == Some(y) && forall|j: int|
                    i <= j < k ==> #[trigger] year_at(s, j) is None,
            None => forall|j: int| i <= j ==> #[trigger] year_at(s, j) is None,
        },
    decreases s.len() - i,
{
    if i + 4 <= s.len() && year_at(s, i) is None {
        lemma_year_from(s, i + 1);
    }
}

/// Scans a free-text date for the first four consecutive ASCII digits whose
/// number lies from 1000 to 2999.
pub fn extract_year_from_text(value: &str) -> (year: Option<u16>)
    ensures
        year == first_year(value@),
        year matches Some(y) ==> 1000 <= y <= 2999,
        year is None <==> forall|j: int| 0 <= j ==> #[trigger] year_at(value@, j) is None,
{
    proof {
        lemma_year_from(value@, 0);
    }
    let v = chars_of(value);
    let n: usize = v.len();
    let mut i: usize = 0;
    while i < n && n - i >= 4
        invariant
            n == v.len(),
            v@ == value@,
            i <= n,
            first_year(value@) == year_from(value@, i as int),
        decreases n - i,
    {
        if is_digit(v[i]) && is_digit(v[i + 1]) && is_digit(v[i + 2]) && is_digit(v[i + 3]) {
            let d0: u16 = (v[i] as u8 - 48) as u16;
            let d1: u16 = (v[i + 1] as u8 - 48) as u16;
            let d2: u16 = (v[i + 2] as u8 - 48) as u16;
            let d3: u16 = (v[i + 3] as u8 - 48) as u16;
            let y: u16 = d0 * 1000 + d1 * 100 + d2 * 10 + d3;
            if y >= 1000 && y <= 2999 {
                return Some(y);
            }
        }
        i += 1;
    }
    None
}

// ---------------------------------------------------------------------------
// Slugs and relation keys
// ---------------------------------------------------------------------------

/// The runs of ASCII letters and digits of `s`, in small letters, joined by
/// single dashes.
pub open spec fn slug_tokens(s: Seq<char>) -> Seq<char>
    decreases s.len(),
{
    if s.len() == 0 {
        Seq::empty()
    } else {
        let before = slug_tokens(s.drop_last());
        let c = s.last();
        if !is_ascii_alphanumeric(c) {
            before
        } else if before.len() > 0 && !is_ascii_alphanumeric(s[s.len() - 2]) {
            before.push('-').push(ascii_lower(c))
        } else {
            before.push(ascii_lower(c))
        }
    }
}

/// The slug of `s`: its tokens joined by dashes, or `unknown` where it has
/// none.
pub open spec fn slug(s: Seq<char>) -> Seq<char> {
    if slug_tokens(s).len() == 0 {
        "unknown"@
    } else {
        slug_tokens(s)
    }
}

/// `c` can stand in a slug: a small ASCII letter, a digit or a dash.
pub open spec fn is_slug_char(c: char) -> bool {
    is_ascii_lower(c) || is_ascii_digit(c) || c == '-'
}

/// A sequence of slug characters that neither begins nor ends with a dash
/// and holds no two dashes in a row.
pub open spec fn is_dash_joined(s: Seq<char>) -> bool {
    &&& forall|i: int| 0 <= i < s.len() ==> is_slug_char(#[trigger] s[i])
    &&& s.len() > 0 ==> s[0] != '-' && s.last() != '-'
    &&& forall|i: int| 0 <= i < s.len() - 1 ==> !(#[trigger] s[i] == '-' && s[i + 1] == '-')
}

/// The tokens of any text are dash-joined, and there are some exactly
/// where the text holds an ASCII letter or digit.
pub proof fn lemma_slug_tokens(s: Seq<char>)
    ensures
        is_dash_joined(slug_tokens(s)),
        slug_tokens(s).len() > 0 <==> exists|i: int|
            0 <= i < s.len() && is_ascii_alphanumeric(#[trigger] s[i]),
    decreases s.len(),
{
    if s.len() > 0 {
        let init = s.drop_last();
        lemma_slug_tokens(init);
        if !is_ascii_alphanumeric(s.last()) && exists|i: int|
            0 <= i < s.len() && is_ascii_alphanumeric(#[trigger] s[i]) {
            let i = choose|i: int| 0 <= i < s.len() && is_ascii_alphanumeric(#[trigger] s[i]);
            assert(is_ascii_alphanumeric(init[i]));
        }
    }
}

/// The tokens of the characters `v`, joined by dashes.
pub fn tokens_of(v: &Vec<char>) -> (out: Vec<char>)
    ensures
        out@ == slug_tokens(v@),
{
    let mut out: Vec<char> = Vec::new();
    let mut i: usize = 0;
    while i < v.len()
        invariant
            i <= v.len(),
            out@ == slug_tokens(v@.take(i as int)),
        decreases v.len() - i,
    {
        assert(v@.take(i as int + 1).drop_last() =~= v@.take(i as int));
        let c = v[i];
        if is_alphanumeric(c) {
            if out.len() > 0 && i > 0 && !is_alphanumeric(v[i - 1]) {
                out.push('-');
            }
            out.push(to_lower(c));
        }
        i += 1;
    }
    assert(v@.take(v.len() as int) =~= v@);
    out
}

/// The slug of the characters `v`.
pub fn slug_of_chars(v: &Vec<char>) -> (out: Vec<char>)
    ensures
        out@ == slug(v@),
{
    let out = tokens_of(v);
    if out.len() == 0 {
        literal("unknown")
    } else {
        out
    }
}

/// A slug is never empty and always dash-joined.
pub proof fn lemma_slug(s: Seq<char>)
    ensures
        slug(s).len() > 0,
        is_dash_joined(slug(s)),
{
    reveal_strlit("unknown");
    lemma_slug_tokens(s);
}

/// Derives the slug of a display name: small letters and digits, every run
/// of other characters collapsed to one dash, none at the ends; `unknown`
/// where nothing is left.
pub fn slugify(value: &str) -> (out: String)
    ensures
        out@ == slug(value@),
        out@.len() > 0,
        is_dash_joined(out@),
{
    proof {
        lemma_slug(value@);
    }
    let v = chars_of(value);
    string_of(&slug_of_chars(&v))
}

/// Every character of `s` is an ASCII letter or digit, a dash or an underscore.
pub open spec fn all_key_chars(s: Seq<char>) -> bool {
    forall|i: int| 0 <= i < s.len() ==> is_key_char(#[trigger] s[i])
}

/// The key under which `raw` is related: `unknown` where nothing is left
/// once white space and then slashes are taken off its ends; else its last
/// path segment without white space at the ends, in small letters where it
/// is not empty and made of key characters alone, and its slug where it is
/// not. The slug of a blank segment is `unknown`.
pub open spec fn relation_key_of(raw: Seq<char>) -> Seq<char> {
    let t = trimmed_of(trimmed(raw), '/');
    if t.len() == 0 {
        "unknown"@
    } else {
        let segment = trimmed(after_last(t, '/'));
        if segment.len() > 0 && all_key_chars(segment) {
            lowercased(segment)
        } else {
            slug(segment)
        }
    }
}

/// `c` can stand in a relation key: a small ASCII letter, a digit, a dash or
/// an underscore.
pub open spec fn is_relation_key_char(c: char) -> bool {
    is_ascii_lower(c) || is_ascii_digit(c) || c == '-' || c == '_'
}

/// A relation key as it is published: not empty, and made of small ASCII
/// letters, digits, dashes and underscores alone.
pub open spec fn is_relation_key(s: Seq<char>) -> bool {
    s.len() > 0 && forall|i: int| 0 <= i < s.len() ==> is_relation_key_char(#[trigger] s[i])
}

/// `s` holds nothing but white space and slashes.
pub open spec fn is_blank_path(s: Seq<char>) -> bool {
    forall|i: int| 0 <= i < s.len() ==> white_space(#[trigger] s[i]) || s[i] == '/'
}

/// The relation key of any text is a relation key as it is published, and
/// the key of a text that holds nothing but white space and slashes is
/// `unknown`.
pub proof fn lemma_relation_key(raw: Seq<char>)
    ensures
        is_relation_key(relation_key_of(raw)),
        is_blank_path(raw) ==> relation_key_of(raw) == "unknown"@,
{
    reveal_strlit("unknown");
    let t = trimmed_of(trimmed(raw), '/');
    if t.len() > 0 {
        let last = after_last(t, '/');
        let segment = trimmed(last);
        lemma_slug(segment);
        if is_blank_path(raw) {
            lemma_strip_is_stretch(raw, is_white());
            lemma_strip_is_stretch(trimmed(raw), is_char('/'));
            lemma_after_last(t, '/');
            assert forall|i: int| 0 <= i < last.len() implies is_white()(#[trigger] last[i]) by {
                let c = last[i];
                assert(c == t[t.len() - last.len() + i]);
                assert(last.contains(c));
                assert(trimmed(raw).contains(c));
                let k = choose|k: int| 0 <= k < trimmed(raw).len() && trimmed(raw)[k] == c;
                assert(raw.contains(trimmed(raw)[k]));
                let j = choose|j: int| 0 <= j < raw.len() && raw[j] == c;
                assert(white_space(raw[j]) || raw[j] == '/');
            }
            lemma_strip_all(last, is_white());
        }
    }
}

/// The relation key of the characters `v`.
pub fn relation_key_of_chars(v: &Vec<char>) -> (out: Vec<char>)
    ensures
        out@ == relation_key_of(v@),
        is_relation_key(out@),
{
    proof {
        lemma_relation_key(v@);
    }
    let t = trim_matches(&trim(v), '/');
    if t.len() == 0 {
        return literal("unknown");
    }
    let segment = trim(&after_last_char(&t, '/'));
    let mut plain = true;
    let mut i: usize = 0;
    while i < segment.len()
        invariant
            i <= segment.len(),
            plain <==> forall|k: int| 0 <= k < i ==> is_key_char(#[trigger] segment@[k]),
        decreases segment.len() - i,
    {
        let c = segment[i];
        if !(is_alphanumeric(c) || c == '-' || c == '_') {
            plain = false;
        }
        i += 1;
    }
    if segment.len() > 0 && plain {
        to_lowercase(&segment)
    } else {
        slug_of_chars(&segment)
    }
}

/// Derives the key of a related entity from its name or from an identifier
/// with a path. The key is never empty, holds small ASCII letters, digits,
/// dashes and underscores alone, and is `unknown` for a text of nothing but
/// white space and slashes.
pub fn relation_key(value: &str) -> (out: String)
    ensures
        out@ == relation_key_of(value@),
        out@.len() > 0,
        forall|i: int| 0 <= i < out@.len() ==> is_relation_key_char(#[trigger] out@[i]),
        is_blank_path(value@) ==> out@ == "unknown"@,
{
    proof {
        lemma_relation_key(value@);
    }
    let v = chars_of(value);
    string_of(&relation_key_of_chars(&v))
}

} // verus!
