//! Character classes and sequence operations that the rest of the crate is
//! specified with, and their executable counterparts on `Vec<char>`.
//!
//! A string is modelled by its view, a `Seq<char>`. The executable functions
//! work on `Vec<char>`; `chars_of` and `string_of` convert at the edges.

use vstd::prelude::*;

verus! {

// ---------------------------------------------------------------------------
// Character classes
// ---------------------------------------------------------------------------

/// `c` is one of `0` to `9`.
pub open spec fn is_ascii_digit(c: char) -> bool {
    '0' <= c && c <= '9'
}

/// `c` is one of `A` to `Z`.
pub open spec fn is_ascii_upper(c: char) -> bool {
    'A' <= c && c <= 'Z'
}

/// `c` is one of `a` to `z`.
pub open spec fn is_ascii_lower(c: char) -> bool {
    'a' <= c && c <= 'z'
}

/// `c` is an ASCII letter or digit.
pub open spec fn is_ascii_alphanumeric(c: char) -> bool {
    is_ascii_digit(c) || is_ascii_upper(c) || is_ascii_lower(c)
}

/// `c` is an ASCII letter or digit, a dash or an underscore.
pub open spec fn is_key_char(c: char) -> bool {
    is_ascii_alphanumeric(c) || c == '-' || c == '_'
}

/// `c` is a space, a tab, a line feed, a form feed or a carriage return.
pub open spec fn is_ascii_whitespace(c: char) -> bool {
    c == ' ' || c == '\t' || c == '\n' || c == '\x0C' || c == '\r'
}

/// `c` with an ASCII capital letter replaced by its small letter.
pub open spec fn ascii_lower(c: char) -> char {
    if is_ascii_upper(c) {
        ((c as u8) + 32) as char
    } else {
        c
    }
}

/// `c` with an ASCII small letter replaced by its capital letter.
pub open spec fn ascii_upper(c: char) -> char {
    if is_ascii_lower(c) {
        ((c as u8) - 32) as char
    } else {
        c
    }
}

/// Whether `c` has the Unicode property `White_Space`: the controls U+0009
/// to U+000D, the space, U+0085, the no-break space U+00A0, U+1680, the
/// spaces U+2000 to U+200A, the separators U+2028 and U+2029, U+202F, U+205F
/// and the ideographic space U+3000.
pub open spec fn white_space(c: char) -> bool {
    ||| '\u{9}' <= c && c <= '\u{d}'
    ||| c == ' '
    ||| c == '\u{85}'
    ||| c == '\u{a0}'
    ||| c == '\u{1680}'
    ||| '\u{2000}' <= c && c <= '\u{200a}'
    ||| c == '\u{2028}'
    ||| c == '\u{2029}'
    ||| c == '\u{202f}'
    ||| c == '\u{205f}'
    ||| c == '\u{3000}'
}

/// Whether `c` is white space.
///
/// Trusted: stands for `char::is_whitespace`, which answers whether the
/// character has the Unicode property `White_Space`. That the property holds
/// of the characters that `white_space` lists, and of no others, is the
/// Unicode character database's table of the property.
#[verifier::external_body]
pub(crate) fn is_whitespace(c: char) -> (b: bool)
    ensures
        b == white_space(c),
{
    c.is_whitespace()
}

/// Whether `c` is an ASCII digit.
pub fn is_digit(c: char) -> (b: bool)
    ensures
        b == is_ascii_digit(c),
{
    c >= '0' && c <= '9'
}

/// Whether `c` is an ASCII letter or digit.
pub fn is_alphanumeric(c: char) -> (b: bool)
    ensures
        b == is_ascii_alphanumeric(c),
{
    (c >= '0' && c <= '9') || (c >= 'A' && c <= 'Z') || (c >= 'a' && c <= 'z')
}

/// `c`, or its small letter where it is an ASCII capital.
pub fn to_lower(c: char) -> (r: char)
    ensures
        r == ascii_lower(c),
{
    if c >= 'A' && c <= 'Z' {
        let b: u8 = c as u8;
        (b + 32) as char
    } else {
        c
    }
}

/// `c`, or its capital where it is an ASCII small letter.
pub fn to_upper(c: char) -> (r: char)
    ensures
        r == ascii_upper(c),
{
    if c >= 'a' && c <= 'z' {
        let b: u8 = c as u8;
        (b - 32) as char
    } else {
        c
    }
}

// ---------------------------------------------------------------------------
// Sequences of characters
// ---------------------------------------------------------------------------

/// The predicate "has the property `White_Space`".
pub open spec fn is_white() -> spec_fn(char) -> bool {
    |c: char| white_space(c)
}

/// The predicate "is the character `ch`".
pub open spec fn is_char(ch: char) -> spec_fn(char) -> bool {
    |c: char| c == ch
}

/// `s` without its longest prefix of characters that satisfy `p`.
pub open spec fn strip_start(s: Seq<char>, p: spec_fn(char) -> bool) -> Seq<char>
    decreases s.len(),
{
    if s.len() > 0 && p(s[0]) {
        strip_start(s.drop_first(), p)
    } else {
        s
    }
}

/// `s` without its longest suffix of characters that satisfy `p`.
pub open spec fn strip_end(s: Seq<char>, p: spec_fn(char) -> bool) -> Seq<char>
    decreases s.len(),
{
    if s.len() > 0 && p(s.last()) {
        strip_end(s.drop_last(), p)
    } else {
        s
    }
}

/// `s` without the characters that satisfy `p` at either end.
pub open spec fn strip(s: Seq<char>, p: spec_fn(char) -> bool) -> Seq<char> {
    strip_end(strip_start(s, p), p)
}

/// `s` without the white space at either end.
pub open spec fn trimmed(s: Seq<char>) -> Seq<char> {
    strip(s, is_white())
}

/// `s` without the occurrences of `ch` at either end.
pub open spec fn trimmed_of(s: Seq<char>, ch: char) -> Seq<char> {
    strip(s, is_char(ch))
}

/// What follows the last `sep` in `s`; all of `s` where it holds no `sep`.
pub open spec fn after_last(s: Seq<char>, sep: char) -> Seq<char>
    decreases s.len(),
{
    if s.len() == 0 || s.last() == sep {
        Seq::empty()
    } else {
        after_last(s.drop_last(), sep).push(s.last())
    }
}

/// `s` with every ASCII capital letter replaced by its small letter.
pub open spec fn lowercased(s: Seq<char>) -> Seq<char> {
    s.map_values(|c: char| ascii_lower(c))
}

/// Every character of `s` is an ASCII digit.
pub open spec fn all_digits(s: Seq<char>) -> bool {
    forall|i: int| 0 <= i < s.len() ==> is_ascii_digit(#[trigger] s[i])
}

/// The character that writes the digit `d`.
pub open spec fn digit_char(d: nat) -> char
    recommends
        d < 10,
{
    (d + 48) as char
}

/// `n` written in base ten, without leading zeros.
pub open spec fn decimal(n: nat) -> Seq<char>
    decreases n,
{
    if n < 10 {
        seq![digit_char(n)]
    } else {
        decimal(n / 10).push(digit_char(n % 10))
    }
}

/// A number in base ten has at least one digit, and two or more from 10 on.
pub proof fn lemma_decimal_len(n: nat)
    ensures
        decimal(n).len() >= 1,
        n >= 10 ==> decimal(n).len() >= 2,
        forall|i: int| 0 <= i < decimal(n).len() ==> is_ascii_digit(#[trigger] decimal(n)[i]),
    decreases n,
{
    if n >= 10 {
        lemma_decimal_len(n / 10);
    }
}

/// Two numbers that are written alike in base ten are the same number.
pub proof fn lemma_decimal_injective(a: nat, b: nat)
    requires
        decimal(a) == decimal(b),
    ensures
        a == b,
    decreases a,
{
    lemma_decimal_len(a);
    lemma_decimal_len(b);
    if a < 10 && b < 10 {
        assert(decimal(a)[0] == digit_char(a));
    } else if a >= 10 && b >= 10 {
        let x = decimal(a / 10);
        let y = decimal(b / 10);
        assert(decimal(a).drop_last() =~= x);
        assert(decimal(b).drop_last() =~= y);
        assert(decimal(a).last() == digit_char(a % 10));
        lemma_decimal_injective(a / 10, b / 10);
    }
}

/// A stripped sequence is a stretch of the sequence it was stripped from.
pub proof fn lemma_strip_start_is_suffix(s: Seq<char>, p: spec_fn(char) -> bool)
    ensures
        strip_start(s, p).len() <= s.len(),
        strip_start(s, p) == s.subrange(s.len() - strip_start(s, p).len(), s.len() as int),
        strip_start(s, p).len() > 0 ==> !p(strip_start(s, p)[0]),
    decreases s.len(),
{
    if s.len() > 0 && p(s[0]) {
        lemma_strip_start_is_suffix(s.drop_first(), p);
    }
}

/// Stripping the end leaves a prefix whose last character does not satisfy `p`.
pub proof fn lemma_strip_end_is_prefix(s: Seq<char>, p: spec_fn(char) -> bool)
    ensures
        strip_end(s, p).len() <= s.len(),
        strip_end(s, p) == s.subrange(0, strip_end(s, p).len() as int),
        strip_end(s, p).len() > 0 ==> !p(strip_end(s, p).last()),
    decreases s.len(),
{
    if s.len() > 0 && p(s.last()) {
        lemma_strip_end_is_prefix(s.drop_last(), p);
    }
}

/// What `strip` leaves neither begins nor ends with a character that
/// satisfies `p`.
pub proof fn lemma_strip_ends(s: Seq<char>, p: spec_fn(char) -> bool)
    ensures
        strip(s, p).len() <= s.len(),
        strip(s, p).len() > 0 ==> !p(strip(s, p)[0]) && !p(strip(s, p).last()),
{
    lemma_strip_start_is_suffix(s, p);
    lemma_strip_end_is_prefix(strip_start(s, p), p);
}

/// Where the last character of `s` does not satisfy `p`, stripping leaves
/// something, and it ends with that character.
pub proof fn lemma_strip_keeps_last(s: Seq<char>, p: spec_fn(char) -> bool)
    requires
        s.len() > 0,
        !p(s.last()),
    ensures
        strip_start(s, p).len() > 0,
        strip_start(s, p).last() == s.last(),
        strip(s, p) == strip_start(s, p),
    decreases s.len(),
{
    if p(s[0]) {
        lemma_strip_keeps_last(s.drop_first(), p);
    }
}

/// Where every character of `s` satisfies `p`, stripping leaves nothing.
pub proof fn lemma_strip_all(s: Seq<char>, p: spec_fn(char) -> bool)
    requires
        forall|i: int| 0 <= i < s.len() ==> p(#[trigger] s[i]),
    ensures
        strip_start(s, p).len() == 0,
        strip(s, p).len() == 0,
    decreases s.len(),
{
    if s.len() > 0 {
        let rest = s.drop_first();
        assert forall|i: int| 0 <= i < rest.len() implies p(#[trigger] rest[i]) by {
            assert(rest[i] == s[i + 1]);
        }
        lemma_strip_all(rest, p);
    }
}

/// What `strip` leaves is a stretch of `s`: each of its characters is a
/// character of `s`.
pub proof fn lemma_strip_is_stretch(s: Seq<char>, p: spec_fn(char) -> bool)
    ensures
        forall|i: int| 0 <= i < strip(s, p).len() ==> s.contains(#[trigger] strip(s, p)[i]),
{
    let a = strip_start(s, p);
    let b = strip(s, p);
    lemma_strip_start_is_suffix(s, p);
    lemma_strip_end_is_prefix(a, p);
    assert forall|i: int| 0 <= i < b.len() implies s.contains(#[trigger] b[i]) by {
        assert(b[i] == a[i]);
        assert(a[i] == s[s.len() - a.len() + i]);
    }
}

/// What follows the last `sep` holds no `sep`, and is not empty where `s`
/// does not end with `sep`.
pub proof fn lemma_after_last(s: Seq<char>, sep: char)
    ensures
        !after_last(s, sep).contains(sep),
        after_last(s, sep).len() <= s.len(),
        after_last(s, sep) == s.subrange(s.len() - after_last(s, sep).len(), s.len() as int),
        s.len() > 0 && s.last() != sep ==> after_last(s, sep).len() > 0,
        !s.contains(sep) ==> after_last(s, sep) == s,
        after_last(s, sep).len() < s.len() ==> s[s.len() - after_last(s, sep).len() - 1] == sep,
    decreases s.len(),
{
    if s.len() > 0 && s.last() != sep {
        lemma_after_last(s.drop_last(), sep);
    }
}

// ---------------------------------------------------------------------------
// Conversions
// ---------------------------------------------------------------------------

/// Appends one character to a string.
///
/// Trusted: stands for `String::push`, which adds `c` at the end of the
/// string and changes nothing else.
#[verifier::external_body]
pub(crate) fn push_char(s: &mut String, c: char)
    ensures
        final(s)@ == old(s)@.push(c),
{
    s.push(c)
}

/// The characters of `s`, in order.
pub fn chars_of(s: &str) -> (v: Vec<char>)
    ensures
        v@ == s@,
{
    let mut v: Vec<char> = Vec::new();
    for c in it: s.chars()
        invariant
            it.seq() == s@,
            v@ == s@.take(it.index()),
    {
        v.push(c);
    }
    v
}

/// The string made of the characters of `v`, in order.
pub fn string_of(v: &Vec<char>) -> (s: String)
    ensures
        s@ == v@,
{
    let mut s = String::new();
    let mut i: usize = 0;
    while i < v.len()
        invariant
            i <= v.len(),
            s@ == v@.take(i as int),
        decreases v.len() - i,
    {
        push_char(&mut s, v[i]);
        i += 1;
    }
    s
}

// ---------------------------------------------------------------------------
// Executable operations on `Vec<char>`
// ---------------------------------------------------------------------------

/// The stretch of `v` from `from` up to `to`.
pub(crate) fn slice_of(v: &Vec<char>, from: usize, to: usize) -> (r: Vec<char>)
    requires
        from <= to <= v.len(),
    ensures
        r@ == v@.subrange(from as int, to as int),
{
    let mut r: Vec<char> = Vec::new();
    let mut i: usize = from;
    while i < to
        invariant
            from <= i <= to <= v.len(),
            r@ == v@.subrange(from as int, i as int),
        decreases to - i,
    {
        r.push(v[i]);
        i += 1;
    }
    r
}

/// Adds the characters of `more` at the end of `out`.
pub fn append_chars(out: &mut Vec<char>, more: &Vec<char>)
    ensures
        final(out)@ == old(out)@ + more@,
{
    let mut i: usize = 0;
    while i < more.len()
        invariant
            i <= more.len(),
            out@ == old(out)@ + more@.take(i as int),
        decreases more.len() - i,
    {
        out.push(more[i]);
        i += 1;
    }
}

/// `v` without the white space at either end.
pub fn trim(v: &Vec<char>) -> (r: Vec<char>)
    ensures
        r@ == trimmed(v@),
{
    let ghost p = is_white();
    let n: usize = v.len();
    let mut from: usize = 0;
    assert(v@.subrange(0, n as int) =~= v@);
    while from < n && is_whitespace(v[from])
        invariant
            n == v.len(),
            from <= n,
            p == is_white(),
            strip_start(v@, p) == strip_start(v@.subrange(from as int, n as int), p),
        decreases n - from,
    {
        assert(v@.subrange(from as int, n as int).drop_first() =~= v@.subrange(
            from as int + 1,
            n as int,
        ));
        from += 1;
    }
    let mut to: usize = n;
    while to > from && is_whitespace(v[to - 1])
        invariant
            n == v.len(),
            from <= to <= n,
            p == is_white(),
            strip(v@, p) == strip_end(v@.subrange(from as int, to as int), p),
        decreases to - from,
    {
        assert(v@.subrange(from as int, to as int).drop_last() =~= v@.subrange(
            from as int,
            to as int - 1,
        ));
        to -= 1;
    }
    slice_of(v, from, to)
}

/// `v` without the occurrences of `ch` at either end.
pub fn trim_matches(v: &Vec<char>, ch: char) -> (r: Vec<char>)
    ensures
        r@ == trimmed_of(v@, ch),
{
    let ghost p = is_char(ch);
    let n: usize = v.len();
    let mut from: usize = 0;
    assert(v@.subrange(0, n as int) =~= v@);
    while from < n && v[from] == ch
        invariant
            n == v.len(),
            from <= n,
            p == is_char(ch),
            strip_start(v@, p) == strip_start(v@.subrange(from as int, n as int), p),
        decreases n - from,
    {
        assert(v@.subrange(from as int, n as int).drop_first() =~= v@.subrange(
            from as int + 1,
            n as int,
        ));
        from += 1;
    }
    let mut to: usize = n;
    while to > from && v[to - 1] == ch
        invariant
            n == v.len(),
            from <= to <= n,
            p == is_char(ch),
            strip(v@, p) == strip_end(v@.subrange(from as int, to as int), p),
        decreases to - from,
    {
        assert(v@.subrange(from as int, to as int).drop_last() =~= v@.subrange(
            from as int,
            to as int - 1,
        ));
        to -= 1;
    }
    slice_of(v, from, to)
}

/// Whether `c` occurs in `v`.
pub fn contains_char(v: &Vec<char>, c: char) -> (b: bool)
    ensures
        b == v@.contains(c),
{
    let mut i: usize = 0;
    while i < v.len()
        invariant
            i <= v.len(),
            forall|k: int| 0 <= k < i ==> v@[k] != c,
        decreases v.len() - i,
    {
        if v[i] == c {
            return true;
        }
        i += 1;
    }
    false
}

/// Whether `v` begins with `prefix`.
pub fn starts_with(v: &Vec<char>, prefix: &Vec<char>) -> (b: bool)
    ensures
        b == prefix@.is_prefix_of(v@),
{
    if prefix.len() > v.len() {
        return false;
    }
    let mut i: usize = 0;
    while i < prefix.len()
        invariant
            i <= prefix.len() <= v.len(),
            forall|k: int| 0 <= k < i ==> v@[k] == prefix@[k],
        decreases prefix.len() - i,
    {
        if v[i] != prefix[i] {
            return false;
        }
        i += 1;
    }
    true
}

/// What follows the last `sep` in `v`; all of `v` where it holds no `sep`.
pub fn after_last_char(v: &Vec<char>, sep: char) -> (r: Vec<char>)
    ensures
        r@ == after_last(v@, sep),
{
    let n: usize = v.len();
    let mut from: usize = n;
    assert(v@.subrange(0, n as int) =~= v@);
    while from > 0 && v[from - 1] != sep
        invariant
            n == v.len(),
            from <= n,
            after_last(v@, sep) == after_last(v@.subrange(0, from as int), sep) + v@.subrange(
                from as int,
                n as int,
            ),
        decreases from,
    {
        assert(v@.subrange(0, from as int).drop_last() =~= v@.subrange(0, from as int - 1));
        from -= 1;
    }
    slice_of(v, from, n)
}

/// `v` with every ASCII capital letter replaced by its small letter.
pub fn to_lowercase(v: &Vec<char>) -> (r: Vec<char>)
    ensures
        r@ == lowercased(v@),
{
    let mut r: Vec<char> = Vec::new();
    let mut i: usize = 0;
    while i < v.len()
        invariant
            i <= v.len(),
            r@ == lowercased(v@.take(i as int)),
        decreases v.len() - i,
    {
        r.push(to_lower(v[i]));
        i += 1;
    }
    r
}

/// Whether every character of `v` is an ASCII digit.
pub fn is_all_digits(v: &Vec<char>) -> (b: bool)
    ensures
        b == all_digits(v@),
{
    let mut i: usize = 0;
    while i < v.len()
        invariant
            i <= v.len(),
            forall|k: int| 0 <= k < i ==> is_ascii_digit(#[trigger] v@[k]),
        decreases v.len() - i,
    {
        if !is_digit(v[i]) {
            return false;
        }
        i += 1;
    }
    true
}

/// Adds `n`, written in base ten, at the end of `out`.
pub fn push_decimal(out: &mut Vec<char>, n: u64)
    ensures
        final(out)@ == old(out)@ + decimal(n as nat),
    decreases n,
{
    if n >= 10 {
        push_decimal(out, n / 10);
    }
    let d: u8 = (n % 10) as u8;
    out.push((d + 48) as char);
}

/// The characters of a string that is kept in the program's text.
pub fn literal(s: &'static str) -> (v: Vec<char>)
    ensures
        v@ == s@,
{
    chars_of(s)
}

} // verus!
