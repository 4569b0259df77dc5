//! The addresses under which the catalog answers, and the percent-encoding of
//! a search query.

use vstd::prelude::*;
use vstd::string::StringSliceAdditionalSpecFns;
use crate::text::{
    append_chars, decimal, lemma_decimal_injective, literal, push_char, push_decimal, string_of,
};

verus! {

/// `b` passes through percent-encoding unchanged: an ASCII letter or digit,
/// or one of `-`, `_`, `.`, `~`.
pub open spec fn is_unreserved(b: u8) -> bool {
    (48 <= b <= 57) || (65 <= b <= 90) || (97 <= b <= 122) || b == 45 || b == 95 || b == 46 || b
        == 126
}

/// The capital hexadecimal digit of `n`.
pub open spec fn hex_digit(n: int) -> char
    recommends
        0 <= n < 16,
{
    if n < 10 {
        (n + 48) as char
    } else {
        (n + 55) as char
    }
}

/// One byte, percent-encoded: itself where it is unreserved, `%20` for a
/// space, and for any other byte `%` and its two capital hexadecimal digits.
pub open spec fn encoded_byte(b: u8) -> Seq<char> {
    if is_unreserved(b) {
        seq![b as char]
    } else if b == 32 {
        seq!['%', '2', '0']
    } else {
        seq!['%', hex_digit(b as int / 16), hex_digit(b as int % 16)]
    }
}

/// The bytes, each percent-encoded, one after another.
pub open spec fn percent_encoded(bytes: Seq<u8>) -> Seq<char>
    decreases bytes.len(),
{
    if bytes.len() == 0 {
        Seq::empty()
    } else {
        percent_encoded(bytes.drop_last()) + encoded_byte(bytes.last())
    }
}

fn hex_char(n: u8) -> (c: char)
    requires
        n < 16,
    ensures
        c == hex_digit(n as int),
{
    if n < 10 {
        (n + 48) as char
    } else {
        (n + 55) as char
    }
}

/// Percent-encodes the UTF-8 bytes of a query so that it can stand in an
/// address.
pub fn encode_query_component(value: &str) -> (encoded: String)
    ensures
        encoded@ == percent_encoded(value.spec_bytes()),
{
    let bytes = value.as_bytes();
    let mut encoded = String::new();
    let mut i: usize = 0;
    while i < bytes.len()
        invariant
            i <= bytes.len(),
            encoded@ == percent_encoded(bytes@.take(i as int)),
        decreases bytes.len() - i,
    {
        let b: u8 = bytes[i];
        assert(bytes@.take(i as int + 1).drop_last() =~= bytes@.take(i as int));
        let ghost before = encoded@;
        if (b >= 48 && b <= 57) || (b >= 65 && b <= 90) || (b >= 97 && b <= 122) || b == 45 || b
            == 95 || b == 46 || b == 126 {
            push_char(&mut encoded, b as char);
        } else if b == 32 {
            push_char(&mut encoded, '%');
            push_char(&mut encoded, '2');
            push_char(&mut encoded, '0');
        } else {
            push_char(&mut encoded, '%');
            push_char(&mut encoded, hex_char(b / 16));
            push_char(&mut encoded, hex_char(b % 16));
        }
        i += 1;
    }
    assert(bytes@.take(bytes.len() as int) =~= bytes@);
    encoded
}

/// The address of a search for `search`, limited to one page of 25 results.
pub fn build_search_url(search: &str) -> (url: String)
    ensures
        url@ == "https://openlibrary.org/search.json?q="@ + percent_encoded(search.spec_bytes())
            + "&limit=25"@,
{
    let mut url = String::from_str("https://openlibrary.org/search.json?q=");
    let query = encode_query_component(search);
    url.append(query.as_str());
    url.append("&limit=25");
    url
}

/// The address of the edition with the ISBN `isbn13`.
pub fn build_isbn_url(isbn13: &str) -> (url: String)
    ensures
        url@ == "https://openlibrary.org/isbn/"@ + isbn13@ + ".json"@,
{
    let mut url = String::from_str("https://openlibrary.org/isbn/");
    url.append(isbn13);
    url.append(".json");
    url
}

/// The address of the edition `edition_id`.
pub fn build_edition_url(edition_id: &str) -> (url: String)
    ensures
        url@ == "https://openlibrary.org/books/"@ + edition_id@ + ".json"@,
{
    let mut url = String::from_str("https://openlibrary.org/books/");
    url.append(edition_id);
    url.append(".json");
    url
}

/// The address of the work `work_id`.
pub fn build_work_url(work_id: &str) -> (url: String)
    ensures
        url@ == "https://openlibrary.org/works/"@ + work_id@ + ".json"@,
{
    let mut url = String::from_str("https://openlibrary.org/works/");
    url.append(work_id);
    url.append(".json");
    url
}

/// The address of the first edition listed for the work `work_id`.
pub fn build_work_editions_url(work_id: &str) -> (url: String)
    ensures
        url@ == "https://openlibrary.org/works/"@ + work_id@ + "/editions.json?limit=1"@,
{
    let mut url = String::from_str("https://openlibrary.org/works/");
    url.append(work_id);
    url.append("/editions.json?limit=1");
    url
}

/// The address of the large cover image with the number `cover_id`.
pub open spec fn cover_url_of_id(cover_id: u64) -> Seq<char> {
    "https://covers.openlibrary.org/b/id/"@ + decimal(cover_id as nat) + "-L.jpg"@
}

/// The address of the large cover image of the edition or work `olid`.
pub open spec fn cover_url_of_olid(olid: Seq<char>) -> Seq<char> {
    "https://covers.openlibrary.org/b/olid/"@ + olid + "-L.jpg"@
}

/// Covers with different numbers have different addresses.
pub proof fn lemma_cover_urls_differ(a: u64, b: u64)
    requires
        a != b,
    ensures
        cover_url_of_id(a) != cover_url_of_id(b),
{
    let head = "https://covers.openlibrary.org/b/id/"@;
    let tail = "-L.jpg"@;
    let x = decimal(a as nat);
    let y = decimal(b as nat);
    if cover_url_of_id(a) == cover_url_of_id(b) {
        assert((head + x + tail).len() == (head + y + tail).len());
        assert forall|i: int| 0 <= i < x.len() implies x[i] == y[i] by {
            assert((head + x + tail)[head.len() + i] == x[i]);
        }
        assert(x =~= y);
        lemma_decimal_injective(a as nat, b as nat);
    }
}

/// The address of a cover image, by its number.
pub fn build_cover_url_from_id(cover_id: u64) -> (url: String)
    ensures
        url@ == cover_url_of_id(cover_id),
{
    let mut out = literal("https://covers.openlibrary.org/b/id/");
    push_decimal(&mut out, cover_id);
    let tail = literal("-L.jpg");
    append_chars(&mut out, &tail);
    string_of(&out)
}

/// The address of a cover image, by the identifier of an edition or a work.
pub fn build_cover_url_from_olid(olid: &str) -> (url: String)
    ensures
        url@ == cover_url_of_olid(olid@),
{
    let mut url = String::from_str("https://covers.openlibrary.org/b/olid/");
    url.append(olid);
    url.append("-L.jpg");
    url
}

} // verus!
