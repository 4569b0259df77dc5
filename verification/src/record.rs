//! The catalog's three response shapes, and the book record that all of them
//! are mapped to.

use vstd::prelude::*;
use crate::normalize::{is_bare_id, is_isbn13};
use crate::text::{chars_of, lowercased, string_of, to_lowercase, trim, trimmed};

verus! {

/// One page of search results.
#[derive(Debug, Clone)]
pub struct OpenLibrarySearchResponse {
    pub docs: Vec<OpenLibrarySearchDoc>,
}

/// One search result.
#[derive(Debug, Clone)]
pub struct OpenLibrarySearchDoc {
    pub key: String,
    pub title: String,
    pub edition_key: Vec<String>,
    pub isbn: Vec<String>,
    pub cover_i: Option<i64>,
    pub first_publish_year: Option<u16>,
    pub language: Vec<String>,
    pub author_name: Vec<String>,
    pub subject: Vec<String>,
    pub publisher: Vec<String>,
    pub number_of_pages_median: Option<i64>,
}

/// A work: the bibliographic entity that unites the editions of a title.
#[derive(Debug, Clone)]
pub struct OpenLibraryWorkResponse {
    pub key: String,
    pub title: String,
    pub description: Option<OpenLibraryDescription>,
    pub covers: Vec<i64>,
    pub subjects: Vec<String>,
    pub first_publish_date: Option<String>,
}

/// An edition: one published instance of a work.
#[derive(Debug, Clone)]
pub struct OpenLibraryEditionResponse {
    pub key: String,
    pub title: String,
    pub description: Option<OpenLibraryDescription>,
    pub works: Vec<OpenLibraryKeyRef>,
    pub isbn_13: Vec<String>,
    pub covers: Vec<i64>,
    pub number_of_pages: Option<i64>,
    pub publish_date: Option<String>,
    pub languages: Vec<OpenLibraryKeyRef>,
    pub publishers: Vec<String>,
}

/// The editions listed for a work.
#[derive(Debug, Clone)]
pub struct OpenLibraryWorkEditionsResponse {
    pub entries: Vec<OpenLibraryEditionResponse>,
}

/// A reference to another catalog entry, by its path.
#[derive(Debug, Clone)]
pub struct OpenLibraryKeyRef {
    pub key: String,
}

/// A description, which the catalog sends either as a string or as an object
/// that may hold one.
#[derive(Debug, Clone)]
pub enum OpenLibraryDescription {
    Text(String),
    Value { value: Option<String> },
}

/// `s` where it is not empty.
pub open spec fn non_empty(s: Seq<char>) -> Option<Seq<char>> {
    if s.len() == 0 {
        None
    } else {
        Some(s)
    }
}

/// The first element of `s`, where it has one.
pub open spec fn first_of<T>(s: Seq<T>) -> Option<T> {
    if s.len() == 0 {
        None
    } else {
        Some(s[0])
    }
}

/// `a` where it is present, else `b`.
pub open spec fn or_else<T>(a: Option<T>, b: Option<T>) -> Option<T> {
    if a is Some {
        a
    } else {
        b
    }
}

impl OpenLibraryDescription {
    /// The text of the description, without white space at its ends; none
    /// where nothing is left, or where the object holds no string.
    pub open spec fn text(self) -> Option<Seq<char>> {
        match self {
            OpenLibraryDescription::Text(value) => non_empty(trimmed(value@)),
            OpenLibraryDescription::Value { value: Some(value) } => non_empty(trimmed(value@)),
            OpenLibraryDescription::Value { value: None } => None,
        }
    }

    /// Extracts the trimmed text of either shape.
    pub fn as_text(&self) -> (text: Option<String>)
        ensures
            text.deep_view() == self.text(),
    {
        match self {
            OpenLibraryDescription::Text(value) => trimmed_text(value.as_str()),
            OpenLibraryDescription::Value { value } => match value {
                Some(value) => trimmed_text(value.as_str()),
                None => None,
            },
        }
    }
}

/// `value` without white space at its ends, where that is not empty.
pub fn trimmed_text(value: &str) -> (text: Option<String>)
    ensures
        text.deep_view() == non_empty(trimmed(value@)),
{
    let t = trim(&chars_of(value));
    if t.len() == 0 {
        None
    } else {
        Some(string_of(&t))
    }
}

/// The book record that every response shape is mapped to.
#[derive(Debug, Clone)]
pub struct OpenLibraryBookRecord {
    pub title: String,
    pub edition_id: Option<String>,
    pub work_id: Option<String>,
    pub isbn13: Option<String>,
    /// The numbers of the cover images, in the order in which they were found.
    pub cover_ids: Vec<u64>,
    /// The number of the primary cover image.
    pub cover_id: Option<u64>,
    pub publish_year: Option<u16>,
    pub description: Option<String>,
    pub pages: Option<u32>,
    pub language: Option<String>,
    pub authors: Vec<String>,
    /// The catalog keys of the authors: the key at an index belongs to the
    /// author at that index.
    pub author_keys: Vec<String>,
    pub subjects: Vec<String>,
    pub publishers: Vec<String>,
}

/// What a book record holds, as mathematical values.
#[verifier::ext_equal]
pub struct BookRecordView {
    pub title: Seq<char>,
    pub edition_id: Option<Seq<char>>,
    pub work_id: Option<Seq<char>>,
    pub isbn13: Option<Seq<char>>,
    pub cover_ids: Seq<u64>,
    pub cover_id: Option<u64>,
    pub publish_year: Option<u16>,
    pub description: Option<Seq<char>>,
    pub pages: Option<u32>,
    pub language: Option<Seq<char>>,
    pub authors: Seq<Seq<char>>,
    pub author_keys: Seq<Seq<char>>,
    pub subjects: Seq<Seq<char>>,
    pub publishers: Seq<Seq<char>>,
}

impl View for OpenLibraryBookRecord {
    type V = BookRecordView;

    open spec fn view(&self) -> BookRecordView {
        BookRecordView {
            title: self.title@,
            edition_id: self.edition_id.deep_view(),
            work_id: self.work_id.deep_view(),
            isbn13: self.isbn13.deep_view(),
            cover_ids: self.cover_ids@,
            cover_id: self.cover_id,
            publish_year: self.publish_year,
            description: self.description.deep_view(),
            pages: self.pages,
            language: self.language.deep_view(),
            authors: self.authors.deep_view(),
            author_keys: self.author_keys.deep_view(),
            subjects: self.subjects.deep_view(),
            publishers: self.publishers.deep_view(),
        }
    }
}

impl DeepView for OpenLibraryBookRecord {
    type V = BookRecordView;

    open spec fn deep_view(&self) -> BookRecordView {
        self@
    }
}

impl BookRecordView {
    /// The record that holds nothing: an empty title and no other value.
    pub open spec fn blank() -> BookRecordView {
        BookRecordView {
            title: Seq::empty(),
            edition_id: None,
            work_id: None,
            isbn13: None,
            cover_ids: Seq::empty(),
            cover_id: None,
            publish_year: None,
            description: None,
            pages: None,
            language: None,
            authors: Seq::empty(),
            author_keys: Seq::empty(),
            subjects: Seq::empty(),
            publishers: Seq::empty(),
        }
    }

    /// The invariant of a record as the extractor makes it: the cover numbers
    /// are positive and none occurs twice, the primary cover is the first of
    /// them, the identifiers are bare, the ISBN is thirteen digits and the
    /// page count is positive.
    pub open spec fn is_canonical(self) -> bool {
        &&& forall|i: int| 0 <= i < self.cover_ids.len() ==> #[trigger] self.cover_ids[i] > 0
        &&& self.cover_ids.no_duplicates()
        &&& self.cover_id == first_of(self.cover_ids)
        &&& self.edition_id matches Some(id) ==> is_bare_id(id)
        &&& self.work_id matches Some(id) ==> is_bare_id(id)
        &&& self.isbn13 matches Some(isbn) ==> is_isbn13(isbn)
        &&& self.pages matches Some(pages) ==> pages > 0
    }

    /// The key by which two records count as the same book: the work
    /// identifier where there is one, else the edition identifier, else the
    /// ISBN, else the title in small letters; each behind the name of its
    /// kind.
    pub open spec fn dedup_key(self) -> Seq<char> {
        if let Some(id) = self.work_id {
            "work:"@ + id
        } else if let Some(id) = self.edition_id {
            "edition:"@ + id
        } else if let Some(isbn) = self.isbn13 {
            "isbn13:"@ + isbn
        } else {
            "title:"@ + lowercased(self.title)
        }
    }
}

impl Default for OpenLibraryBookRecord {
    fn default() -> (record: OpenLibraryBookRecord)
        ensures
            record@ == BookRecordView::blank(),
    {
        OpenLibraryBookRecord {
            title: String::new(),
            edition_id: None,
            work_id: None,
            isbn13: None,
            cover_ids: Vec::new(),
            cover_id: None,
            publish_year: None,
            description: None,
            pages: None,
            language: None,
            authors: Vec::new(),
            author_keys: Vec::new(),
            subjects: Vec::new(),
            publishers: Vec::new(),
        }
    }
}

impl OpenLibraryBookRecord {
    /// The key by which duplicates of this record are found.
    pub fn dedup_key(&self) -> (key: String)
        ensures
            key@ == self@.dedup_key(),
    {
        if let Some(work_id) = &self.work_id {
            let mut key = String::from_str("work:");
            key.append(work_id.as_str());
            return key;
        }
        if let Some(edition_id) = &self.edition_id {
            let mut key = String::from_str("edition:");
            key.append(edition_id.as_str());
            return key;
        }
        if let Some(isbn13) = &self.isbn13 {
            let mut key = String::from_str("isbn13:");
            key.append(isbn13.as_str());
            return key;
        }
        let mut key = String::from_str("title:");
        let title = string_of(&to_lowercase(&chars_of(self.title.as_str())));
        key.append(title.as_str());
        key
    }
}

/// A copy of a list of strings.
pub fn clone_strings(v: &Vec<String>) -> (r: Vec<String>)
    ensures
        r@ == v@,
        r.deep_view() == v.deep_view(),
{
    let mut r: Vec<String> = Vec::new();
    let mut i: usize = 0;
    while i < v.len()
        invariant
            i <= v.len(),
            r@ == v@.take(i as int),
        decreases v.len() - i,
    {
        r.push(v[i].clone());
        i += 1;
    }
    r
}

} // verus!
