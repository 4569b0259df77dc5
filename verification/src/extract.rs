//! The record extractor: one mapping from each response shape to a book
//! record.

use vstd::prelude::*;
use crate::normalize::{
    catalog_id, extract_year_from_text, first_isbn13, first_isbn13_of, first_year,
    language_code, language_from_key, lemma_catalog_id, lemma_first_isbn13_of,
    normalize_openlibrary_id,
};
use crate::record::{
    clone_strings, first_of, BookRecordView, OpenLibraryBookRecord,
    OpenLibraryEditionResponse, OpenLibrarySearchDoc, OpenLibraryWorkEditionsResponse,
    OpenLibraryWorkResponse,
};
use crate::text::{chars_of, string_of, trim, trimmed};

verus! {

// ---------------------------------------------------------------------------
// Numbers
// ---------------------------------------------------------------------------

/// The cover number that `value` is: itself where it is positive.
pub open spec fn cover_id_of(value: i64) -> Option<u64> {
    if value > 0 {
        Some(value as u64)
    } else {
        None
    }
}

/// The page count that `value` is: itself where it is positive and fits 32
/// bits.
pub open spec fn page_count_of(value: i64) -> Option<u32> {
    if 0 < value <= u32::MAX {
        Some(value as u32)
    } else {
        None
    }
}

/// `ids` with `id` added at the end, unless it is there already.
pub open spec fn with_new(ids: Seq<u64>, id: u64) -> Seq<u64> {
    if ids.contains(id) {
        ids
    } else {
        ids.push(id)
    }
}

/// The positive numbers among `values`, each once, in the order of their
/// first occurrence.
pub open spec fn cover_ids_of(values: Seq<i64>) -> Seq<u64>
    decreases values.len(),
{
    if values.len() == 0 {
        Seq::empty()
    } else {
        let before = cover_ids_of(values.drop_last());
        match cover_id_of(values.last()) {
            Some(id) => with_new(before, id),
            None => before,
        }
    }
}

/// Adding a new number keeps a list free of duplicates.
pub proof fn lemma_with_new_no_duplicates(ids: Seq<u64>, id: u64)
    requires
        ids.no_duplicates(),
    ensures
        with_new(ids, id).no_duplicates(),
        with_new(ids, id).contains(id),
        forall|x: u64| with_new(ids, id).contains(x) <==> ids.contains(x) || x == id,
{
    let r = with_new(ids, id);
    if !ids.contains(id) {
        assert(r[ids.len() as int] == id);
        assert forall|x: u64| ids.contains(x) implies r.contains(x) by {
            let i = choose|i: int| 0 <= i < ids.len() && ids[i] == x;
            assert(r[i] == x);
        }
    }
}

/// The cover numbers taken from a list are positive, none occurs twice, and
/// they are the positive numbers of the list.
pub proof fn lemma_cover_ids_of(values: Seq<i64>)
    ensures
        cover_ids_of(values).no_duplicates(),
        forall|i: int|
            0 <= i < cover_ids_of(values).len() ==> #[trigger] cover_ids_of(values)[i] > 0,
        forall|x: u64|
            cover_ids_of(values).contains(x) <==> x > 0 && exists|k: int|
                0 <= k < values.len() && #[trigger] values[k] == x,
    decreases values.len(),
{
    let r = cover_ids_of(values);
    if values.len() > 0 {
        let init = values.drop_last();
        let before = cover_ids_of(init);
        lemma_cover_ids_of(init);
        let last = values.last();
        if last > 0 {
            lemma_with_new_no_duplicates(before, last as u64);
        }
        assert forall|x: u64| r.contains(x) implies x > 0 && exists|k: int|
            0 <= k < values.len() && #[trigger] values[k] == x by {
            if before.contains(x) {
                let k = choose|k: int| 0 <= k < init.len() && #[trigger] init[k] == x;
                assert(values[k] == x);
            } else {
                assert(values[values.len() - 1] == x);
            }
        }
        assert forall|x: u64|
            x > 0 && (exists|k: int|
                0 <= k < values.len() && #[trigger] values[k] == x) implies r.contains(x) by {
            let k = choose|k: int| 0 <= k < values.len() && #[trigger] values[k] == x;
            if k < init.len() {
                assert(init[k] == x);
                assert(before.contains(x));
            }
        }
    }
}

/// A positive cover number, or none.
pub fn positive_cover_id(value: i64) -> (id: Option<u64>)
    ensures
        id == cover_id_of(value),
{
    if value > 0 {
        Some(value as u64)
    } else {
        None
    }
}

/// A positive page count that fits 32 bits, or none.
pub fn positive_u32(value: i64) -> (pages: Option<u32>)
    ensures
        pages == page_count_of(value),
{
    if value > 0 && value <= 4294967295 {
        Some(value as u32)
    } else {
        None
    }
}

/// Whether `id` occurs in `ids`.
pub fn contains_id(ids: &Vec<u64>, id: u64) -> (b: bool)
    ensures
        b == ids@.contains(id),
{
    let mut i: usize = 0;
    while i < ids.len()
        invariant
            i <= ids.len(),
            forall|k: int| 0 <= k < i ==> ids@[k] != id,
        decreases ids.len() - i,
    {
        if ids[i] == id {
            return true;
        }
        i += 1;
    }
    false
}

/// The positive cover numbers of a list, each once, in the order in which
/// they first occur.
pub fn extract_cover_ids(values: &[i64]) -> (ids: Vec<u64>)
    ensures
        ids@ == cover_ids_of(values@),
        ids@.no_duplicates(),
        forall|i: int| 0 <= i < ids.len() ==> #[trigger] ids@[i] > 0,
{
    let mut ids: Vec<u64> = Vec::new();
    let mut i: usize = 0;
    while i < values.len()
        invariant
            i <= values.len(),
            ids@ == cover_ids_of(values@.take(i as int)),
        decreases values.len() - i,
    {
        assert(values@.take(i as int + 1).drop_last() =~= values@.take(i as int));
        if let Some(id) = positive_cover_id(values[i]) {
            if !contains_id(&ids, id) {
                ids.push(id);
            }
        }
        i += 1;
    }
    proof {
        assert(values@.take(values.len() as int) =~= values@);
        lemma_cover_ids_of(values@);
    }
    ids
}

// ---------------------------------------------------------------------------
// Search results
// ---------------------------------------------------------------------------

/// The list that holds `id` where there is one.
pub open spec fn seq_of<T>(id: Option<T>) -> Seq<T> {
    match id {
        Some(id) => seq![id],
        None => Seq::empty(),
    }
}

/// The record of a search result; none where the title is blank.
pub open spec fn search_doc_record(doc: OpenLibrarySearchDoc) -> Option<BookRecordView> {
    if trimmed(doc.title@).len() == 0 {
        None
    } else {
        Some(
            BookRecordView {
                title: trimmed(doc.title@),
                edition_id: match first_of(doc.edition_key@) {
                    Some(key) => catalog_id(key@, "books"@),
                    None => None,
                },
                work_id: catalog_id(doc.key@, "works"@),
                isbn13: first_isbn13_of(doc.isbn.deep_view()),
                cover_ids: match doc.cover_i {
                    Some(value) => seq_of(cover_id_of(value)),
                    None => Seq::empty(),
                },
                cover_id: match doc.cover_i {
                    Some(value) => cover_id_of(value),
                    None => None,
                },
                publish_year: doc.first_publish_year,
                description: None,
                pages: match doc.number_of_pages_median {
                    Some(value) => page_count_of(value),
                    None => None,
                },
                language: first_of(doc.language.deep_view()),
                authors: doc.author_name.deep_view(),
                author_keys: Seq::empty(),
                subjects: doc.subject.deep_view(),
                publishers: doc.publisher.deep_view(),
            },
        )
    }
}

/// The record of a search result is canonical.
pub proof fn lemma_search_doc_record(doc: OpenLibrarySearchDoc)
    ensures
        search_doc_record(doc) matches Some(record) ==> record.is_canonical(),
{
    if let Some(key) = first_of(doc.edition_key@) {
        lemma_catalog_id(key@, "books"@);
    }
    lemma_catalog_id(doc.key@, "works"@);
    lemma_first_isbn13_of(doc.isbn.deep_view());
}

/// Maps a search result to a record. A result whose title is blank gives
/// none, so that it can be skipped.
pub fn book_record_from_search_doc(doc: &OpenLibrarySearchDoc) -> (record: Option<
    OpenLibraryBookRecord,
>)
    ensures
        record.deep_view() == search_doc_record(*doc),
        record is None <==> trimmed(doc.title@).len() == 0,
        record matches Some(r) ==> r@.is_canonical(),
{
    let title = trim(&chars_of(doc.title.as_str()));
    if title.len() == 0 {
        return None;
    }
    let edition_id = if doc.edition_key.len() > 0 {
        normalize_openlibrary_id(doc.edition_key[0].as_str(), "books")
    } else {
        None
    };
    let work_id = normalize_openlibrary_id(doc.key.as_str(), "works");
    let cover_id = match doc.cover_i {
        Some(value) => positive_cover_id(value),
        None => None,
    };
    let mut cover_ids: Vec<u64> = Vec::new();
    if let Some(id) = cover_id {
        cover_ids.push(id);
    }
    let pages = match doc.number_of_pages_median {
        Some(value) => positive_u32(value),
        None => None,
    };
    let language = if doc.language.len() > 0 {
        Some(doc.language[0].clone())
    } else {
        None
    };
    let record = OpenLibraryBookRecord {
        title: string_of(&title),
        edition_id,
        work_id,
        isbn13: first_isbn13(doc.isbn.as_slice()),
        cover_ids,
        cover_id,
        publish_year: doc.first_publish_year,
        description: None,
        pages,
        language,
        authors: clone_strings(&doc.author_name),
        author_keys: Vec::new(),
        subjects: clone_strings(&doc.subject),
        publishers: clone_strings(&doc.publisher),
    };
    Some(record)
}

// ---------------------------------------------------------------------------
// Editions and works
// ---------------------------------------------------------------------------

/// The record of an edition.
pub open spec fn edition_record(response: OpenLibraryEditionResponse) -> BookRecordView {
    BookRecordView {
        title: trimmed(response.title@),
        edition_id: catalog_id(response.key@, "books"@),
        work_id: match first_of(response.works@) {
            Some(work) => catalog_id(work.key@, "works"@),
            None => None,
        },
        isbn13: first_isbn13_of(response.isbn_13.deep_view()),
        cover_ids: cover_ids_of(response.covers@),
        cover_id: first_of(cover_ids_of(response.covers@)),
        publish_year: match response.publish_date {
            Some(date) => first_year(date@),
            None => None,
        },
        description: match response.description {
            Some(description) => description.text(),
            None => None,
        },
        pages: match response.number_of_pages {
            Some(value) => page_count_of(value),
            None => None,
        },
        language: match first_of(response.languages@) {
            Some(language) => language_code(language.key@),
            None => None,
        },
        authors: Seq::empty(),
        author_keys: Seq::empty(),
        subjects: Seq::empty(),
        publishers: response.publishers.deep_view(),
    }
}

/// The record of an edition is canonical.
pub proof fn lemma_edition_record(response: OpenLibraryEditionResponse)
    ensures
        edition_record(response).is_canonical(),
{
    lemma_catalog_id(response.key@, "books"@);
    if let Some(work) = first_of(response.works@) {
        lemma_catalog_id(work.key@, "works"@);
    }
    lemma_first_isbn13_of(response.isbn_13.deep_view());
    lemma_cover_ids_of(response.covers@);
}

/// Maps an edition to a record. An edition names neither authors nor
/// subjects.
pub fn book_record_from_edition_response(response: &OpenLibraryEditionResponse) -> (record:
    OpenLibraryBookRecord)
    ensures
        record@ == edition_record(*response),
        record@.is_canonical(),
        record@.publish_year matches Some(year) ==> 1000 <= year <= 2999,
{
    let description = match &response.description {
        Some(description) => description.as_text(),
        None => None,
    };
    let publish_year = match &response.publish_date {
        Some(date) => extract_year_from_text(date.as_str()),
        None => None,
    };
    let cover_ids = extract_cover_ids(response.covers.as_slice());
    let cover_id = if cover_ids.len() > 0 {
        Some(cover_ids[0])
    } else {
        None
    };
    let work_id = if response.works.len() > 0 {
        normalize_openlibrary_id(response.works[0].key.as_str(), "works")
    } else {
        None
    };
    let pages = match response.number_of_pages {
        Some(value) => positive_u32(value),
        None => None,
    };
    let language = if response.languages.len() > 0 {
        language_from_key(response.languages[0].key.as_str())
    } else {
        None
    };
    let record = OpenLibraryBookRecord {
        title: string_of(&trim(&chars_of(response.title.as_str()))),
        edition_id: normalize_openlibrary_id(response.key.as_str(), "books"),
        work_id,
        isbn13: first_isbn13(response.isbn_13.as_slice()),
        cover_ids,
        cover_id,
        publish_year,
        description,
        pages,
        language,
        authors: Vec::new(),
        author_keys: Vec::new(),
        subjects: Vec::new(),
        publishers: clone_strings(&response.publishers),
    };
    record
}

/// The record of a work.
pub open spec fn work_record(response: OpenLibraryWorkResponse) -> BookRecordView {
    BookRecordView {
        title: trimmed(response.title@),
        edition_id: None,
        work_id: catalog_id(response.key@, "works"@),
        isbn13: None,
        cover_ids: cover_ids_of(response.covers@),
        cover_id: first_of(cover_ids_of(response.covers@)),
        publish_year: match response.first_publish_date {
            Some(date) => first_year(date@),
            None => None,
        },
        description: match response.description {
            Some(description) => description.text(),
            None => None,
        },
        pages: None,
        language: None,
        authors: Seq::empty(),
        author_keys: Seq::empty(),
        subjects: response.subjects.deep_view(),
        publishers: Seq::empty(),
    }
}

/// The record of a work is canonical.
pub proof fn lemma_work_record(response: OpenLibraryWorkResponse)
    ensures
        work_record(response).is_canonical(),
{
    lemma_catalog_id(response.key@, "works"@);
    lemma_cover_ids_of(response.covers@);
}

/// Maps a work to a record. A work names no edition, ISBN, page count,
/// language, author or publisher.
pub fn book_record_from_work_response(response: &OpenLibraryWorkResponse) -> (record:
    OpenLibraryBookRecord)
    ensures
        record@ == work_record(*response),
        record@.is_canonical(),
        record@.publish_year matches Some(year) ==> 1000 <= year <= 2999,
{
    let cover_ids = extract_cover_ids(response.covers.as_slice());
    let cover_id = if cover_ids.len() > 0 {
        Some(cover_ids[0])
    } else {
        None
    };
    let publish_year = match &response.first_publish_date {
        Some(date) => extract_year_from_text(date.as_str()),
        None => None,
    };
    let description = match &response.description {
        Some(description) => description.as_text(),
        None => None,
    };
    let record = OpenLibraryBookRecord {
        title: string_of(&trim(&chars_of(response.title.as_str()))),
        edition_id: None,
        work_id: normalize_openlibrary_id(response.key.as_str(), "works"),
        isbn13: None,
        cover_ids,
        cover_id,
        publish_year,
        description,
        pages: None,
        language: None,
        authors: Vec::new(),
        author_keys: Vec::new(),
        subjects: clone_strings(&response.subjects),
        publishers: Vec::new(),
    };
    record
}

/// The record of the first edition listed for a work, where one is listed.
pub fn first_record_from_work_editions(response: &OpenLibraryWorkEditionsResponse) -> (record:
    Option<OpenLibraryBookRecord>)
    ensures
        record.deep_view() == match first_of(response.entries@) {
            Some(entry) => Some(edition_record(entry)),
            None => None,
        },
        record matches Some(r) ==> r@.is_canonical(),
{
    if response.entries.len() > 0 {
        Some(book_record_from_edition_response(&response.entries[0]))
    } else {
        None
    }
}

} // verus!
