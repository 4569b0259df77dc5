//! The resolution of a lookup: what to fetch for a query, in which order,
//! and how the responses become the list of records, of published results
//! and of images. Fetching itself is the caller's part.

use vstd::prelude::*;
use crate::convert::{
    images_of, openlibrary_book_to_images, openlibrary_book_to_result, result_of, CoverImage,
    CoverImageView, LookupResult,
};
use crate::dedup::{deduplicate_images, deduplicate_records, deduplicated, deduplicated_images};
use crate::extract::{
    book_record_from_edition_response, book_record_from_search_doc,
    book_record_from_work_response, edition_record, first_record_from_work_editions,
    search_doc_record, work_record,
};
use crate::merge::{merge_work_with_edition, merged_record};
use crate::normalize::{
    catalog_id, exact_isbn, isbn13_of, normalize_exact_isbn_search, normalize_isbn13,
    normalize_openlibrary_id,
};
use crate::record::{
    first_of, or_else, BookRecordView, OpenLibraryBookRecord, OpenLibraryEditionResponse,
    OpenLibrarySearchDoc, OpenLibrarySearchResponse, OpenLibraryWorkEditionsResponse,
    OpenLibraryWorkResponse,
};
use crate::text::{chars_of, trim, trimmed};
use crate::urls::{
    build_edition_url, build_isbn_url, build_search_url, build_work_editions_url, build_work_url,
    percent_encoded,
};

verus! {

// ---------------------------------------------------------------------------
// Queries
// ---------------------------------------------------------------------------

/// The identifiers that a query names, as the caller wrote them.
#[derive(Debug, Clone)]
pub struct LookupIds {
    pub isbn13: Option<String>,
    pub openlibrary_edition_id: Option<String>,
    pub openlibrary_work_id: Option<String>,
}

/// A query for a book, by name or by identifiers.
#[derive(Debug, Clone)]
pub struct LookupBook {
    pub name: Option<String>,
    pub ids: Option<LookupIds>,
}

/// A query: for a book, or for something that this catalog does not hold.
#[derive(Debug, Clone)]
pub enum LookupQuery {
    Book(LookupBook),
    Other,
}

/// The identifiers of a book query, normalised.
#[derive(Debug, Clone)]
pub struct BookIds {
    pub isbn13: Option<String>,
    pub edition_id: Option<String>,
    pub work_id: Option<String>,
}

/// Normalised identifiers, as mathematical values.
pub struct BookIdsView {
    pub isbn13: Option<Seq<char>>,
    pub edition_id: Option<Seq<char>>,
    pub work_id: Option<Seq<char>>,
}

impl View for BookIds {
    type V = BookIdsView;

    open spec fn view(&self) -> BookIdsView {
        BookIdsView {
            isbn13: self.isbn13.deep_view(),
            edition_id: self.edition_id.deep_view(),
            work_id: self.work_id.deep_view(),
        }
    }
}

impl DeepView for BookIds {
    type V = BookIdsView;

    open spec fn deep_view(&self) -> BookIdsView {
        self@
    }
}

/// The ISBN-13 that a query names, normalised.
pub open spec fn query_isbn13(ids: Option<LookupIds>) -> Option<Seq<char>> {
    match ids {
        Some(LookupIds { isbn13: Some(raw), .. }) => isbn13_of(raw@),
        _ => None,
    }
}

/// The edition identifier that a query names, normalised.
pub open spec fn query_edition_id(ids: Option<LookupIds>) -> Option<Seq<char>> {
    match ids {
        Some(LookupIds { openlibrary_edition_id: Some(raw), .. }) => catalog_id(raw@, "books"@),
        _ => None,
    }
}

/// The work identifier that a query names, normalised.
pub open spec fn query_work_id(ids: Option<LookupIds>) -> Option<Seq<char>> {
    match ids {
        Some(LookupIds { openlibrary_work_id: Some(raw), .. }) => catalog_id(raw@, "works"@),
        _ => None,
    }
}

/// The normalised identifiers of a query; none where it asks for no book.
pub open spec fn book_ids_of(query: LookupQuery) -> Option<BookIdsView> {
    match query {
        LookupQuery::Book(book) => Some(
            BookIdsView {
                isbn13: query_isbn13(book.ids),
                edition_id: query_edition_id(book.ids),
                work_id: query_work_id(book.ids),
            },
        ),
        LookupQuery::Other => None,
    }
}

/// Normalises the identifiers that a query names.
pub fn extract_book_ids(query: &LookupQuery) -> (ids: Option<BookIds>)
    ensures
        ids.deep_view() == book_ids_of(*query),
{
    match query {
        LookupQuery::Book(book) => {
            let mut found = BookIds { isbn13: None, edition_id: None, work_id: None };
            if let Some(ids) = &book.ids {
                if let Some(raw) = &ids.isbn13 {
                    found.isbn13 = normalize_isbn13(raw.as_str());
                }
                if let Some(raw) = &ids.openlibrary_edition_id {
                    found.edition_id = normalize_openlibrary_id(raw.as_str(), "books");
                }
                if let Some(raw) = &ids.openlibrary_work_id {
                    found.work_id = normalize_openlibrary_id(raw.as_str(), "works");
                }
            }
            Some(found)
        },
        LookupQuery::Other => None,
    }
}

// ---------------------------------------------------------------------------
// Plans
// ---------------------------------------------------------------------------

/// One fetch of a plan.
#[derive(Debug, Clone)]
pub enum FetchStep {
    /// The edition with this ISBN-13.
    ByIsbn(String),
    /// The edition with this identifier.
    ByEdition(String),
    /// The work with this identifier, and then its first edition.
    ByWork(String),
    /// The first page of a search for this text.
    BySearch(String),
}

/// One fetch of a plan, as mathematical values.
pub enum FetchStepView {
    ByIsbn(Seq<char>),
    ByEdition(Seq<char>),
    ByWork(Seq<char>),
    BySearch(Seq<char>),
}

impl View for FetchStep {
    type V = FetchStepView;

    open spec fn view(&self) -> FetchStepView {
        match self {
            FetchStep::ByIsbn(isbn) => FetchStepView::ByIsbn(isbn@),
            FetchStep::ByEdition(id) => FetchStepView::ByEdition(id@),
            FetchStep::ByWork(id) => FetchStepView::ByWork(id@),
            FetchStep::BySearch(text) => FetchStepView::BySearch(text@),
        }
    }
}

impl DeepView for FetchStep {
    type V = FetchStepView;

    open spec fn deep_view(&self) -> FetchStepView {
        self@
    }
}

/// What a query leads to.
#[derive(Debug, Clone)]
pub enum LookupPlan {
    /// The query asks for no book: there is nothing to fetch and nothing
    /// to give.
    Nothing,
    /// The query names neither an identifier nor a text to search for.
    NotSupported,
    /// These fetches, in this order. Their records are put together, and
    /// de-duplicated where `deduplicate` says so.
    Fetch { steps: Vec<FetchStep>, deduplicate: bool },
}

/// A plan, as mathematical values.
#[verifier::ext_equal]
pub enum LookupPlanView {
    Nothing,
    NotSupported,
    Fetch { steps: Seq<FetchStepView>, deduplicate: bool },
}

impl View for LookupPlan {
    type V = LookupPlanView;

    open spec fn view(&self) -> LookupPlanView {
        match self {
            LookupPlan::Nothing => LookupPlanView::Nothing,
            LookupPlan::NotSupported => LookupPlanView::NotSupported,
            LookupPlan::Fetch { steps, deduplicate } => LookupPlanView::Fetch {
                steps: steps.deep_view(),
                deduplicate: *deduplicate,
            },
        }
    }
}

/// The ISBN that a book query is looked up by: the one among its
/// identifiers, or else its name where the name is nothing but an ISBN.
pub open spec fn lookup_isbn(book: LookupBook) -> Option<Seq<char>> {
    or_else(
        query_isbn13(book.ids),
        match book.name {
            Some(name) => exact_isbn(name@),
            None => None,
        },
    )
}

/// What is left to a book query without identifiers: a search for its
/// name, where the name is not blank.
pub open spec fn search_plan(book: LookupBook) -> LookupPlanView {
    match book.name {
        Some(name) => if trimmed(name@).len() > 0 {
            LookupPlanView::Fetch { steps: seq![FetchStepView::BySearch(name@)], deduplicate: true }
        } else {
            LookupPlanView::NotSupported
        },
        None => LookupPlanView::NotSupported,
    }
}

/// The plan for the metadata of a query: one fetch, by the ISBN where there
/// is one, else by the edition, else by the work, else a search for the
/// name. The records are de-duplicated.
pub open spec fn metadata_plan(query: LookupQuery) -> LookupPlanView {
    match query {
        LookupQuery::Other => LookupPlanView::Nothing,
        LookupQuery::Book(book) => {
            let step = if let Some(isbn) = lookup_isbn(book) {
                Some(FetchStepView::ByIsbn(isbn))
            } else if let Some(id) = query_edition_id(book.ids) {
                Some(FetchStepView::ByEdition(id))
            } else if let Some(id) = query_work_id(book.ids) {
                Some(FetchStepView::ByWork(id))
            } else {
                None
            };
            match step {
                Some(step) => LookupPlanView::Fetch { steps: seq![step], deduplicate: true },
                None => search_plan(book),
            }
        },
    }
}

/// The steps `by_isbn`, `by_edition` and `by_work`, each where its
/// identifier is present, in this order.
pub open spec fn steps_by_ids(
    isbn: Option<Seq<char>>,
    edition_id: Option<Seq<char>>,
    work_id: Option<Seq<char>>,
) -> Seq<FetchStepView> {
    (match isbn {
        Some(isbn) => seq![FetchStepView::ByIsbn(isbn)],
        None => Seq::empty(),
    }) + (match edition_id {
        Some(id) => seq![FetchStepView::ByEdition(id)],
        None => Seq::empty(),
    }) + (match work_id {
        Some(id) => seq![FetchStepView::ByWork(id)],
        None => Seq::empty(),
    })
}

/// The plan for the images of a query: one fetch for every identifier it
/// names, the records kept as they come; without any identifier, the search
/// of the metadata plan.
pub open spec fn image_plan(query: LookupQuery) -> LookupPlanView {
    match query {
        LookupQuery::Other => LookupPlanView::Nothing,
        LookupQuery::Book(book) => {
            let steps = steps_by_ids(
                lookup_isbn(book),
                query_edition_id(book.ids),
                query_work_id(book.ids),
            );
            if steps.len() > 0 {
                LookupPlanView::Fetch { steps, deduplicate: false }
            } else {
                search_plan(book)
            }
        },
    }
}

/// The identifiers by which a book query is looked up.
fn lookup_ids(query: &LookupQuery) -> (ids: Option<BookIds>)
    ensures
        match *query {
            LookupQuery::Other => ids is None,
            LookupQuery::Book(book) => ids.deep_view() == Some(
                BookIdsView {
                    isbn13: lookup_isbn(book),
                    edition_id: query_edition_id(book.ids),
                    work_id: query_work_id(book.ids),
                },
            ),
        },
{
    let mut ids = match extract_book_ids(query) {
        Some(ids) => ids,
        None => {
            return None;
        },
    };
    if ids.isbn13.is_none() {
        if let LookupQuery::Book(book) = query {
            if let Some(name) = &book.name {
                ids.isbn13 = normalize_exact_isbn_search(name.as_str());
            }
        }
    }
    Some(ids)
}

/// The search for the name of a book query.
fn plan_search(query: &LookupQuery) -> (plan: LookupPlan)
    requires
        *query is Book,
    ensures
        plan@ == search_plan(query->Book_0),
{
    if let LookupQuery::Book(book) = query {
        if let Some(name) = &book.name {
            if trim(&chars_of(name.as_str())).len() > 0 {
                let mut steps: Vec<FetchStep> = Vec::new();
                steps.push(FetchStep::BySearch(name.clone()));
                return LookupPlan::Fetch { steps, deduplicate: true };
            }
        }
    }
    LookupPlan::NotSupported
}

/// A book query that names nothing to look up by: no identifier that can
/// be used, and no name but a blank one.
pub open spec fn names_nothing(query: LookupQuery) -> bool {
    query matches LookupQuery::Book(book) && lookup_isbn(book) is None && query_edition_id(book.ids)
        is None && query_work_id(book.ids) is None && (book.name matches Some(name) ==> trimmed(
        name@,
    ).len() == 0)
}

/// Decides what to fetch for the metadata of a query.
pub fn plan_lookup(query: &LookupQuery) -> (plan: LookupPlan)
    ensures
        plan@ == metadata_plan(*query),
        plan@ is Nothing <==> *query is Other,
        plan@ is NotSupported <==> names_nothing(*query),
        plan@ matches LookupPlanView::Fetch { steps, deduplicate } ==> steps.len() == 1
            && deduplicate,
{
    let ids = match lookup_ids(query) {
        Some(ids) => ids,
        None => {
            return LookupPlan::Nothing;
        },
    };
    let step = if let Some(isbn13) = ids.isbn13 {
        FetchStep::ByIsbn(isbn13)
    } else if let Some(edition_id) = ids.edition_id {
        FetchStep::ByEdition(edition_id)
    } else if let Some(work_id) = ids.work_id {
        FetchStep::ByWork(work_id)
    } else {
        return plan_search(query);
    };
    let mut steps: Vec<FetchStep> = Vec::new();
    steps.push(step);
    LookupPlan::Fetch { steps, deduplicate: true }
}

/// Decides what to fetch for the images of a query.
pub fn plan_image_lookup(query: &LookupQuery) -> (plan: LookupPlan)
    ensures
        plan@ == image_plan(*query),
        plan@ is Nothing <==> *query is Other,
        plan@ is NotSupported <==> names_nothing(*query),
        plan@ matches LookupPlanView::Fetch { steps, deduplicate } ==> 1 <= steps.len() <= 3,
{
    let ids = match lookup_ids(query) {
        Some(ids) => ids,
        None => {
            return LookupPlan::Nothing;
        },
    };
    let mut steps: Vec<FetchStep> = Vec::new();
    if let Some(isbn13) = ids.isbn13 {
        steps.push(FetchStep::ByIsbn(isbn13));
    }
    if let Some(edition_id) = ids.edition_id {
        steps.push(FetchStep::ByEdition(edition_id));
    }
    if let Some(work_id) = ids.work_id {
        steps.push(FetchStep::ByWork(work_id));
    }
    if steps.len() > 0 {
        LookupPlan::Fetch { steps, deduplicate: false }
    } else {
        plan_search(query)
    }
}

/// What to fetch for one step, and the shape in which the answer comes.
#[derive(Debug, Clone)]
pub enum FetchRequest {
    /// One address, which answers with an edition.
    Edition { url: String },
    /// Two addresses, to be fetched in this order: the first answers with a
    /// work, the second with the editions listed for it.
    WorkWithEditions { work_url: String, editions_url: String },
    /// One address, which answers with a page of search results.
    Search { url: String },
}

/// A request, as mathematical values.
pub enum FetchRequestView {
    Edition { url: Seq<char> },
    WorkWithEditions { work_url: Seq<char>, editions_url: Seq<char> },
    Search { url: Seq<char> },
}

impl View for FetchRequest {
    type V = FetchRequestView;

    open spec fn view(&self) -> FetchRequestView {
        match self {
            FetchRequest::Edition { url } => FetchRequestView::Edition { url: url@ },
            FetchRequest::WorkWithEditions { work_url, editions_url } => {
                FetchRequestView::WorkWithEditions {
                    work_url: work_url@,
                    editions_url: editions_url@,
                }
            },
            FetchRequest::Search { url } => FetchRequestView::Search { url: url@ },
        }
    }
}

/// The request of a step: by ISBN or by edition the edition's address; by
/// work the work's address and then the address of its editions; by search
/// the address of the search, with the text percent-encoded.
pub open spec fn step_request(step: FetchStepView) -> FetchRequestView {
    match step {
        FetchStepView::ByIsbn(isbn) => FetchRequestView::Edition {
            url: "https://openlibrary.org/isbn/"@ + isbn + ".json"@,
        },
        FetchStepView::ByEdition(id) => FetchRequestView::Edition {
            url: "https://openlibrary.org/books/"@ + id + ".json"@,
        },
        FetchStepView::ByWork(id) => FetchRequestView::WorkWithEditions {
            work_url: "https://openlibrary.org/works/"@ + id + ".json"@,
            editions_url: "https://openlibrary.org/works/"@ + id + "/editions.json?limit=1"@,
        },
        FetchStepView::BySearch(text) => FetchRequestView::Search {
            url: "https://openlibrary.org/search.json?q="@ + percent_encoded(
                vstd::utf8::encode_utf8(text),
            ) + "&limit=25"@,
        },
    }
}

impl FetchStep {
    /// What to fetch for this step.
    pub fn request(&self) -> (request: FetchRequest)
        ensures
            request@ == step_request(self@),
    {
        match self {
            FetchStep::ByIsbn(isbn) => FetchRequest::Edition { url: build_isbn_url(isbn.as_str()) },
            FetchStep::ByEdition(id) => FetchRequest::Edition {
                url: build_edition_url(id.as_str()),
            },
            FetchStep::ByWork(id) => FetchRequest::WorkWithEditions {
                work_url: build_work_url(id.as_str()),
                editions_url: build_work_editions_url(id.as_str()),
            },
            FetchStep::BySearch(text) => FetchRequest::Search {
                url: build_search_url(text.as_str()),
            },
        }
    }
}

// ---------------------------------------------------------------------------
// From responses to records
// ---------------------------------------------------------------------------

/// The records of a fetch by ISBN or by edition: the one record of the
/// edition.
pub fn records_from_edition(response: &OpenLibraryEditionResponse) -> (records: Vec<
    OpenLibraryBookRecord,
>)
    ensures
        records.deep_view() == seq![edition_record(*response)],
{
    let mut records: Vec<OpenLibraryBookRecord> = Vec::new();
    records.push(book_record_from_edition_response(response));
    records
}

/// The record of a work merged with its first listed edition.
pub open spec fn work_with_editions_record(
    work: OpenLibraryWorkResponse,
    editions: OpenLibraryWorkEditionsResponse,
) -> BookRecordView {
    merged_record(
        work_record(work),
        match first_of(editions.entries@) {
            Some(entry) => Some(edition_record(entry)),
            None => None,
        },
    )
}

/// The records of a fetch by work: the one record of the work, merged with
/// its first listed edition.
pub fn records_from_work(
    work: &OpenLibraryWorkResponse,
    editions: &OpenLibraryWorkEditionsResponse,
) -> (records: Vec<OpenLibraryBookRecord>)
    ensures
        records.deep_view() == seq![work_with_editions_record(*work, *editions)],
{
    let merged = merge_work_with_edition(
        book_record_from_work_response(work),
        first_record_from_work_editions(editions),
    );
    let mut records: Vec<OpenLibraryBookRecord> = Vec::new();
    records.push(merged);
    records
}

/// The records of the first `n` search results: one for each result whose
/// title is not blank.
pub open spec fn search_records(docs: Seq<OpenLibrarySearchDoc>, n: int) -> Seq<BookRecordView>
    decreases n,
{
    if n <= 0 {
        Seq::empty()
    } else {
        match search_doc_record(docs[n - 1]) {
            Some(record) => search_records(docs, n - 1).push(record),
            None => search_records(docs, n - 1),
        }
    }
}

/// The records of a search: one for each result, in order; a result with a
/// blank title is skipped.
pub fn records_from_search(response: &OpenLibrarySearchResponse) -> (records: Vec<
    OpenLibraryBookRecord,
>)
    ensures
        records.deep_view() == search_records(response.docs@, response.docs.len() as int),
        records.len() <= response.docs.len(),
{
    let mut records: Vec<OpenLibraryBookRecord> = Vec::new();
    let mut i: usize = 0;
    while i < response.docs.len()
        invariant
            i <= response.docs.len(),
            records.len() <= i,
            records.deep_view() == search_records(response.docs@, i as int),
        decreases response.docs.len() - i,
    {
        if let Some(record) = book_record_from_search_doc(&response.docs[i]) {
            records.push(record);
        }
        i += 1;
    }
    records
}

/// The records of a lookup, once all steps of its plan are fetched:
/// de-duplicated where the plan says so, else as they came.
pub fn finish_records(records: Vec<OpenLibraryBookRecord>, deduplicate: bool) -> (finished: Vec<
    OpenLibraryBookRecord,
>)
    ensures
        finished.deep_view() == if deduplicate {
            deduplicated(records.deep_view())
        } else {
            records.deep_view()
        },
{
    if deduplicate {
        deduplicate_records(records)
    } else {
        records
    }
}

// ---------------------------------------------------------------------------
// From records to what is published
// ---------------------------------------------------------------------------

/// What is published for the records, one result for each, in order.
pub fn records_to_results(records: Vec<OpenLibraryBookRecord>) -> (results: Vec<LookupResult>)
    ensures
        results.deep_view() == records.deep_view().map_values(|r: BookRecordView| result_of(r)),
{
    let ghost all = records.deep_view();
    let mut results: Vec<LookupResult> = Vec::new();
    for record in it: records
        invariant
            it.seq() == records@,
            all == records.deep_view(),
            results.deep_view() == all.take(it.index()).map_values(
                |r: BookRecordView| result_of(r),
            ),
    {
        let ghost before = results.deep_view();
        let result = openlibrary_book_to_result(record);
        results.push(result);
        assert(results.deep_view() =~= before.push(result_of(record@)));
    }
    results
}

/// The images of the first `n` records, one record's after the other's.
pub open spec fn all_images(records: Seq<BookRecordView>, n: int) -> Seq<CoverImageView>
    decreases n,
{
    if n <= 0 {
        Seq::empty()
    } else {
        all_images(records, n - 1) + images_of(records[n - 1])
    }
}

/// The images of the records, without those whose address an earlier image
/// has.
pub fn records_to_images(records: &Vec<OpenLibraryBookRecord>) -> (images: Vec<CoverImage>)
    ensures
        images.deep_view() == deduplicated_images(
            all_images(records.deep_view(), records.len() as int),
        ),
{
    let ghost all = records.deep_view();
    let mut images: Vec<CoverImage> = Vec::new();
    let mut i: usize = 0;
    while i < records.len()
        invariant
            i <= records.len(),
            all == records.deep_view(),
            images.deep_view() == all_images(all, i as int),
        decreases records.len() - i,
    {
        let mut more = openlibrary_book_to_images(&records[i]);
        images.append(&mut more);
        i += 1;
    }
    deduplicate_images(images)
}

} // verus!
