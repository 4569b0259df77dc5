//! The output mapper: from a book record to the metadata that is published,
//! with its cover images, its generated persons and tags, and its bag of
//! catalog-specific parameters.

use vstd::prelude::*;
use vstd::hash_set::StringHashSet;
use crate::dedup::{has_key, keep_first, lemma_keep_first_of_distinct, lemma_keep_first_push};
use crate::extract::{cover_ids_of, edition_record, lemma_edition_record, seq_of};
use crate::external_ids::{edition_external_id, isbn13_external_id, work_external_id};
use crate::normalize::{
    relation_key_of, relation_key_of_chars, slug, slug_of_chars, slug_tokens, tokens_of,
};
use crate::record::{
    clone_strings, BookRecordView, OpenLibraryBookRecord, OpenLibraryEditionResponse,
};
use crate::text::{append_chars, chars_of, literal, string_of, trim, trimmed};
use crate::urls::{
    build_cover_url_from_id, build_cover_url_from_olid, cover_url_of_id, cover_url_of_olid,
    lemma_cover_urls_differ,
};

verus! {

// ---------------------------------------------------------------------------
// The published shapes
// ---------------------------------------------------------------------------

/// What an image shows.
#[derive(Debug, Clone, Copy, PartialEq, Eq, Structural)]
pub enum ImageKind {
    Poster,
}

/// A cover image, by its address.
#[derive(Debug, Clone)]
pub struct CoverImage {
    pub kind: Option<ImageKind>,
    pub url: String,
}

/// What a cover image holds, as mathematical values.
pub struct CoverImageView {
    pub kind: Option<ImageKind>,
    pub url: Seq<char>,
}

impl View for CoverImage {
    type V = CoverImageView;

    open spec fn view(&self) -> CoverImageView {
        CoverImageView { kind: self.kind, url: self.url@ }
    }
}

impl DeepView for CoverImage {
    type V = CoverImageView;

    open spec fn deep_view(&self) -> CoverImageView {
        self@
    }
}

/// The value of a parameter: a text or a list of texts.
#[derive(Debug, Clone)]
pub enum ParamValue {
    Text(String),
    List(Vec<String>),
}

/// What a parameter value holds, as mathematical values.
#[verifier::ext_equal]
pub enum ParamValueView {
    Text(Seq<char>),
    List(Seq<Seq<char>>),
}

impl View for ParamValue {
    type V = ParamValueView;

    open spec fn view(&self) -> ParamValueView {
        match self {
            ParamValue::Text(text) => ParamValueView::Text(text@),
            ParamValue::List(list) => ParamValueView::List(list.deep_view()),
        }
    }
}

/// One entry of a parameter bag.
#[derive(Debug, Clone)]
pub struct Param {
    pub key: String,
    pub value: ParamValue,
}

/// One entry of a parameter bag, as mathematical values.
#[verifier::ext_equal]
pub struct ParamView {
    pub key: Seq<char>,
    pub value: ParamValueView,
}

impl View for Param {
    type V = ParamView;

    open spec fn view(&self) -> ParamView {
        ParamView { key: self.key@, value: self.value@ }
    }
}

impl DeepView for Param {
    type V = ParamView;

    open spec fn deep_view(&self) -> ParamView {
        self@
    }
}

/// A person generated from an author's name.
#[derive(Debug, Clone)]
pub struct GeneratedPerson {
    pub id: String,
    pub name: String,
    pub kind: Option<String>,
    /// The parameter bag; none where there is no bag at all.
    pub params: Option<Vec<Param>>,
    pub generated: bool,
    /// The identifiers that refer back to this person.
    pub otherids: Vec<String>,
}

/// A generated person, as mathematical values.
#[verifier::ext_equal]
pub struct PersonView {
    pub id: Seq<char>,
    pub name: Seq<char>,
    pub kind: Option<Seq<char>>,
    pub params: Option<Seq<ParamView>>,
    pub generated: bool,
    pub otherids: Seq<Seq<char>>,
}

impl View for GeneratedPerson {
    type V = PersonView;

    open spec fn view(&self) -> PersonView {
        PersonView {
            id: self.id@,
            name: self.name@,
            kind: self.kind.deep_view(),
            params: self.params.deep_view(),
            generated: self.generated,
            otherids: self.otherids.deep_view(),
        }
    }
}

impl DeepView for GeneratedPerson {
    type V = PersonView;

    open spec fn deep_view(&self) -> PersonView {
        self@
    }
}

/// A tag generated from a subject.
#[derive(Debug, Clone)]
pub struct GeneratedTag {
    pub id: String,
    pub name: String,
    pub kind: Option<String>,
    /// The parameter bag; none where there is no bag at all.
    pub params: Option<Vec<Param>>,
    pub generated: bool,
    pub path: String,
    /// The identifiers that refer back to this tag.
    pub otherids: Vec<String>,
}

/// A generated tag, as mathematical values.
#[verifier::ext_equal]
pub struct TagView {
    pub id: Seq<char>,
    pub name: Seq<char>,
    pub kind: Option<Seq<char>>,
    pub params: Option<Seq<ParamView>>,
    pub generated: bool,
    pub path: Seq<char>,
    pub otherids: Seq<Seq<char>>,
}

impl View for GeneratedTag {
    type V = TagView;

    open spec fn view(&self) -> TagView {
        TagView {
            id: self.id@,
            name: self.name@,
            kind: self.kind.deep_view(),
            params: self.params.deep_view(),
            generated: self.generated,
            path: self.path@,
            otherids: self.otherids.deep_view(),
        }
    }
}

impl DeepView for GeneratedTag {
    type V = TagView;

    open spec fn deep_view(&self) -> TagView {
        self@
    }
}

/// The metadata that is published for a book.
#[derive(Debug, Clone)]
pub struct BookMetadata {
    pub id: String,
    pub name: String,
    pub kind: Option<String>,
    pub year: Option<u16>,
    pub overview: Option<String>,
    pub pages: Option<u32>,
    /// The parameter bag; none where there is no bag at all.
    pub params: Option<Vec<Param>>,
    pub lang: Option<String>,
    pub isbn13: Option<String>,
    pub openlibrary_edition_id: Option<String>,
    pub openlibrary_work_id: Option<String>,
}

/// The published metadata, as mathematical values.
#[verifier::ext_equal]
pub struct BookMetadataView {
    pub id: Seq<char>,
    pub name: Seq<char>,
    pub kind: Option<Seq<char>>,
    pub year: Option<u16>,
    pub overview: Option<Seq<char>>,
    pub pages: Option<u32>,
    pub params: Option<Seq<ParamView>>,
    pub lang: Option<Seq<char>>,
    pub isbn13: Option<Seq<char>>,
    pub openlibrary_edition_id: Option<Seq<char>>,
    pub openlibrary_work_id: Option<Seq<char>>,
}

impl View for BookMetadata {
    type V = BookMetadataView;

    open spec fn view(&self) -> BookMetadataView {
        BookMetadataView {
            id: self.id@,
            name: self.name@,
            kind: self.kind.deep_view(),
            year: self.year,
            overview: self.overview.deep_view(),
            pages: self.pages,
            params: self.params.deep_view(),
            lang: self.lang.deep_view(),
            isbn13: self.isbn13.deep_view(),
            openlibrary_edition_id: self.openlibrary_edition_id.deep_view(),
            openlibrary_work_id: self.openlibrary_work_id.deep_view(),
        }
    }
}

/// What is attached to a book: the details of its persons and tags and its
/// images. The lists of bare references, `people` and `tags`, are never
/// filled here.
#[derive(Debug, Clone)]
pub struct Relations {
    pub people_details: Option<Vec<GeneratedPerson>>,
    pub tags_details: Option<Vec<GeneratedTag>>,
    pub people: Option<Vec<String>>,
    pub tags: Option<Vec<String>>,
    pub ext_images: Option<Vec<CoverImage>>,
}

/// The relations of a book, as mathematical values.
#[verifier::ext_equal]
pub struct RelationsView {
    pub people_details: Option<Seq<PersonView>>,
    pub tags_details: Option<Seq<TagView>>,
    pub people: Option<Seq<Seq<char>>>,
    pub tags: Option<Seq<Seq<char>>>,
    pub ext_images: Option<Seq<CoverImageView>>,
}

impl View for Relations {
    type V = RelationsView;

    open spec fn view(&self) -> RelationsView {
        RelationsView {
            people_details: self.people_details.deep_view(),
            tags_details: self.tags_details.deep_view(),
            people: self.people.deep_view(),
            tags: self.tags.deep_view(),
            ext_images: self.ext_images.deep_view(),
        }
    }
}

impl DeepView for Relations {
    type V = RelationsView;

    open spec fn deep_view(&self) -> RelationsView {
        self@
    }
}

/// A book's metadata with its relations.
#[derive(Debug, Clone)]
pub struct LookupResult {
    pub metadata: BookMetadata,
    pub relations: Option<Relations>,
}

/// A lookup result, as mathematical values.
#[verifier::ext_equal]
pub struct LookupResultView {
    pub metadata: BookMetadataView,
    pub relations: Option<RelationsView>,
}

impl View for LookupResult {
    type V = LookupResultView;

    open spec fn view(&self) -> LookupResultView {
        LookupResultView { metadata: self.metadata@, relations: self.relations.deep_view() }
    }
}

impl DeepView for LookupResult {
    type V = LookupResultView;

    open spec fn deep_view(&self) -> LookupResultView {
        self@
    }
}

/// A book's metadata with its images beside it.
#[derive(Debug, Clone)]
pub struct LookupResultWithImages {
    pub metadata: BookMetadata,
    pub images: Vec<CoverImage>,
}

// ---------------------------------------------------------------------------
// Images
// ---------------------------------------------------------------------------

/// The poster at the address `url`.
pub open spec fn poster(url: Seq<char>) -> CoverImageView {
    CoverImageView { kind: Some(ImageKind::Poster), url }
}

/// An address, taken as its own key.
pub open spec fn url_key() -> spec_fn(Seq<char>) -> Seq<char> {
    |url: Seq<char>| url
}

/// The cover numbers from which a record's images are made: its cover
/// numbers, then its primary cover.
pub open spec fn image_ids(record: BookRecordView) -> Seq<u64> {
    record.cover_ids + seq_of(record.cover_id)
}

/// The addresses of a record's covers by number, each once, in the order of
/// the record's cover numbers.
pub open spec fn cover_urls(record: BookRecordView) -> Seq<Seq<char>> {
    keep_first(image_ids(record).map_values(|id: u64| cover_url_of_id(id)), url_key())
}

/// The images of a record: one poster for each of its covers by number;
/// where it has none, the one poster of its edition, or else of its work;
/// where it has neither, nothing.
pub open spec fn images_of(record: BookRecordView) -> Seq<CoverImageView> {
    if cover_urls(record).len() > 0 {
        cover_urls(record).map_values(|url: Seq<char>| poster(url))
    } else if let Some(id) = record.edition_id {
        seq![poster(cover_url_of_olid(id))]
    } else if let Some(id) = record.work_id {
        seq![poster(cover_url_of_olid(id))]
    } else {
        Seq::empty()
    }
}

/// A canonical record that lists covers has exactly one poster for each of
/// them, in their order, at the cover's address by number.
pub proof fn lemma_images_of_canonical(record: BookRecordView)
    requires
        record.is_canonical(),
        record.cover_ids.len() > 0,
    ensures
        images_of(record) == record.cover_ids.map_values(|id: u64| poster(cover_url_of_id(id))),
        images_of(record).len() == record.cover_ids.len(),
{
    let listed = record.cover_ids.map_values(|id: u64| cover_url_of_id(id));
    let all = image_ids(record).map_values(|id: u64| cover_url_of_id(id));
    let key = url_key();
    assert(all =~= listed.push(listed[0]));
    assert forall|i: int, j: int| 0 <= i < j < listed.len() implies #[trigger] key(listed[i])
        != #[trigger] key(listed[j]) by {
        lemma_cover_urls_differ(record.cover_ids[i], record.cover_ids[j]);
    }
    lemma_keep_first_of_distinct(listed, key);
    lemma_keep_first_push(listed, key, listed[0]);
}

/// From an edition to its images: an edition that lists a positive cover
/// number has one poster for each of its distinct positive cover numbers, in
/// the order in which they first occur, at the cover's address by number.
pub proof fn lemma_images_of_edition(response: OpenLibraryEditionResponse)
    requires
        cover_ids_of(response.covers@).len() > 0,
    ensures
        images_of(edition_record(response)) == cover_ids_of(response.covers@).map_values(
            |id: u64| poster(cover_url_of_id(id)),
        ),
{
    lemma_edition_record(response);
    lemma_images_of_canonical(edition_record(response));
}

/// Builds the images of a record: a poster for each cover by number, or
/// else the one poster of the edition, or else of the work.
pub fn build_images(record: &OpenLibraryBookRecord) -> (images: Vec<CoverImage>)
    ensures
        images.deep_view() == images_of(record@),
{
    let mut ids: Vec<u64> = Vec::new();
    let mut k: usize = 0;
    while k < record.cover_ids.len()
        invariant
            k <= record.cover_ids.len(),
            ids@ == record.cover_ids@.take(k as int),
        decreases record.cover_ids.len() - k,
    {
        ids.push(record.cover_ids[k]);
        k += 1;
    }
    if let Some(id) = record.cover_id {
        ids.push(id);
    }
    assert(ids@ =~= image_ids(record@));

    let ghost urls = ids@.map_values(|id: u64| cover_url_of_id(id));
    let ghost key = url_key();
    let mut seen = StringHashSet::new();
    let mut images: Vec<CoverImage> = Vec::new();
    let mut i: usize = 0;
    while i < ids.len()
        invariant
            i <= ids.len(),
            urls == ids@.map_values(|id: u64| cover_url_of_id(id)),
            key == url_key(),
            images.deep_view() == keep_first(urls.take(i as int), key).map_values(
                |url: Seq<char>| poster(url),
            ),
            forall|u: Seq<char>| seen@.contains(u) <==> has_key(urls.take(i as int), key, u),
        decreases ids.len() - i,
    {
        let url = build_cover_url_from_id(ids[i]);
        let ghost before = images.deep_view();
        proof {
            assert(urls.take(i as int + 1) =~= urls.take(i as int).push(url@));
            lemma_keep_first_push(urls.take(i as int), key, url@);
        }
        if seen.insert(url.clone()) {
            images.push(CoverImage { kind: Some(ImageKind::Poster), url });
            assert(images.deep_view() =~= before.push(poster(url@)));
            assert(images.deep_view() =~= keep_first(urls.take(i as int + 1), key).map_values(
                |url: Seq<char>| poster(url),
            ));
        }
        i += 1;
    }
    assert(urls.take(ids.len() as int) =~= urls);
    if images.len() > 0 {
        return images;
    }
    if let Some(id) = &record.edition_id {
        let url = build_cover_url_from_olid(id.as_str());
        images.push(CoverImage { kind: Some(ImageKind::Poster), url });
        return images;
    }
    if let Some(id) = &record.work_id {
        let url = build_cover_url_from_olid(id.as_str());
        images.push(CoverImage { kind: Some(ImageKind::Poster), url });
        return images;
    }
    images
}

/// The cover images of a record.
pub fn openlibrary_book_to_images(record: &OpenLibraryBookRecord) -> (images: Vec<CoverImage>)
    ensures
        images.deep_view() == images_of(record@),
        record@.is_canonical() && record@.cover_ids.len() > 0 ==> images.len()
            == record.cover_ids.len(),
{
    proof {
        if record@.is_canonical() && record@.cover_ids.len() > 0 {
            lemma_images_of_canonical(record@);
        }
    }
    build_images(record)
}

// ---------------------------------------------------------------------------
// Persons
// ---------------------------------------------------------------------------

/// The text parameter `key` with the value `value`.
pub open spec fn text_param(key: Seq<char>, value: Seq<char>) -> ParamView {
    ParamView { key, value: ParamValueView::Text(value) }
}

/// The list parameter `key` with the values `values`.
pub open spec fn list_param(key: Seq<char>, values: Seq<Seq<char>>) -> ParamView {
    ParamView { key, value: ParamValueView::List(values) }
}

/// The catalog key of the author at `index`, where the record has one.
pub open spec fn key_at(keys: Seq<Seq<char>>, index: int) -> Option<Seq<char>> {
    if 0 <= index < keys.len() {
        Some(keys[index])
    } else {
        None
    }
}

/// The relation key of an author's catalog key; none where the catalog key
/// is missing or blank.
pub open spec fn author_key_of(raw: Option<Seq<char>>) -> Option<Seq<char>> {
    match raw {
        Some(raw) => if trimmed(raw).len() == 0 {
            None
        } else {
            Some(relation_key_of(trimmed(raw)))
        },
        None => None,
    }
}

/// The identifier of the person named `name`: the person namespace and the
/// slug of the name, followed by a dash and the author key where there is
/// one.
pub open spec fn person_id(name: Seq<char>, key: Option<Seq<char>>) -> Seq<char> {
    match key {
        Some(key) => "openlib-person:"@ + slug(name) + seq!['-'] + key,
        None => "openlib-person:"@ + slug(name),
    }
}

/// The person generated for an author; none for a blank name.
pub open spec fn person_of(raw_name: Seq<char>, raw_key: Option<Seq<char>>) -> Option<PersonView> {
    let name = trimmed(raw_name);
    let key = author_key_of(raw_key);
    if name.len() == 0 {
        None
    } else {
        Some(
            PersonView {
                id: person_id(name, key),
                name,
                kind: Some("author"@),
                params: match key {
                    Some(key) => Some(seq![text_param("openlibraryAuthorId"@, key)]),
                    None => None,
                },
                generated: true,
                otherids: seq![person_id(name, key)],
            },
        )
    }
}

/// The persons generated for the first `n` authors, duplicates included.
pub open spec fn person_candidates(
    authors: Seq<Seq<char>>,
    keys: Seq<Seq<char>>,
    n: int,
) -> Seq<PersonView>
    decreases n,
{
    if n <= 0 {
        Seq::empty()
    } else {
        let before = person_candidates(authors, keys, n - 1);
        match person_of(authors[n - 1], key_at(keys, n - 1)) {
            Some(person) => before.push(person),
            None => before,
        }
    }
}

/// The identifier of a person, as a function.
pub open spec fn person_key() -> spec_fn(PersonView) -> Seq<char> {
    |person: PersonView| person.id
}

/// The persons of a record: one for each author whose name is not blank,
/// without those whose identifier an earlier one has.
pub open spec fn people_of(record: BookRecordView) -> Seq<PersonView> {
    keep_first(
        person_candidates(record.authors, record.author_keys, record.authors.len() as int),
        person_key(),
    )
}

/// `items` where the list is not empty.
pub open spec fn some_if_any<T>(items: Seq<T>) -> Option<Seq<T>> {
    if items.len() == 0 {
        None
    } else {
        Some(items)
    }
}

/// Builds the persons of a record, one for each author whose name is not
/// blank, each identifier once; none where there is no such author.
pub fn build_people_details(record: &OpenLibraryBookRecord) -> (people: Option<
    Vec<GeneratedPerson>,
>)
    ensures
        people.deep_view() == some_if_any(people_of(record@)),
{
    let ghost authors = record@.authors;
    let ghost keys = record@.author_keys;
    let ghost by_id = person_key();
    let mut people: Vec<GeneratedPerson> = Vec::new();
    let mut seen = StringHashSet::new();
    let mut i: usize = 0;
    while i < record.authors.len()
        invariant
            i <= record.authors.len(),
            authors == record@.authors,
            keys == record@.author_keys,
            by_id == person_key(),
            people.deep_view() == keep_first(person_candidates(authors, keys, i as int), by_id),
            forall|k: Seq<char>|
                seen@.contains(k) <==> has_key(
                    person_candidates(authors, keys, i as int),
                    by_id,
                    k,
                ),
        decreases record.authors.len() - i,
    {
        let ghost candidates = person_candidates(authors, keys, i as int);
        let name = trim(&chars_of(record.authors[i].as_str()));
        if name.len() > 0 {
            let author_key: Option<Vec<char>> = if i < record.author_keys.len() {
                let raw = trim(&chars_of(record.author_keys[i].as_str()));
                if raw.len() > 0 {
                    Some(relation_key_of_chars(&raw))
                } else {
                    None
                }
            } else {
                None
            };
            let mut id_chars = literal("openlib-person:");
            let base = slug_of_chars(&name);
            append_chars(&mut id_chars, &base);
            let mut params: Option<Vec<Param>> = None;
            if let Some(key_chars) = &author_key {
                id_chars.push('-');
                append_chars(&mut id_chars, key_chars);
                let mut bag: Vec<Param> = Vec::new();
                bag.push(
                    Param {
                        key: String::from_str("openlibraryAuthorId"),
                        value: ParamValue::Text(string_of(key_chars)),
                    },
                );
                assert(bag.deep_view() =~= seq![text_param("openlibraryAuthorId"@, key_chars@)]);
                params = Some(bag);
            }
            let id = string_of(&id_chars);
            let ghost person = person_of(authors[i as int], key_at(keys, i as int))->0;
            proof {
                assert(id@ =~= person.id);
                assert(params.deep_view() == person.params);
                lemma_keep_first_push(candidates, by_id, person);
            }
            if seen.insert(id.clone()) {
                let mut otherids: Vec<String> = Vec::new();
                otherids.push(id.clone());
                let made = GeneratedPerson {
                    id,
                    name: string_of(&name),
                    kind: Some(String::from_str("author")),
                    params,
                    generated: true,
                    otherids,
                };
                assert(made@.otherids =~= person.otherids);
                people.push(made);
            }
        }
        i += 1;
    }
    if people.len() == 0 {
        None
    } else {
        Some(people)
    }
}

// ---------------------------------------------------------------------------
// Tags
// ---------------------------------------------------------------------------

/// The identifier of the tag named `name`: the tag namespace and the
/// relation key of the name.
pub open spec fn tag_id(name: Seq<char>) -> Seq<char> {
    "openlib-tag:"@ + relation_key_of(name)
}

/// The tag generated for a subject; none for a blank subject.
pub open spec fn tag_of(raw_name: Seq<char>) -> Option<TagView> {
    let name = trimmed(raw_name);
    if name.len() == 0 {
        None
    } else {
        Some(
            TagView {
                id: tag_id(name),
                name,
                kind: Some("subject"@),
                params: Some(seq![text_param("openlibraryTagKey"@, relation_key_of(name))]),
                generated: true,
                path: "/"@,
                otherids: seq![tag_id(name)],
            },
        )
    }
}

/// The tags generated for the first `n` subjects, duplicates included.
pub open spec fn tag_candidates(subjects: Seq<Seq<char>>, n: int) -> Seq<TagView>
    decreases n,
{
    if n <= 0 {
        Seq::empty()
    } else {
        let before = tag_candidates(subjects, n - 1);
        match tag_of(subjects[n - 1]) {
            Some(tag) => before.push(tag),
            None => before,
        }
    }
}

/// The identifier of a tag, as a function.
pub open spec fn tag_key() -> spec_fn(TagView) -> Seq<char> {
    |tag: TagView| tag.id
}

/// The tags of a record: one for each subject that is not blank, without
/// those whose identifier an earlier one has.
pub open spec fn tags_of(record: BookRecordView) -> Seq<TagView> {
    keep_first(tag_candidates(record.subjects, record.subjects.len() as int), tag_key())
}

/// Builds the tags of a record, one for each subject that is not blank,
/// each identifier once; none where there is no such subject.
pub fn build_tags_details(record: &OpenLibraryBookRecord) -> (tags: Option<Vec<GeneratedTag>>)
    ensures
        tags.deep_view() == some_if_any(tags_of(record@)),
{
    let ghost subjects = record@.subjects;
    let ghost by_id = tag_key();
    let mut tags: Vec<GeneratedTag> = Vec::new();
    let mut seen = StringHashSet::new();
    let mut i: usize = 0;
    while i < record.subjects.len()
        invariant
            i <= record.subjects.len(),
            subjects == record@.subjects,
            by_id == tag_key(),
            tags.deep_view() == keep_first(tag_candidates(subjects, i as int), by_id),
            forall|k: Seq<char>|
                seen@.contains(k) <==> has_key(tag_candidates(subjects, i as int), by_id, k),
        decreases record.subjects.len() - i,
    {
        let ghost candidates = tag_candidates(subjects, i as int);
        let name = trim(&chars_of(record.subjects[i].as_str()));
        if name.len() > 0 {
            let key_chars = relation_key_of_chars(&name);
            let mut id_chars = literal("openlib-tag:");
            append_chars(&mut id_chars, &key_chars);
            let id = string_of(&id_chars);
            let ghost tag = tag_of(subjects[i as int])->0;
            proof {
                lemma_keep_first_push(candidates, by_id, tag);
            }
            if seen.insert(id.clone()) {
                let mut params: Vec<Param> = Vec::new();
                params.push(
                    Param {
                        key: String::from_str("openlibraryTagKey"),
                        value: ParamValue::Text(string_of(&key_chars)),
                    },
                );
                let mut otherids: Vec<String> = Vec::new();
                otherids.push(id.clone());
                let made = GeneratedTag {
                    id,
                    name: string_of(&name),
                    kind: Some(String::from_str("subject")),
                    params: Some(params),
                    generated: true,
                    path: String::from_str("/"),
                    otherids,
                };
                proof {
                    assert(made@.otherids =~= tag.otherids);
                    assert(params.deep_view() =~= tag.params->0);
                }
                tags.push(made);
            }
        }
        i += 1;
    }
    if tags.len() == 0 {
        None
    } else {
        Some(tags)
    }
}

// ---------------------------------------------------------------------------
// The parameter bag
// ---------------------------------------------------------------------------

/// The list parameter `key`, where `values` is not empty.
pub open spec fn list_param_if_any(key: Seq<char>, values: Seq<Seq<char>>) -> Seq<ParamView> {
    if values.len() == 0 {
        Seq::empty()
    } else {
        seq![list_param(key, values)]
    }
}

/// The text parameter `key`, where there is a value.
pub open spec fn text_param_if_some(key: Seq<char>, value: Option<Seq<char>>) -> Seq<ParamView> {
    match value {
        Some(value) => seq![text_param(key, value)],
        None => Seq::empty(),
    }
}

/// The parameter bag of a record, in its fixed order: the authors, the
/// subjects and the publishers, each where the list is not empty, then the
/// catalog's edition and work identifiers, each where it is present.
pub open spec fn params_of(record: BookRecordView) -> Seq<ParamView> {
    list_param_if_any("authors"@, record.authors) + list_param_if_any("subjects"@, record.subjects)
        + list_param_if_any("publishers"@, record.publishers) + text_param_if_some(
        "openlibraryEditionId"@,
        record.edition_id,
    ) + text_param_if_some("openlibraryWorkId"@, record.work_id)
}

fn push_list_param(params: &mut Vec<Param>, key: &'static str, values: &Vec<String>)
    ensures
        final(params).deep_view() == old(params).deep_view() + list_param_if_any(
            key@,
            values.deep_view(),
        ),
{
    if values.len() > 0 {
        params.push(
            Param { key: String::from_str(key), value: ParamValue::List(clone_strings(values)) },
        );
    }
}

fn push_text_param(params: &mut Vec<Param>, key: &'static str, value: &Option<String>)
    ensures
        final(params).deep_view() == old(params).deep_view() + text_param_if_some(
            key@,
            value.deep_view(),
        ),
{
    if let Some(text) = value {
        params.push(Param { key: String::from_str(key), value: ParamValue::Text(text.clone()) });
    }
}

/// Builds the parameter bag of a record, in its fixed order.
pub fn build_params(record: &OpenLibraryBookRecord) -> (params: Vec<Param>)
    ensures
        params.deep_view() == params_of(record@),
{
    let mut params: Vec<Param> = Vec::new();
    push_list_param(&mut params, "authors", &record.authors);
    push_list_param(&mut params, "subjects", &record.subjects);
    push_list_param(&mut params, "publishers", &record.publishers);
    push_text_param(&mut params, "openlibraryEditionId", &record.edition_id);
    push_text_param(&mut params, "openlibraryWorkId", &record.work_id);
    params
}

// ---------------------------------------------------------------------------
// The output identifier
// ---------------------------------------------------------------------------

/// The identifier that a record has from its catalog identifiers: the
/// namespaced ISBN-13 where there is one, else the namespaced work
/// identifier, else the namespaced edition identifier.
pub open spec fn canonical_id_of(record: BookRecordView) -> Option<Seq<char>> {
    if let Some(isbn) = record.isbn13 {
        Some("isbn13:"@ + isbn)
    } else if let Some(id) = record.work_id {
        Some("olwid:"@ + id)
    } else if let Some(id) = record.edition_id {
        Some("oleid:"@ + id)
    } else {
        None
    }
}

/// The identifier made from a title alone: the title namespace, followed by
/// a dash and the dash-joined tokens of the title where it has any.
pub open spec fn fallback_id_of(title: Seq<char>) -> Seq<char> {
    if slug_tokens(title).len() == 0 {
        "openlibrary-title"@
    } else {
        "openlibrary-title-"@ + slug_tokens(title)
    }
}

/// The identifier under which a record is published.
pub open spec fn output_id(record: BookRecordView) -> Seq<char> {
    match canonical_id_of(record) {
        Some(id) => id,
        None => fallback_id_of(record.title),
    }
}

/// The output identifier is never empty, and it follows the precedence of
/// the identifiers: with an ISBN it is the ISBN's form whatever else the
/// record holds; without one and with a work identifier it is the work's
/// form; with only an edition identifier the edition's; and with no
/// identifier at all it is made from the title.
pub proof fn lemma_output_id(record: BookRecordView)
    ensures
        output_id(record).len() > 0,
        record.isbn13 matches Some(isbn) ==> output_id(record) == "isbn13:"@ + isbn,
        record.isbn13 is None ==> (record.work_id matches Some(id) ==> output_id(record)
            == "olwid:"@ + id),
        record.isbn13 is None && record.work_id is None ==> (record.edition_id matches Some(id)
            ==> output_id(record) == "oleid:"@ + id),
        record.isbn13 is None && record.work_id is None && record.edition_id is None
            ==> output_id(record) == fallback_id_of(record.title),
{
    reveal_strlit("isbn13:");
    reveal_strlit("olwid:");
    reveal_strlit("oleid:");
    reveal_strlit("openlibrary-title");
}

/// The identifier that a record has from its catalog identifiers, in the
/// host's namespaced form; none where it has no such identifier.
pub fn canonical_rs_id(record: &OpenLibraryBookRecord) -> (id: Option<String>)
    ensures
        id.deep_view() == canonical_id_of(record@),
{
    if let Some(isbn13) = &record.isbn13 {
        return isbn13_external_id(isbn13.as_str());
    }
    if let Some(work_id) = &record.work_id {
        return work_external_id(work_id.as_str());
    }
    if let Some(edition_id) = &record.edition_id {
        return edition_external_id(edition_id.as_str());
    }
    None
}

/// The identifier of a book that has no catalog identifier, made from its
/// title; never empty.
pub fn fallback_local_id(title: &str) -> (id: String)
    ensures
        id@ == fallback_id_of(title@),
        id@.len() > 0,
{
    proof {
        reveal_strlit("openlibrary-title");
    }
    let tokens = tokens_of(&chars_of(title));
    if tokens.len() == 0 {
        String::from_str("openlibrary-title")
    } else {
        let mut id = String::from_str("openlibrary-title-");
        id.append(string_of(&tokens).as_str());
        id
    }
}

// ---------------------------------------------------------------------------
// The published record
// ---------------------------------------------------------------------------

/// The metadata that is published for a record.
pub open spec fn metadata_of(record: BookRecordView) -> BookMetadataView {
    BookMetadataView {
        id: output_id(record),
        name: record.title,
        kind: Some("book"@),
        year: record.publish_year,
        overview: record.description,
        pages: record.pages,
        params: Some(params_of(record)),
        lang: record.language,
        isbn13: record.isbn13,
        openlibrary_edition_id: record.edition_id,
        openlibrary_work_id: record.work_id,
    }
}

/// The relations that are attached to a record: its persons, tags and
/// images, each where there are any; none at all where there is none of
/// them.
pub open spec fn relations_of(record: BookRecordView) -> Option<RelationsView> {
    if images_of(record).len() == 0 && people_of(record).len() == 0 && tags_of(record).len() == 0 {
        None
    } else {
        Some(
            RelationsView {
                people_details: some_if_any(people_of(record)),
                tags_details: some_if_any(tags_of(record)),
                people: None,
                tags: None,
                ext_images: some_if_any(images_of(record)),
            },
        )
    }
}

/// What is published for a record: its metadata and its relations.
pub open spec fn result_of(record: BookRecordView) -> LookupResultView {
    LookupResultView { metadata: metadata_of(record), relations: relations_of(record) }
}

/// The metadata of a record and the identifier it is published under.
pub fn book_metadata(record: OpenLibraryBookRecord) -> (metadata: BookMetadata)
    ensures
        metadata@ == metadata_of(record@),
        metadata@.id.len() > 0,
{
    proof {
        lemma_output_id(record@);
    }
    let params = build_params(&record);
    let id = match canonical_rs_id(&record) {
        Some(id) => id,
        None => fallback_local_id(record.title.as_str()),
    };
    BookMetadata {
        id,
        name: record.title,
        kind: Some(String::from_str("book")),
        year: record.publish_year,
        overview: record.description,
        pages: record.pages,
        params: Some(params),
        lang: record.language,
        isbn13: record.isbn13,
        openlibrary_edition_id: record.edition_id,
        openlibrary_work_id: record.work_id,
    }
}

/// Maps a record to what is published for it, with the persons, tags and
/// images attached as relations.
pub fn openlibrary_book_to_result(record: OpenLibraryBookRecord) -> (result: LookupResult)
    ensures
        result@ == result_of(record@),
        result@.metadata.id == output_id(record@),
        result@.metadata.id.len() > 0,
{
    let images = build_images(&record);
    let ext_images = if images.len() == 0 {
        None
    } else {
        Some(images)
    };
    let people_details = build_people_details(&record);
    let tags_details = build_tags_details(&record);
    let relations = if ext_images.is_some() || people_details.is_some() || tags_details.is_some() {
        Some(Relations { people_details, tags_details, people: None, tags: None, ext_images })
    } else {
        None
    };
    LookupResult { metadata: book_metadata(record), relations }
}

/// Maps a record to what is published for it, with the images beside the
/// metadata and no relations.
pub fn openlibrary_book_to_result_with_images(record: OpenLibraryBookRecord) -> (result:
    LookupResultWithImages)
    ensures
        result.metadata@ == metadata_of(record@),
        result.images.deep_view() == images_of(record@),
{
    let images = build_images(&record);
    LookupResultWithImages { metadata: book_metadata(record), images }
}

} // verus!
