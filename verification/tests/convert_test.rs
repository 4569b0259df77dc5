use rs_plugin_openlibrary::convert::{
    book_metadata, fallback_local_id, openlibrary_book_to_images, openlibrary_book_to_result,
    openlibrary_book_to_result_with_images, CoverImage, ImageKind, ParamValue,
};
use rs_plugin_openlibrary::dedup::{deduplicate_images, deduplicate_records};
use rs_plugin_openlibrary::extract::book_record_from_edition_response;
use rs_plugin_openlibrary::normalize::{normalize_exact_isbn_search, relation_key, slugify};
use rs_plugin_openlibrary::record::{OpenLibraryBookRecord, OpenLibraryEditionResponse};

#[test]
fn prefers_cover_id_for_images() {
    let record = OpenLibraryBookRecord {
        title: "The Hobbit".to_string(),
        cover_ids: vec![12345],
        cover_id: Some(12345),
        edition_id: Some("OL7353617M".to_string()),
        ..Default::default()
    };

    let images = openlibrary_book_to_images(&record);
    assert_eq!(images.len(), 1);
    assert_eq!(images[0].url, "https://covers.openlibrary.org/b/id/12345-L.jpg");
}

#[test]
fn uses_all_cover_ids_for_images() {
    let record = OpenLibraryBookRecord {
        title: "The Hobbit".to_string(),
        cover_ids: vec![12345, 67890],
        ..Default::default()
    };

    let images = openlibrary_book_to_images(&record);
    assert_eq!(images.len(), 2);
    assert_eq!(images[0].url, "https://covers.openlibrary.org/b/id/12345-L.jpg");
    assert_eq!(images[1].url, "https://covers.openlibrary.org/b/id/67890-L.jpg");
}

#[test]
fn maps_record_to_book_metadata() {
    let record = OpenLibraryBookRecord {
        title: "The Hobbit".to_string(),
        edition_id: Some("OL7353617M".to_string()),
        work_id: Some("OL45804W".to_string()),
        isbn13: Some("9780140328721".to_string()),
        publish_year: Some(1937),
        ..Default::default()
    };

    let result = openlibrary_book_to_result(record);

    let book = result.metadata;
    assert_eq!(book.id, "isbn13:9780140328721".to_string());
    assert_eq!(book.name, "The Hobbit");
    assert_eq!(book.kind, Some("book".to_string()));
    assert_eq!(book.year, Some(1937));
    assert_eq!(book.openlibrary_work_id, Some("OL45804W".to_string()));
}

#[test]
fn uses_canonical_work_id_when_edition_is_missing() {
    let record = OpenLibraryBookRecord {
        title: "The Hobbit".to_string(),
        work_id: Some("OL45804W".to_string()),
        ..Default::default()
    };

    let result = openlibrary_book_to_result(record);

    assert_eq!(result.metadata.id, "olwid:OL45804W".to_string());
}

#[test]
fn uses_canonical_isbn13_id_when_only_isbn_exists() {
    let record = OpenLibraryBookRecord {
        title: "The Hobbit".to_string(),
        isbn13: Some("9780140328721".to_string()),
        ..Default::default()
    };

    let result = openlibrary_book_to_result(record);

    assert_eq!(result.metadata.id, "isbn13:9780140328721".to_string());
}

#[test]
fn uses_non_external_fallback_when_no_canonical_id_exists() {
    let record = OpenLibraryBookRecord { title: "The Hobbit".to_string(), ..Default::default() };

    let result = openlibrary_book_to_result(record);

    assert_eq!(result.metadata.id, "openlibrary-title-the-hobbit".to_string());
}

#[test]
fn includes_images_people_and_tags_in_relations_details_only() {
    let record = OpenLibraryBookRecord {
        title: "The Hobbit".to_string(),
        cover_ids: vec![12345],
        authors: vec!["J.R.R. Tolkien".to_string()],
        author_keys: vec!["OL26320A".to_string()],
        subjects: vec!["Fantasy".to_string()],
        ..Default::default()
    };

    let result = openlibrary_book_to_result(record);
    let relations = result.relations.expect("Expected relations");

    let images = relations.ext_images.expect("Expected ext_images");
    assert_eq!(images.len(), 1);
    assert_eq!(images[0].url, "https://covers.openlibrary.org/b/id/12345-L.jpg");

    let people = relations.people_details.expect("Expected people_details");
    assert_eq!(people.len(), 1);
    assert_eq!(people[0].id, "openlib-person:j-r-r-tolkien-ol26320a");
    assert_eq!(people[0].name, "J.R.R. Tolkien");
    assert_eq!(people[0].otherids, vec!["openlib-person:j-r-r-tolkien-ol26320a".to_string()]);

    let tags = relations.tags_details.expect("Expected tags_details");
    assert_eq!(tags.len(), 1);
    assert_eq!(tags[0].id, "openlib-tag:fantasy");
    assert_eq!(tags[0].name, "Fantasy");
    assert_eq!(tags[0].otherids, vec!["openlib-tag:fantasy".to_string()]);

    assert!(relations.people.is_none());
    assert!(relations.tags.is_none());
}

#[test]
fn normalize_exact_isbn_search_accepts_isbn13() {
    assert_eq!(
        normalize_exact_isbn_search("978-0-14-032872-1"),
        Some("9780140328721".to_string())
    );
}

#[test]
fn normalize_exact_isbn_search_accepts_isbn10_with_x() {
    assert_eq!(normalize_exact_isbn_search("0-684-84328-5"), Some("0684843285".to_string()));
    assert_eq!(normalize_exact_isbn_search("0-8044-2957-x"), Some("080442957X".to_string()));
}

#[test]
fn normalize_exact_isbn_search_rejects_non_exact_values() {
    assert_eq!(normalize_exact_isbn_search("The Hobbit 9780140328721"), None);
    assert_eq!(normalize_exact_isbn_search("isbn 9780140328721"), None);
    assert_eq!(normalize_exact_isbn_search(""), None);
}

#[test]
fn deduplicate_images_by_url() {
    let images = vec![
        CoverImage { kind: None, url: "https://covers.openlibrary.org/b/id/1-L.jpg".to_string() },
        CoverImage { kind: None, url: "https://covers.openlibrary.org/b/id/1-L.jpg".to_string() },
        CoverImage { kind: None, url: "https://covers.openlibrary.org/b/id/2-L.jpg".to_string() },
    ];

    let deduped = deduplicate_images(images);
    assert_eq!(deduped.len(), 2);
    assert_eq!(deduped[0].url, "https://covers.openlibrary.org/b/id/1-L.jpg");
    assert_eq!(deduped[1].url, "https://covers.openlibrary.org/b/id/2-L.jpg");
}

#[test]
fn exact_isbn_search_takes_separators_and_surrounding_space() {
    assert_eq!(
        normalize_exact_isbn_search("  978 0 14 032872 1\n"),
        Some("9780140328721".to_string())
    );
    assert_eq!(normalize_exact_isbn_search("080442957X"), Some("080442957X".to_string()));
    assert_eq!(normalize_exact_isbn_search("0\t8044\r2957-x"), Some("080442957X".to_string()));
}

#[test]
fn exact_isbn_search_rejects_other_shapes() {
    assert_eq!(normalize_exact_isbn_search("   "), None);
    assert_eq!(normalize_exact_isbn_search("978014032872"), None);
    assert_eq!(normalize_exact_isbn_search("97801403287211"), None);
    assert_eq!(normalize_exact_isbn_search("978014032872X"), None);
    assert_eq!(normalize_exact_isbn_search("08044X2957"), None);
    assert_eq!(normalize_exact_isbn_search("080442957Y"), None);
    assert_eq!(normalize_exact_isbn_search("080442957é"), None);
    assert_eq!(normalize_exact_isbn_search("12345678é"), None);
    assert_eq!(normalize_exact_isbn_search("978.0.14.032872.1"), None);
}

#[test]
fn slugify_joins_tokens_with_dashes() {
    assert_eq!(slugify("J.R.R. Tolkien"), "j-r-r-tolkien");
    assert_eq!(slugify("  Hello,   World!  "), "hello-world");
    assert_eq!(slugify("--a--b--"), "a-b");
    assert_eq!(slugify("ABC123"), "abc123");
    assert_eq!(slugify("Éa"), "a");
}

#[test]
fn slugify_of_nothing_is_unknown() {
    assert_eq!(slugify(""), "unknown");
    assert_eq!(slugify("..."), "unknown");
    assert_eq!(slugify("é"), "unknown");
}

#[test]
fn relation_key_reuses_a_plain_last_segment() {
    assert_eq!(relation_key("OL26320A"), "ol26320a");
    assert_eq!(relation_key("/authors/OL26320A"), "ol26320a");
    assert_eq!(relation_key(" /authors/OL_26-A/ "), "ol_26-a");
    assert_eq!(relation_key("Fantasy"), "fantasy");
}

#[test]
fn relation_key_falls_back_to_the_slug() {
    assert_eq!(relation_key("Science Fiction"), "science-fiction");
    assert_eq!(relation_key("/subjects/Science Fiction!"), "science-fiction");
    assert_eq!(relation_key("a/???"), "unknown");
}

#[test]
fn relation_key_of_a_blank_last_segment_is_unknown() {
    assert_eq!(relation_key("/ /"), "unknown");
    assert_eq!(relation_key("a/ /"), "unknown");
    assert_eq!(relation_key("/\u{a0}/\t/"), "unknown");
    assert_eq!(relation_key("a/ "), "a");
}

#[test]
fn relation_key_is_never_empty_and_holds_key_characters_alone() {
    let inputs = [
        "", " ", "/", "/ /", "a/ /", "A_b-9", "/x/Y Z/", "é", "a/é", "__", "-", " - ", "a//b",
        "Science Fiction", "\u{3000}/\u{2003}",
    ];
    for input in inputs {
        let key = relation_key(input);
        assert!(!key.is_empty(), "empty key for {input:?}");
        let plain = |c: char| c.is_ascii_lowercase() || c.is_ascii_digit() || c == '-' || c == '_';
        assert!(key.chars().all(plain), "key {key:?} for {input:?}");
    }
}

#[test]
fn blank_segments_give_unknown_tags_and_author_keys() {
    let record = OpenLibraryBookRecord {
        authors: vec!["J.R.R. Tolkien".to_string()],
        author_keys: vec!["/ /".to_string()],
        subjects: vec!["/ /".to_string()],
        ..Default::default()
    };
    let relations = openlibrary_book_to_result(record).relations.expect("relations");
    let people = relations.people_details.expect("people");
    assert_eq!(people[0].id, "openlib-person:j-r-r-tolkien-unknown");
    let tags = relations.tags_details.expect("tags");
    assert_eq!(tags[0].id, "openlib-tag:unknown");
    assert_eq!(tags[0].name, "/ /");
}

#[test]
fn relation_key_of_nothing_is_unknown() {
    assert_eq!(relation_key(""), "unknown");
    assert_eq!(relation_key("   "), "unknown");
    assert_eq!(relation_key("///"), "unknown");
}

#[test]
fn fallback_local_id_is_never_empty() {
    assert_eq!(fallback_local_id("The Hobbit"), "openlibrary-title-the-hobbit");
    assert_eq!(fallback_local_id("--The  Hobbit--"), "openlibrary-title-the-hobbit");
    assert_eq!(fallback_local_id(""), "openlibrary-title");
    assert_eq!(fallback_local_id("???"), "openlibrary-title");
}

#[test]
fn output_id_prefers_isbn_then_work_then_edition() {
    let with_all = OpenLibraryBookRecord {
        isbn13: Some("9780140328721".to_string()),
        work_id: Some("OL45804W".to_string()),
        edition_id: Some("OL7353617M".to_string()),
        ..Default::default()
    };
    assert_eq!(book_metadata(with_all).id, "isbn13:9780140328721");

    let without_isbn = OpenLibraryBookRecord {
        work_id: Some("OL45804W".to_string()),
        edition_id: Some("OL7353617M".to_string()),
        ..Default::default()
    };
    assert_eq!(book_metadata(without_isbn).id, "olwid:OL45804W");

    let with_edition = OpenLibraryBookRecord {
        edition_id: Some("OL7353617M".to_string()),
        ..Default::default()
    };
    assert_eq!(book_metadata(with_edition).id, "oleid:OL7353617M");

    assert_eq!(book_metadata(OpenLibraryBookRecord::default()).id, "openlibrary-title");
}

#[test]
fn edition_covers_become_two_images() {
    let response = OpenLibraryEditionResponse {
        key: "/books/OL7353617M".to_string(),
        title: "The Hobbit".to_string(),
        description: None,
        works: vec![],
        isbn_13: vec![],
        covers: vec![12345, 0, -1, 67890, 12345],
        number_of_pages: None,
        publish_date: None,
        languages: vec![],
        publishers: vec![],
    };
    let record = book_record_from_edition_response(&response);
    assert_eq!(record.cover_ids, vec![12345, 67890]);
    assert_eq!(record.cover_id, Some(12345));
    let images = openlibrary_book_to_images(&record);
    assert_eq!(images.len(), 2);
    assert_eq!(images[0].url, "https://covers.openlibrary.org/b/id/12345-L.jpg");
    assert_eq!(images[1].url, "https://covers.openlibrary.org/b/id/67890-L.jpg");
    assert_eq!(images[0].kind, Some(ImageKind::Poster));
}

#[test]
fn images_add_a_primary_cover_that_is_not_listed() {
    let record = OpenLibraryBookRecord {
        cover_ids: vec![1, 2],
        cover_id: Some(3),
        ..Default::default()
    };
    let images = openlibrary_book_to_images(&record);
    assert_eq!(images.len(), 3);
    assert_eq!(images[2].url, "https://covers.openlibrary.org/b/id/3-L.jpg");

    let repeated = OpenLibraryBookRecord { cover_ids: vec![1, 1, 2], ..Default::default() };
    assert_eq!(openlibrary_book_to_images(&repeated).len(), 2);
}

#[test]
fn images_fall_back_to_the_edition_then_the_work() {
    let both = OpenLibraryBookRecord {
        edition_id: Some("OL7353617M".to_string()),
        work_id: Some("OL45804W".to_string()),
        ..Default::default()
    };
    let images = openlibrary_book_to_images(&both);
    assert_eq!(images.len(), 1);
    assert_eq!(images[0].url, "https://covers.openlibrary.org/b/olid/OL7353617M-L.jpg");
    assert_eq!(images[0].kind, Some(ImageKind::Poster));

    let work =
        OpenLibraryBookRecord { work_id: Some("OL45804W".to_string()), ..Default::default() };
    let images = openlibrary_book_to_images(&work);
    assert_eq!(images.len(), 1);
    assert_eq!(images[0].url, "https://covers.openlibrary.org/b/olid/OL45804W-L.jpg");

    assert!(openlibrary_book_to_images(&OpenLibraryBookRecord::default()).is_empty());
}

#[test]
fn person_without_an_author_key_is_keyed_by_the_slug() {
    let record = OpenLibraryBookRecord {
        authors: vec![
            " J.R.R. Tolkien ".to_string(),
            "  ".to_string(),
            "Ursula K. Le Guin".to_string(),
        ],
        author_keys: vec!["  ".to_string()],
        ..Default::default()
    };
    let people = openlibrary_book_to_result(record)
        .relations
        .expect("relations")
        .people_details
        .expect("people");
    assert_eq!(people.len(), 2);
    assert_eq!(people[0].id, "openlib-person:j-r-r-tolkien");
    assert_eq!(people[0].name, "J.R.R. Tolkien");
    assert_eq!(people[0].kind, Some("author".to_string()));
    assert!(people[0].params.is_none());
    assert!(people[0].generated);
    assert_eq!(people[1].id, "openlib-person:ursula-k-le-guin");
}

#[test]
fn person_with_an_author_key_carries_it() {
    let record = OpenLibraryBookRecord {
        authors: vec!["J.R.R. Tolkien".to_string()],
        author_keys: vec!["/authors/OL26320A".to_string()],
        ..Default::default()
    };
    let people = openlibrary_book_to_result(record)
        .relations
        .expect("relations")
        .people_details
        .expect("people");
    assert_eq!(people.len(), 1);
    assert_eq!(people[0].id, "openlib-person:j-r-r-tolkien-ol26320a");
    let params = people[0].params.as_ref().expect("a bag");
    assert_eq!(params.len(), 1);
    assert_eq!(params[0].key, "openlibraryAuthorId");
    match &params[0].value {
        ParamValue::Text(text) => assert_eq!(text, "ol26320a"),
        ParamValue::List(_) => panic!("a text was expected"),
    }
}

#[test]
fn people_and_tags_with_the_same_id_come_once() {
    let record = OpenLibraryBookRecord {
        authors: vec!["J.R.R. Tolkien".to_string(), "j r r tolkien".to_string()],
        subjects: vec![
            "Fantasy".to_string(),
            " fantasy ".to_string(),
            "".to_string(),
            "Elves".to_string(),
        ],
        ..Default::default()
    };
    let relations = openlibrary_book_to_result(record).relations.expect("relations");
    let people = relations.people_details.expect("people");
    assert_eq!(people.len(), 1);
    assert_eq!(people[0].name, "J.R.R. Tolkien");
    let tags = relations.tags_details.expect("tags");
    assert_eq!(tags.len(), 2);
    assert_eq!(tags[0].name, "Fantasy");
    assert_eq!(tags[1].id, "openlib-tag:elves");
    assert_eq!(tags[1].kind, Some("subject".to_string()));
    assert_eq!(tags[1].path, "/");
    assert!(tags[1].generated);
    let params = tags[1].params.as_ref().expect("a bag");
    assert_eq!(params.len(), 1);
    assert_eq!(params[0].key, "openlibraryTagKey");
    match &params[0].value {
        ParamValue::Text(text) => assert_eq!(text, "elves"),
        ParamValue::List(_) => panic!("a text was expected"),
    }
    assert!(relations.ext_images.is_none());
}

#[test]
fn relations_are_left_out_when_there_is_nothing_to_attach() {
    let record = OpenLibraryBookRecord {
        title: "The Hobbit".to_string(),
        authors: vec!["   ".to_string()],
        ..Default::default()
    };
    assert!(openlibrary_book_to_result(record).relations.is_none());
}

#[test]
fn params_come_in_their_fixed_order() {
    let record = OpenLibraryBookRecord {
        edition_id: Some("OL7353617M".to_string()),
        work_id: Some("OL45804W".to_string()),
        authors: vec!["J.R.R. Tolkien".to_string()],
        subjects: vec!["Fantasy".to_string(), "Elves".to_string()],
        publishers: vec!["Puffin".to_string()],
        ..Default::default()
    };
    let params = book_metadata(record).params.expect("a bag");
    let keys: Vec<&str> = params.iter().map(|p| p.key.as_str()).collect();
    assert_eq!(
        keys,
        vec!["authors", "subjects", "publishers", "openlibraryEditionId", "openlibraryWorkId"]
    );
    match &params[1].value {
        ParamValue::List(list) => {
            assert_eq!(list, &vec!["Fantasy".to_string(), "Elves".to_string()])
        }
        ParamValue::Text(_) => panic!("a list was expected"),
    }
    match &params[3].value {
        ParamValue::Text(text) => assert_eq!(text, "OL7353617M"),
        ParamValue::List(_) => panic!("a text was expected"),
    }
    let empty = book_metadata(OpenLibraryBookRecord::default()).params;
    assert!(empty.expect("a bag, though an empty one").is_empty());
}

#[test]
fn metadata_carries_the_record_through() {
    let record = OpenLibraryBookRecord {
        title: "The Hobbit".to_string(),
        edition_id: Some("OL7353617M".to_string()),
        work_id: Some("OL45804W".to_string()),
        isbn13: Some("9780140328721".to_string()),
        publish_year: Some(1937),
        description: Some("A tale.".to_string()),
        pages: Some(310),
        language: Some("eng".to_string()),
        ..Default::default()
    };
    let book = book_metadata(record);
    assert_eq!(book.name, "The Hobbit");
    assert_eq!(book.kind, Some("book".to_string()));
    assert_eq!(book.year, Some(1937));
    assert_eq!(book.overview, Some("A tale.".to_string()));
    assert_eq!(book.pages, Some(310));
    assert_eq!(book.lang, Some("eng".to_string()));
    assert_eq!(book.isbn13, Some("9780140328721".to_string()));
    assert_eq!(book.openlibrary_edition_id, Some("OL7353617M".to_string()));
    assert_eq!(book.openlibrary_work_id, Some("OL45804W".to_string()));
}

#[test]
fn result_with_images_keeps_the_images_beside_the_metadata() {
    let record = OpenLibraryBookRecord {
        title: "The Hobbit".to_string(),
        cover_ids: vec![12345],
        ..Default::default()
    };
    let result = openlibrary_book_to_result_with_images(record);
    assert_eq!(result.metadata.id, "openlibrary-title-the-hobbit");
    assert_eq!(result.images.len(), 1);
    assert_eq!(result.images[0].url, "https://covers.openlibrary.org/b/id/12345-L.jpg");
}

fn titled(title: &str, work_id: Option<&str>) -> OpenLibraryBookRecord {
    OpenLibraryBookRecord {
        title: title.to_string(),
        work_id: work_id.map(|id| id.to_string()),
        ..Default::default()
    }
}

fn titles(records: &Vec<OpenLibraryBookRecord>) -> Vec<String> {
    records.iter().map(|r| r.title.clone()).collect()
}

#[test]
fn deduplicate_records_keeps_the_first_of_each_key() {
    let records = vec![
        titled("A", Some("OL1W")),
        titled("B", Some("OL2W")),
        titled("C", Some("OL1W")),
        titled("The Hobbit", None),
        titled("THE HOBBIT", None),
        titled("D", Some("OL2W")),
    ];
    let deduped = deduplicate_records(records);
    assert_eq!(titles(&deduped), vec!["A", "B", "The Hobbit"]);
}

#[test]
fn deduplicate_records_twice_is_once() {
    let records = vec![
        titled("A", Some("OL1W")),
        titled("B", None),
        titled("C", Some("OL1W")),
        titled("b", None),
    ];
    let once = deduplicate_records(records);
    let first = titles(&once);
    let twice = deduplicate_records(once);
    assert_eq!(titles(&twice), first);
    assert_eq!(first, vec!["A", "B"]);
    assert!(deduplicate_records(vec![]).is_empty());
}
