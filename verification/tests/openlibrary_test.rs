use rs_plugin_openlibrary::extract::{
    book_record_from_edition_response, book_record_from_search_doc,
    book_record_from_work_response, extract_cover_ids, first_record_from_work_editions,
    positive_cover_id, positive_u32,
};
use rs_plugin_openlibrary::merge::merge_work_with_edition;
use rs_plugin_openlibrary::normalize::{
    extract_year_from_text, first_isbn13, language_from_key, normalize_isbn13,
    normalize_openlibrary_id,
};
use rs_plugin_openlibrary::record::{
    OpenLibraryBookRecord, OpenLibraryDescription, OpenLibraryEditionResponse, OpenLibraryKeyRef,
    OpenLibrarySearchDoc, OpenLibraryWorkEditionsResponse, OpenLibraryWorkResponse,
};
use rs_plugin_openlibrary::text::trim;
use rs_plugin_openlibrary::urls::{
    build_cover_url_from_id, build_cover_url_from_olid, build_edition_url, build_isbn_url,
    build_search_url, build_work_editions_url, build_work_url, encode_query_component,
};

fn edition(title: &str) -> OpenLibraryEditionResponse {
    OpenLibraryEditionResponse {
        key: String::new(),
        title: title.to_string(),
        description: None,
        works: vec![],
        isbn_13: vec![],
        covers: vec![],
        number_of_pages: None,
        publish_date: None,
        languages: vec![],
        publishers: vec![],
    }
}

fn search_doc(title: &str) -> OpenLibrarySearchDoc {
    OpenLibrarySearchDoc {
        key: String::new(),
        title: title.to_string(),
        edition_key: vec![],
        isbn: vec![],
        cover_i: None,
        first_publish_year: None,
        language: vec![],
        author_name: vec![],
        subject: vec![],
        publisher: vec![],
        number_of_pages_median: None,
    }
}

#[test]
fn normalize_ids_from_paths() {
    assert_eq!(
        normalize_openlibrary_id("/works/OL45804W", "works"),
        Some("OL45804W".to_string())
    );
    assert_eq!(
        normalize_openlibrary_id("books/OL7353617M", "books"),
        Some("OL7353617M".to_string())
    );
}

#[test]
fn encode_query_component_encodes_spaces() {
    assert_eq!(encode_query_component("The Hobbit"), "The%20Hobbit");
}

#[test]
fn extract_year_from_publish_date() {
    assert_eq!(extract_year_from_text("September 21, 1937"), Some(1937));
}

#[test]
fn first_isbn13_prefers_normalized_13_digit() {
    let values = vec!["978-0-14-032872-1".to_string(), "0140328726".to_string()];
    assert_eq!(first_isbn13(&values), Some("9780140328721".to_string()));
}

#[test]
fn edition_response_maps_all_positive_cover_ids() {
    let response = OpenLibraryEditionResponse {
        key: "/books/OL7353617M".to_string(),
        title: "The Hobbit".to_string(),
        description: None,
        works: vec![],
        isbn_13: vec![],
        covers: vec![12345, 0, -1, 67890, 12345],
        number_of_pages: None,
        publish_date: None,
        languages: vec![],
        publishers: vec![],
    };

    let record = book_record_from_edition_response(&response);
    assert_eq!(record.cover_ids, vec![12345, 67890]);
    assert_eq!(record.cover_id, Some(12345));
}

#[test]
fn merge_work_with_edition_keeps_all_cover_ids() {
    let work = OpenLibraryBookRecord {
        title: "The Hobbit".to_string(),
        work_id: Some("OL45804W".to_string()),
        cover_ids: vec![2701529, 2701530, 6307679],
        cover_id: Some(2701529),
        ..Default::default()
    };

    let edition = OpenLibraryBookRecord {
        title: "The Hobbit".to_string(),
        edition_id: Some("OL7353617M".to_string()),
        cover_ids: vec![2701530, 9999999],
        cover_id: Some(2701530),
        ..Default::default()
    };

    let merged = merge_work_with_edition(work, Some(edition));
    assert_eq!(merged.cover_ids, vec![2701529, 2701530, 6307679, 9999999]);
    assert_eq!(merged.cover_id, Some(2701529));
}

#[test]
fn normalize_id_trims_whitespace_then_slashes() {
    assert_eq!(
        normalize_openlibrary_id("  /works/OL45804W/  ", "works"),
        Some("OL45804W".to_string())
    );
    assert_eq!(normalize_openlibrary_id("OL45804W", "works"), Some("OL45804W".to_string()));
    assert_eq!(normalize_openlibrary_id("", "works"), None);
    assert_eq!(normalize_openlibrary_id("   ", "works"), None);
    assert_eq!(normalize_openlibrary_id("///", "works"), None);
}

#[test]
fn normalize_id_trims_unicode_white_space() {
    assert_eq!(
        normalize_openlibrary_id("\u{2003}/works/OL45804W\u{a0}\n", "works"),
        Some("OL45804W".to_string())
    );
    assert_eq!(normalize_openlibrary_id("\u{3000}\t", "works"), None);
    assert_eq!(
        normalize_openlibrary_id("/ works/OL45804W /", "works"),
        Some("OL45804W ".to_string())
    );
}

#[test]
fn normalize_id_without_its_prefix_takes_the_last_segment() {
    assert_eq!(
        normalize_openlibrary_id("https://openlibrary.org/works/OL45804W", "works"),
        Some("OL45804W".to_string())
    );
    assert_eq!(
        normalize_openlibrary_id("/books/OL7353617M", "works"),
        Some("OL7353617M".to_string())
    );
    assert_eq!(
        normalize_openlibrary_id("worksheet/OL1W", "works"),
        Some("OL1W".to_string())
    );
}

#[test]
fn normalize_id_with_its_prefix_keeps_what_follows() {
    assert_eq!(normalize_openlibrary_id("works/a/b", "works"), Some("a/b".to_string()));
    assert_eq!(normalize_openlibrary_id("works//OL1W", "works"), Some("OL1W".to_string()));
}

#[test]
fn normalize_isbn13_strips_everything_but_digits() {
    assert_eq!(normalize_isbn13("978-0-14-032872-1"), Some("9780140328721".to_string()));
    assert_eq!(normalize_isbn13("ISBN 978 0 14 032872 1"), Some("9780140328721".to_string()));
    assert_eq!(normalize_isbn13("9780140328721"), Some("9780140328721".to_string()));
}

#[test]
fn normalize_isbn13_wants_exactly_thirteen_digits() {
    assert_eq!(normalize_isbn13("0140328726"), None);
    assert_eq!(normalize_isbn13("97801403287210"), None);
    assert_eq!(normalize_isbn13(""), None);
    assert_eq!(normalize_isbn13("no digits"), None);
}

#[test]
fn first_isbn13_of_nothing_is_none() {
    assert_eq!(first_isbn13(&vec![]), None);
    assert_eq!(first_isbn13(&vec!["0140328726".to_string()]), None);
    assert_eq!(
        first_isbn13(&vec!["0140328726".to_string(), "9780261102217".to_string()]),
        Some("9780261102217".to_string())
    );
}

#[test]
fn extract_year_takes_the_first_year_in_range() {
    assert_eq!(extract_year_from_text("1937"), Some(1937));
    assert_eq!(extract_year_from_text("c1999, 2005"), Some(1999));
    assert_eq!(extract_year_from_text("0999 then 3000 then 2999"), Some(2999));
    assert_eq!(extract_year_from_text("1000"), Some(1000));
    assert_eq!(extract_year_from_text("01937"), Some(1937));
    assert_eq!(extract_year_from_text("12345"), Some(1234));
}

#[test]
fn extract_year_finds_none_without_four_digits_in_range() {
    assert_eq!(extract_year_from_text(""), None);
    assert_eq!(extract_year_from_text("193"), None);
    assert_eq!(extract_year_from_text("19 37"), None);
    assert_eq!(extract_year_from_text("0999"), None);
    assert_eq!(extract_year_from_text("3000"), None);
    assert_eq!(extract_year_from_text("année 19é7"), None);
}

#[test]
fn language_from_key_takes_the_last_segment() {
    assert_eq!(language_from_key("/languages/eng"), Some("eng".to_string()));
    assert_eq!(language_from_key(" /languages/fre/ "), Some("fre".to_string()));
    assert_eq!(language_from_key("eng"), Some("eng".to_string()));
    assert_eq!(language_from_key(""), None);
    assert_eq!(language_from_key("//"), None);
}

#[test]
fn encode_query_component_passes_unreserved_bytes() {
    assert_eq!(encode_query_component("AZaz09-_.~"), "AZaz09-_.~");
    assert_eq!(encode_query_component(""), "");
}

#[test]
fn encode_query_component_writes_capital_hex() {
    assert_eq!(encode_query_component("a&b=c/d?"), "a%26b%3Dc%2Fd%3F");
    assert_eq!(encode_query_component("é"), "%C3%A9");
    assert_eq!(encode_query_component("\n"), "%0A");
    assert_eq!(encode_query_component("\u{7f}"), "%7F");
}

#[test]
fn urls_follow_their_templates() {
    assert_eq!(build_isbn_url("9780140328721"), "https://openlibrary.org/isbn/9780140328721.json");
    assert_eq!(build_edition_url("OL7353617M"), "https://openlibrary.org/books/OL7353617M.json");
    assert_eq!(build_work_url("OL45804W"), "https://openlibrary.org/works/OL45804W.json");
    assert_eq!(
        build_work_editions_url("OL45804W"),
        "https://openlibrary.org/works/OL45804W/editions.json?limit=1"
    );
    assert_eq!(
        build_search_url("The Hobbit"),
        "https://openlibrary.org/search.json?q=The%20Hobbit&limit=25"
    );
    assert_eq!(
        build_cover_url_from_olid("OL7353617M"),
        "https://covers.openlibrary.org/b/olid/OL7353617M-L.jpg"
    );
}

#[test]
fn cover_url_writes_the_number_in_base_ten() {
    assert_eq!(build_cover_url_from_id(12345), "https://covers.openlibrary.org/b/id/12345-L.jpg");
    assert_eq!(build_cover_url_from_id(0), "https://covers.openlibrary.org/b/id/0-L.jpg");
    assert_eq!(build_cover_url_from_id(7), "https://covers.openlibrary.org/b/id/7-L.jpg");
    assert_eq!(build_cover_url_from_id(10), "https://covers.openlibrary.org/b/id/10-L.jpg");
    assert_eq!(
        build_cover_url_from_id(u64::MAX),
        "https://covers.openlibrary.org/b/id/18446744073709551615-L.jpg"
    );
}

#[test]
fn positive_numbers_only() {
    assert_eq!(positive_cover_id(1), Some(1));
    assert_eq!(positive_cover_id(0), None);
    assert_eq!(positive_cover_id(-5), None);
    assert_eq!(positive_cover_id(i64::MAX), Some(i64::MAX as u64));
    assert_eq!(positive_u32(320), Some(320));
    assert_eq!(positive_u32(0), None);
    assert_eq!(positive_u32(-1), None);
    assert_eq!(positive_u32(4294967295), Some(u32::MAX));
    assert_eq!(positive_u32(4294967296), None);
}

#[test]
fn extract_cover_ids_keeps_first_occurrences() {
    assert_eq!(extract_cover_ids(&vec![3, 1, 3, 2, 1]), vec![3, 1, 2]);
    assert_eq!(extract_cover_ids(&vec![-1, 0]), Vec::<u64>::new());
    assert_eq!(extract_cover_ids(&vec![]), Vec::<u64>::new());
}

#[test]
fn description_text_of_either_shape() {
    assert_eq!(
        OpenLibraryDescription::Text("  A tale.  ".to_string()).as_text(),
        Some("A tale.".to_string())
    );
    assert_eq!(OpenLibraryDescription::Text("   ".to_string()).as_text(), None);
    assert_eq!(
        OpenLibraryDescription::Value { value: Some(" A tale.\n".to_string()) }.as_text(),
        Some("A tale.".to_string())
    );
    assert_eq!(OpenLibraryDescription::Value { value: Some("".to_string()) }.as_text(), None);
    assert_eq!(OpenLibraryDescription::Value { value: None }.as_text(), None);
}

#[test]
fn dedup_key_follows_the_precedence() {
    let mut record = OpenLibraryBookRecord {
        title: "The Hobbit".to_string(),
        edition_id: Some("OL7353617M".to_string()),
        work_id: Some("OL45804W".to_string()),
        isbn13: Some("9780140328721".to_string()),
        ..Default::default()
    };
    assert_eq!(record.dedup_key(), "work:OL45804W");
    record.work_id = None;
    assert_eq!(record.dedup_key(), "edition:OL7353617M");
    record.edition_id = None;
    assert_eq!(record.dedup_key(), "isbn13:9780140328721");
    record.isbn13 = None;
    assert_eq!(record.dedup_key(), "title:the hobbit");
}

#[test]
fn search_doc_with_blank_title_is_skipped() {
    assert!(book_record_from_search_doc(&search_doc("")).is_none());
    assert!(book_record_from_search_doc(&search_doc("  \t ")).is_none());
    assert!(book_record_from_search_doc(&search_doc(" x ")).is_some());
}

#[test]
fn search_doc_maps_every_field() {
    let doc = OpenLibrarySearchDoc {
        key: "/works/OL45804W".to_string(),
        title: "  The Hobbit ".to_string(),
        edition_key: vec!["OL7353617M".to_string(), "OL2M".to_string()],
        isbn: vec!["0140328726".to_string(), "978-0-14-032872-1".to_string()],
        cover_i: Some(12345),
        first_publish_year: Some(1937),
        language: vec!["eng".to_string(), "fre".to_string()],
        author_name: vec!["J.R.R. Tolkien".to_string()],
        subject: vec!["Fantasy".to_string()],
        publisher: vec!["Puffin".to_string()],
        number_of_pages_median: Some(310),
    };
    let record = book_record_from_search_doc(&doc).expect("a record");
    assert_eq!(record.title, "The Hobbit");
    assert_eq!(record.edition_id, Some("OL7353617M".to_string()));
    assert_eq!(record.work_id, Some("OL45804W".to_string()));
    assert_eq!(record.isbn13, Some("9780140328721".to_string()));
    assert_eq!(record.cover_ids, vec![12345]);
    assert_eq!(record.cover_id, Some(12345));
    assert_eq!(record.publish_year, Some(1937));
    assert_eq!(record.description, None);
    assert_eq!(record.pages, Some(310));
    assert_eq!(record.language, Some("eng".to_string()));
    assert_eq!(record.authors, vec!["J.R.R. Tolkien".to_string()]);
    assert!(record.author_keys.is_empty());
    assert_eq!(record.subjects, vec!["Fantasy".to_string()]);
    assert_eq!(record.publishers, vec!["Puffin".to_string()]);
}

#[test]
fn search_doc_without_a_positive_cover_has_no_covers() {
    let mut doc = search_doc("The Hobbit");
    doc.cover_i = Some(0);
    doc.number_of_pages_median = Some(-3);
    let record = book_record_from_search_doc(&doc).expect("a record");
    assert!(record.cover_ids.is_empty());
    assert_eq!(record.cover_id, None);
    assert_eq!(record.pages, None);
}

#[test]
fn edition_response_maps_every_field() {
    let response = OpenLibraryEditionResponse {
        key: "/books/OL7353617M".to_string(),
        title: " The Hobbit ".to_string(),
        description: Some(OpenLibraryDescription::Value { value: Some(" A tale. ".to_string()) }),
        works: vec![OpenLibraryKeyRef { key: "/works/OL45804W".to_string() }],
        isbn_13: vec!["978-0-14-032872-1".to_string()],
        covers: vec![12345],
        number_of_pages: Some(310),
        publish_date: Some("September 21, 1937".to_string()),
        languages: vec![OpenLibraryKeyRef { key: "/languages/eng".to_string() }],
        publishers: vec!["Puffin".to_string()],
    };
    let record = book_record_from_edition_response(&response);
    assert_eq!(record.title, "The Hobbit");
    assert_eq!(record.edition_id, Some("OL7353617M".to_string()));
    assert_eq!(record.work_id, Some("OL45804W".to_string()));
    assert_eq!(record.isbn13, Some("9780140328721".to_string()));
    assert_eq!(record.publish_year, Some(1937));
    assert_eq!(record.description, Some("A tale.".to_string()));
    assert_eq!(record.pages, Some(310));
    assert_eq!(record.language, Some("eng".to_string()));
    assert!(record.authors.is_empty());
    assert!(record.subjects.is_empty());
    assert_eq!(record.publishers, vec!["Puffin".to_string()]);
}

#[test]
fn work_response_maps_every_field() {
    let response = OpenLibraryWorkResponse {
        key: "/works/OL45804W".to_string(),
        title: "The Hobbit".to_string(),
        description: Some(OpenLibraryDescription::Text("A tale.".to_string())),
        covers: vec![-1, 8, 9, 8],
        subjects: vec!["Fantasy".to_string()],
        first_publish_date: Some("1937".to_string()),
    };
    let record = book_record_from_work_response(&response);
    assert_eq!(record.title, "The Hobbit");
    assert_eq!(record.edition_id, None);
    assert_eq!(record.work_id, Some("OL45804W".to_string()));
    assert_eq!(record.isbn13, None);
    assert_eq!(record.cover_ids, vec![8, 9]);
    assert_eq!(record.cover_id, Some(8));
    assert_eq!(record.publish_year, Some(1937));
    assert_eq!(record.description, Some("A tale.".to_string()));
    assert_eq!(record.pages, None);
    assert_eq!(record.language, None);
    assert!(record.authors.is_empty());
    assert_eq!(record.subjects, vec!["Fantasy".to_string()]);
    assert!(record.publishers.is_empty());
}

#[test]
fn first_record_of_work_editions_is_the_first_entry() {
    let none = OpenLibraryWorkEditionsResponse { entries: vec![] };
    assert!(first_record_from_work_editions(&none).is_none());
    let two =
        OpenLibraryWorkEditionsResponse { entries: vec![edition("First"), edition("Second")] };
    assert_eq!(first_record_from_work_editions(&two).expect("a record").title, "First");
}

#[test]
fn merge_without_an_edition_is_the_work() {
    let work = OpenLibraryBookRecord {
        title: "The Hobbit".to_string(),
        work_id: Some("OL45804W".to_string()),
        cover_id: Some(7),
        ..Default::default()
    };
    let merged = merge_work_with_edition(work, None);
    assert_eq!(merged.title, "The Hobbit");
    assert_eq!(merged.work_id, Some("OL45804W".to_string()));
    assert!(merged.cover_ids.is_empty());
    assert_eq!(merged.cover_id, Some(7));
}

#[test]
fn merge_title_is_the_works_unless_empty() {
    let work = OpenLibraryBookRecord { title: "Hobbit".to_string(), ..Default::default() };
    let edition = OpenLibraryBookRecord { title: "".to_string(), ..Default::default() };
    assert_eq!(merge_work_with_edition(work, Some(edition)).title, "Hobbit");

    let work = OpenLibraryBookRecord { title: "".to_string(), ..Default::default() };
    let edition = OpenLibraryBookRecord { title: "Hobbit".to_string(), ..Default::default() };
    assert_eq!(merge_work_with_edition(work, Some(edition)).title, "Hobbit");

    let work = OpenLibraryBookRecord { title: "Work".to_string(), ..Default::default() };
    let edition = OpenLibraryBookRecord { title: "Edition".to_string(), ..Default::default() };
    assert_eq!(merge_work_with_edition(work, Some(edition)).title, "Work");
}

#[test]
fn merge_unites_cover_ids_in_order() {
    let work = OpenLibraryBookRecord { cover_ids: vec![1, 2, 3], ..Default::default() };
    let edition = OpenLibraryBookRecord { cover_ids: vec![2, 9], ..Default::default() };
    let merged = merge_work_with_edition(work, Some(edition));
    assert_eq!(merged.cover_ids, vec![1, 2, 3, 9]);
    assert_eq!(merged.cover_id, Some(1));
}

#[test]
fn merge_falls_back_to_the_primary_covers() {
    let work = OpenLibraryBookRecord { cover_id: Some(4), ..Default::default() };
    let edition = OpenLibraryBookRecord { cover_id: Some(5), ..Default::default() };
    let merged = merge_work_with_edition(work, Some(edition));
    assert_eq!(merged.cover_ids, vec![4, 5]);
    assert_eq!(merged.cover_id, Some(4));

    let work = OpenLibraryBookRecord { cover_id: Some(4), ..Default::default() };
    let edition = OpenLibraryBookRecord { cover_id: Some(4), ..Default::default() };
    assert_eq!(merge_work_with_edition(work, Some(edition)).cover_ids, vec![4, 4]);

    let work = OpenLibraryBookRecord::default();
    let edition = OpenLibraryBookRecord { cover_id: Some(5), ..Default::default() };
    let merged = merge_work_with_edition(work, Some(edition));
    assert_eq!(merged.cover_ids, vec![5]);
    assert_eq!(merged.cover_id, Some(5));
}

#[test]
fn merge_takes_each_field_from_its_side() {
    let work = OpenLibraryBookRecord {
        title: "Work".to_string(),
        edition_id: Some("WE".to_string()),
        work_id: Some("WW".to_string()),
        isbn13: Some("1111111111111".to_string()),
        publish_year: Some(1937),
        description: Some("work text".to_string()),
        pages: Some(100),
        language: Some("eng".to_string()),
        authors: vec!["Work Author".to_string()],
        author_keys: vec!["OL1A".to_string()],
        subjects: vec!["Work Subject".to_string()],
        publishers: vec!["Work Publisher".to_string()],
        ..Default::default()
    };
    let edition = OpenLibraryBookRecord {
        title: "Edition".to_string(),
        edition_id: Some("EE".to_string()),
        work_id: Some("EW".to_string()),
        isbn13: Some("2222222222222".to_string()),
        publish_year: Some(1999),
        description: Some("edition text".to_string()),
        pages: Some(200),
        language: Some("fre".to_string()),
        authors: vec!["Edition Author".to_string()],
        author_keys: vec!["OL2A".to_string()],
        subjects: vec!["Edition Subject".to_string()],
        publishers: vec!["Edition Publisher".to_string()],
        ..Default::default()
    };
    let merged = merge_work_with_edition(work, Some(edition));
    assert_eq!(merged.title, "Work");
    assert_eq!(merged.edition_id, Some("EE".to_string()));
    assert_eq!(merged.work_id, Some("WW".to_string()));
    assert_eq!(merged.isbn13, Some("2222222222222".to_string()));
    assert_eq!(merged.publish_year, Some(1999));
    assert_eq!(merged.description, Some("work text".to_string()));
    assert_eq!(merged.pages, Some(200));
    assert_eq!(merged.language, Some("fre".to_string()));
    assert_eq!(merged.authors, vec!["Work Author".to_string()]);
    assert_eq!(merged.author_keys, vec!["OL1A".to_string()]);
    assert_eq!(merged.subjects, vec!["Work Subject".to_string()]);
    assert_eq!(merged.publishers, vec!["Edition Publisher".to_string()]);
}

#[test]
fn merge_fills_what_one_side_lacks() {
    let work = OpenLibraryBookRecord {
        edition_id: Some("WE".to_string()),
        isbn13: Some("1111111111111".to_string()),
        publish_year: Some(1937),
        pages: Some(100),
        language: Some("eng".to_string()),
        publishers: vec!["Work Publisher".to_string()],
        ..Default::default()
    };
    let edition = OpenLibraryBookRecord {
        work_id: Some("EW".to_string()),
        description: Some("edition text".to_string()),
        authors: vec!["Edition Author".to_string()],
        author_keys: vec!["OL2A".to_string()],
        subjects: vec!["Edition Subject".to_string()],
        ..Default::default()
    };
    let merged = merge_work_with_edition(work, Some(edition));
    assert_eq!(merged.edition_id, Some("WE".to_string()));
    assert_eq!(merged.work_id, Some("EW".to_string()));
    assert_eq!(merged.isbn13, Some("1111111111111".to_string()));
    assert_eq!(merged.publish_year, Some(1937));
    assert_eq!(merged.description, Some("edition text".to_string()));
    assert_eq!(merged.pages, Some(100));
    assert_eq!(merged.language, Some("eng".to_string()));
    assert_eq!(merged.authors, vec!["Edition Author".to_string()]);
    assert_eq!(merged.author_keys, vec!["OL2A".to_string()]);
    assert_eq!(merged.subjects, vec!["Edition Subject".to_string()]);
    assert_eq!(merged.publishers, vec!["Work Publisher".to_string()]);
}

const WHITE_SPACE: [char; 25] = [
    '\u{9}', '\u{a}', '\u{b}', '\u{c}', '\u{d}', ' ', '\u{85}', '\u{a0}', '\u{1680}', '\u{2000}',
    '\u{2001}', '\u{2002}', '\u{2003}', '\u{2004}', '\u{2005}', '\u{2006}', '\u{2007}',
    '\u{2008}', '\u{2009}', '\u{200a}', '\u{2028}', '\u{2029}', '\u{202f}', '\u{205f}',
    '\u{3000}',
];

#[test]
fn trim_takes_off_exactly_the_white_space_characters() {
    for code in 0..=0x10FFFFu32 {
        if let Some(c) = char::from_u32(code) {
            let left = trim(&vec![c, 'x', c]);
            if WHITE_SPACE.contains(&c) {
                assert_eq!(left, vec!['x'], "U+{code:04X} is white space");
            } else {
                assert_eq!(left, vec![c, 'x', c], "U+{code:04X} is no white space");
            }
        }
    }
}

#[test]
fn trim_leaves_white_space_inside() {
    let text: Vec<char> = " \u{2003}a b\u{a0}c\t\n".chars().collect();
    assert_eq!(trim(&text), "a b\u{a0}c".chars().collect::<Vec<char>>());
    assert_eq!(trim(&"\u{b}\u{85}".chars().collect()), Vec::<char>::new());
    assert_eq!(trim(&Vec::new()), Vec::<char>::new());
}
