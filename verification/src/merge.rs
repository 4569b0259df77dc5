//! The record merger: a work and its first edition become one record. The
//! work wins for what tells of the text, the edition for what tells of the
//! printed book.

use vstd::prelude::*;
use crate::extract::{contains_id, seq_of, with_new};
use crate::record::{first_of, or_else, BookRecordView, OpenLibraryBookRecord};

verus! {

/// `a`, followed by the numbers of `b` that are not yet there, each once, in
/// the order in which they first occur in `b`.
pub open spec fn union_in_order(a: Seq<u64>, b: Seq<u64>) -> Seq<u64>
    decreases b.len(),
{
    if b.len() == 0 {
        a
    } else {
        with_new(union_in_order(a, b.drop_last()), b.last())
    }
}

/// The cover numbers of a merged record: the union of the work's and the
/// edition's, the work's first; where that is empty, the two primary covers,
/// the work's first.
pub open spec fn merged_cover_ids(work: BookRecordView, edition: BookRecordView) -> Seq<u64> {
    let union = union_in_order(work.cover_ids, edition.cover_ids);
    if union.len() > 0 {
        union
    } else {
        seq_of(work.cover_id) + seq_of(edition.cover_id)
    }
}

/// The record that a work and its edition merge to. Without an edition it is
/// the work.
pub open spec fn merged_record(
    work: BookRecordView,
    edition: Option<BookRecordView>,
) -> BookRecordView {
    match edition {
        None => work,
        Some(edition) => BookRecordView {
            title: if work.title.len() == 0 {
                edition.title
            } else {
                work.title
            },
            edition_id: or_else(edition.edition_id, work.edition_id),
            work_id: or_else(work.work_id, edition.work_id),
            isbn13: or_else(edition.isbn13, work.isbn13),
            cover_ids: merged_cover_ids(work, edition),
            cover_id: or_else(
                first_of(merged_cover_ids(work, edition)),
                or_else(edition.cover_id, work.cover_id),
            ),
            publish_year: or_else(edition.publish_year, work.publish_year),
            description: or_else(work.description, edition.description),
            pages: or_else(edition.pages, work.pages),
            language: or_else(edition.language, work.language),
            authors: if work.authors.len() == 0 {
                edition.authors
            } else {
                work.authors
            },
            author_keys: if work.authors.len() == 0 {
                edition.author_keys
            } else {
                work.author_keys
            },
            subjects: if work.subjects.len() == 0 {
                edition.subjects
            } else {
                work.subjects
            },
            publishers: if edition.publishers.len() == 0 {
                work.publishers
            } else {
                edition.publishers
            },
        },
    }
}

/// The union of two lists of cover numbers keeps the order and drops
/// duplicates: it begins with `a` as it stands; it holds what `a` or `b`
/// holds and nothing else; where `a` is free of duplicates, so is the union;
/// and what it adds to `a` comes in the order in which it first occurs in `b`.
pub proof fn lemma_union_in_order(a: Seq<u64>, b: Seq<u64>)
    ensures
        a.is_prefix_of(union_in_order(a, b)),
        forall|x: u64| union_in_order(a, b).contains(x) <==> a.contains(x) || b.contains(x),
        a.no_duplicates() ==> union_in_order(a, b).no_duplicates(),
        forall|i: int|
            a.len() <= i < union_in_order(a, b).len() ==> !a.contains(
                #[trigger] union_in_order(a, b)[i],
            ),
        forall|i: int, j: int|
            #![trigger union_in_order(a, b)[i], union_in_order(a, b)[j]]
            a.len() <= i < j < union_in_order(a, b).len() ==> exists|p: int, q: int|
                0 <= p < q < b.len() && #[trigger] b[p] == union_in_order(a, b)[i]
                    && #[trigger] b[q] == union_in_order(a, b)[j] && !b.take(q).contains(b[q]),
    decreases b.len(),
{
    if b.len() > 0 {
        let u = union_in_order(a, b);
        let init = b.drop_last();
        let last = b.last();
        let before = union_in_order(a, init);
        lemma_union_in_order(a, init);
        assert forall|x: u64| b.contains(x) implies init.contains(x) || x == last by {
            let i = choose|i: int| 0 <= i < b.len() && b[i] == x;
            if i < init.len() {
                assert(init[i] == x);
            }
        }
        assert forall|x: u64| u.contains(x) <==> a.contains(x) || b.contains(x) by {
            if !before.contains(last) {
                if before.contains(x) {
                    let i = choose|i: int| 0 <= i < before.len() && before[i] == x;
                    assert(u[i] == x);
                }
                if x == last {
                    assert(u[before.len() as int] == x);
                }
            }
        }
        assert forall|i: int, j: int|
            #![trigger u[i], u[j]]
            a.len() <= i < j < u.len() implies exists|p: int, q: int|
            0 <= p < q < b.len() && #[trigger] b[p] == u[i] && #[trigger] b[q] == u[j] && !b.take(
                q,
            ).contains(b[q]) by {
            if j < before.len() {
                let (p, q) = choose|p: int, q: int|
                    0 <= p < q < init.len() && #[trigger] init[p] == before[i] && #[trigger] init[q]
                        == before[j] && !init.take(q).contains(init[q]);
                assert(b.take(q) =~= init.take(q));
                assert(b[p] == u[i] && b[q] == u[j]);
            } else {
                let p = choose|p: int| 0 <= p < init.len() && init[p] == before[i];
                let q = b.len() - 1;
                assert(b.take(q) =~= init);
                assert(b[p] == u[i] && b[q] == u[j]);
            }
        }
    }
}

/// The cover numbers of a merged record begin with the work's as they
/// stand. Where either record lists a cover, they are the union of the two
/// lists: they hold what either list holds and nothing else, what the
/// edition adds comes in the edition's order, and where the work lists no
/// cover twice none occurs twice.
pub proof fn lemma_merged_cover_ids(work: BookRecordView, edition: BookRecordView)
    ensures
        work.cover_ids.is_prefix_of(merged_cover_ids(work, edition)),
        work.cover_ids.len() + edition.cover_ids.len() > 0 ==> {
            &&& merged_cover_ids(work, edition) == union_in_order(work.cover_ids, edition.cover_ids)
            &&& forall|x: u64|
                merged_cover_ids(work, edition).contains(x) <==> work.cover_ids.contains(x)
                    || edition.cover_ids.contains(x)
            &&& work.cover_ids.no_duplicates() ==> merged_cover_ids(work, edition).no_duplicates()
        },
{
    lemma_union_in_order(work.cover_ids, edition.cover_ids);
}

/// Merging two canonical records gives a canonical record.
pub proof fn lemma_merge_keeps_canonical(work: BookRecordView, edition: Option<BookRecordView>)
    requires
        work.is_canonical(),
        edition matches Some(e) ==> e.is_canonical(),
    ensures
        merged_record(work, edition).is_canonical(),
{
    if let Some(e) = edition {
        let union = union_in_order(work.cover_ids, e.cover_ids);
        lemma_union_in_order(work.cover_ids, e.cover_ids);
        assert forall|i: int| 0 <= i < union.len() implies #[trigger] union[i] > 0 by {
            let id = union[i];
            assert(union.contains(id));
            if work.cover_ids.contains(id) {
                let k = choose|k: int| 0 <= k < work.cover_ids.len() && work.cover_ids[k] == id;
                assert(work.cover_ids[k] > 0);
            } else {
                let k = choose|k: int| 0 <= k < e.cover_ids.len() && e.cover_ids[k] == id;
                assert(e.cover_ids[k] > 0);
            }
        }
    }
}

/// `a` where it is present, else `b`.
pub fn pick<T>(a: Option<T>, b: Option<T>) -> (r: Option<T>)
    ensures
        r == or_else(a, b),
{
    match a {
        Some(value) => Some(value),
        None => b,
    }
}

/// Combines the record of a work with the record of its first edition.
///
/// The title, the description, the authors and the subjects are the work's
/// where it has them; the edition, the ISBN, the year, the page count, the
/// language and the publishers are the edition's where it has them. The
/// cover numbers are united, the work's first.
pub fn merge_work_with_edition(
    work: OpenLibraryBookRecord,
    edition: Option<OpenLibraryBookRecord>,
) -> (merged: OpenLibraryBookRecord)
    ensures
        merged@ == merged_record(work@, edition.deep_view()),
        edition is None ==> merged@ == work@,
        edition matches Some(e) ==> merged@.title == if work@.title.len() == 0 {
            e@.title
        } else {
            work@.title
        },
        edition matches Some(e) ==> merged@.cover_id == first_of(merged@.cover_ids),
        work@.cover_ids.is_prefix_of(merged@.cover_ids),
        work@.is_canonical() && (edition matches Some(e) ==> e@.is_canonical())
            ==> merged@.is_canonical(),
{
    proof {
        let given = edition.deep_view();
        if work@.is_canonical() && (given matches Some(e) ==> e.is_canonical()) {
            lemma_merge_keeps_canonical(work@, given);
        }
    }
    let edition = match edition {
        Some(edition) => edition,
        None => {
            return work;
        },
    };
    proof {
        lemma_merged_cover_ids(work@, edition@);
    }
    let ghost w = work@;
    let OpenLibraryBookRecord {
        title: work_title,
        edition_id: work_edition_id,
        work_id: work_work_id,
        isbn13: work_isbn13,
        cover_ids: work_cover_ids,
        cover_id: work_cover_id,
        publish_year: work_publish_year,
        description: work_description,
        pages: work_pages,
        language: work_language,
        authors: work_authors,
        author_keys: work_author_keys,
        subjects: work_subjects,
        publishers: work_publishers,
    } = work;
    let OpenLibraryBookRecord {
        title: edition_title,
        edition_id: edition_edition_id,
        work_id: edition_work_id,
        isbn13: edition_isbn13,
        cover_ids: edition_cover_ids,
        cover_id: edition_cover_id,
        publish_year: edition_publish_year,
        description: edition_description,
        pages: edition_pages,
        language: edition_language,
        authors: edition_authors,
        author_keys: edition_author_keys,
        subjects: edition_subjects,
        publishers: edition_publishers,
    } = edition;

    let mut cover_ids = work_cover_ids;
    let mut i: usize = 0;
    while i < edition_cover_ids.len()
        invariant
            i <= edition_cover_ids.len(),
            cover_ids@ == union_in_order(w.cover_ids, edition_cover_ids@.take(i as int)),
        decreases edition_cover_ids.len() - i,
    {
        assert(edition_cover_ids@.take(i as int + 1).drop_last() =~= edition_cover_ids@.take(
            i as int,
        ));
        let id = edition_cover_ids[i];
        if !contains_id(&cover_ids, id) {
            cover_ids.push(id);
        }
        i += 1;
    }
    assert(edition_cover_ids@.take(edition_cover_ids.len() as int) =~= edition_cover_ids@);
    if cover_ids.len() == 0 {
        if let Some(id) = work_cover_id {
            cover_ids.push(id);
        }
        if let Some(id) = edition_cover_id {
            cover_ids.push(id);
        }
    }
    let first = if cover_ids.len() > 0 {
        Some(cover_ids[0])
    } else {
        None
    };
    let from_work = work_authors.len() > 0;
    let merged = OpenLibraryBookRecord {
        title: if work_title.as_str().is_empty() {
            edition_title
        } else {
            work_title
        },
        edition_id: pick(edition_edition_id, work_edition_id),
        work_id: pick(work_work_id, edition_work_id),
        isbn13: pick(edition_isbn13, work_isbn13),
        cover_id: pick(first, pick(edition_cover_id, work_cover_id)),
        cover_ids,
        publish_year: pick(edition_publish_year, work_publish_year),
        description: pick(work_description, edition_description),
        pages: pick(edition_pages, work_pages),
        language: pick(edition_language, work_language),
        authors: if from_work {
            work_authors
        } else {
            edition_authors
        },
        author_keys: if from_work {
            work_author_keys
        } else {
            edition_author_keys
        },
        subjects: if work_subjects.len() > 0 {
            work_subjects
        } else {
            edition_subjects
        },
        publishers: if edition_publishers.len() > 0 {
            edition_publishers
        } else {
            work_publishers
        },
    };
    merged
}

} // verus!
