//! The deduplicator: of the items that share a key the first stays, and the
//! items that stay keep their order.

use vstd::prelude::*;
use vstd::hash_set::StringHashSet;
use crate::convert::{CoverImage, CoverImageView};
use crate::record::{BookRecordView, OpenLibraryBookRecord};

verus! {

/// An item before position `i` has the key of the item at `i`.
pub open spec fn occurs_before<T>(items: Seq<T>, key: spec_fn(T) -> Seq<char>, i: int) -> bool {
    exists|j: int| 0 <= j < i && #[trigger] key(items[j]) == key(items[i])
}

/// The items whose key no earlier item has, in their order.
pub open spec fn keep_first<T>(items: Seq<T>, key: spec_fn(T) -> Seq<char>) -> Seq<T>
    decreases items.len(),
{
    if items.len() == 0 {
        Seq::empty()
    } else {
        let before = keep_first(items.drop_last(), key);
        if occurs_before(items, key, items.len() - 1) {
            before
        } else {
            before.push(items.last())
        }
    }
}

/// No two items have the same key.
pub open spec fn distinct_keys<T>(items: Seq<T>, key: spec_fn(T) -> Seq<char>) -> bool {
    forall|i: int, j: int|
        0 <= i < j < items.len() ==> #[trigger] key(items[i]) != #[trigger] key(items[j])
}

/// Some item has the key `k`.
pub open spec fn has_key<T>(items: Seq<T>, key: spec_fn(T) -> Seq<char>, k: Seq<char>) -> bool {
    exists|j: int| 0 <= j < items.len() && #[trigger] key(items[j]) == k
}

/// Every item of `kept` is an item of `items` that is the first of its key
/// there.
pub open spec fn holds_first_occurrences<T>(
    kept: Seq<T>,
    items: Seq<T>,
    key: spec_fn(T) -> Seq<char>,
) -> bool {
    forall|a: int|
        #![trigger kept[a]]
        0 <= a < kept.len() ==> exists|p: int|
            0 <= p < items.len() && #[trigger] items[p] == kept[a] && !occurs_before(items, key, p)
}

/// Any two items of `kept` stand in `items` too, in the same order.
pub open spec fn keeps_order<T>(kept: Seq<T>, items: Seq<T>) -> bool {
    forall|a: int, b: int|
        #![trigger kept[a], kept[b]]
        0 <= a < b < kept.len() ==> exists|p: int, q: int|
            0 <= p < q < items.len() && #[trigger] items[p] == kept[a] && #[trigger] items[q]
                == kept[b]
}

/// What `keep_first` leaves: no key twice, every key of the input once, and
/// each item the first one of its key in the input, in the input's order.
pub proof fn lemma_keep_first<T>(items: Seq<T>, key: spec_fn(T) -> Seq<char>)
    ensures
        distinct_keys(keep_first(items, key), key),
        keep_first(items, key).len() <= items.len(),
        forall|k: Seq<char>| has_key(keep_first(items, key), key, k) <==> has_key(items, key, k),
        holds_first_occurrences(keep_first(items, key), items, key),
        keeps_order(keep_first(items, key), items),
    decreases items.len(),
{
    if items.len() > 0 {
        let init = items.drop_last();
        let last = items.last();
        let before = keep_first(init, key);
        let kept = keep_first(items, key);
        lemma_keep_first(init, key);
        assert forall|j: int| 0 <= j < init.len() implies init[j] == items[j] by {}
        assert forall|k: Seq<char>| has_key(items, key, k) <==> has_key(init, key, k) || k == key(
            last,
        ) by {}
        if !occurs_before(items, key, items.len() - 1) {
            assert forall|k: Seq<char>| has_key(kept, key, k) <==> has_key(before, key, k) || k
                == key(last) by {
                if has_key(before, key, k) {
                    let j = choose|j: int| 0 <= j < before.len() && #[trigger] key(before[j]) == k;
                    assert(key(kept[j]) == k);
                }
                if k == key(last) {
                    assert(key(kept[before.len() as int]) == k);
                }
            }
        }
    }
}

/// One more item at the end stays exactly where no item before it has its
/// key.
pub proof fn lemma_keep_first_push<T>(items: Seq<T>, key: spec_fn(T) -> Seq<char>, item: T)
    ensures
        keep_first(items.push(item), key) == if has_key(items, key, key(item)) {
            keep_first(items, key)
        } else {
            keep_first(items, key).push(item)
        },
        forall|k: Seq<char>|
            has_key(items.push(item), key, k) <==> has_key(items, key, k) || k == key(item),
{
    assert(items.push(item).drop_last() =~= items);
}

/// Where no two items share a key, all of them stay.
pub proof fn lemma_keep_first_of_distinct<T>(items: Seq<T>, key: spec_fn(T) -> Seq<char>)
    requires
        distinct_keys(items, key),
    ensures
        keep_first(items, key) == items,
    decreases items.len(),
{
    if items.len() > 0 {
        lemma_keep_first_of_distinct(items.drop_last(), key);
    }
}

/// De-duplication is idempotent: what it leaves, it leaves unchanged.
pub proof fn lemma_keep_first_idempotent<T>(items: Seq<T>, key: spec_fn(T) -> Seq<char>)
    ensures
        keep_first(keep_first(items, key), key) == keep_first(items, key),
{
    lemma_keep_first(items, key);
    lemma_keep_first_of_distinct(keep_first(items, key), key);
}

/// The key of a record, as a function.
pub open spec fn record_key() -> spec_fn(BookRecordView) -> Seq<char> {
    |r: BookRecordView| r.dedup_key()
}

/// The records without those whose key an earlier record has.
pub open spec fn deduplicated(records: Seq<BookRecordView>) -> Seq<BookRecordView> {
    keep_first(records, record_key())
}

/// De-duplicating records twice gives what de-duplicating them once gives;
/// no two of the records that stay share a key; each of them is the first
/// record of its key, and they stand in the order in which they came.
pub proof fn lemma_deduplicated(records: Seq<BookRecordView>)
    ensures
        deduplicated(deduplicated(records)) == deduplicated(records),
        distinct_keys(deduplicated(records), record_key()),
        holds_first_occurrences(deduplicated(records), records, record_key()),
        keeps_order(deduplicated(records), records),
{
    lemma_keep_first(records, record_key());
    lemma_keep_first_idempotent(records, record_key());
}

/// Drops every record whose key an earlier record of the list has. The
/// records that stay keep their order.
pub fn deduplicate_records(records: Vec<OpenLibraryBookRecord>) -> (deduped: Vec<
    OpenLibraryBookRecord,
>)
    ensures
        deduped.deep_view() == deduplicated(records.deep_view()),
        deduplicated(deduped.deep_view()) == deduped.deep_view(),
        deduped.len() <= records.len(),
{
    let ghost all = records.deep_view();
    let ghost key = record_key();
    let mut seen = StringHashSet::new();
    let mut deduped: Vec<OpenLibraryBookRecord> = Vec::new();
    for record in it: records
        invariant
            it.seq() == records@,
            all == records.deep_view(),
            key == record_key(),
            deduped.deep_view() == keep_first(all.take(it.index()), key),
            forall|k: Seq<char>| seen@.contains(k) <==> has_key(all.take(it.index()), key, k),
    {
        proof {
            assert(all.take(it.index() + 1) =~= all.take(it.index()).push(record@));
            lemma_keep_first_push(all.take(it.index()), key, record@);
        }
        if seen.insert(record.dedup_key()) {
            deduped.push(record);
        }
    }
    proof {
        assert(all.take(records.len() as int) =~= all);
        lemma_keep_first(all, key);
        lemma_keep_first_idempotent(all, key);
    }
    deduped
}

/// The address of an image, as a function.
pub open spec fn image_key() -> spec_fn(CoverImageView) -> Seq<char> {
    |image: CoverImageView| image.url
}

/// The images without those whose address an earlier image has.
pub open spec fn deduplicated_images(images: Seq<CoverImageView>) -> Seq<CoverImageView> {
    keep_first(images, image_key())
}

/// Drops every image whose address an earlier image of the list has. The
/// images that stay keep their order.
pub fn deduplicate_images(images: Vec<CoverImage>) -> (deduped: Vec<CoverImage>)
    ensures
        deduped.deep_view() == deduplicated_images(images.deep_view()),
        deduplicated_images(deduped.deep_view()) == deduped.deep_view(),
        deduped.len() <= images.len(),
{
    let ghost all = images.deep_view();
    let ghost key = image_key();
    let mut seen = StringHashSet::new();
    let mut deduped: Vec<CoverImage> = Vec::new();
    for image in it: images
        invariant
            it.seq() == images@,
            all == images.deep_view(),
            key == image_key(),
            deduped.deep_view() == keep_first(all.take(it.index()), key),
            forall|k: Seq<char>| seen@.contains(k) <==> has_key(all.take(it.index()), key, k),
    {
        proof {
            assert(all.take(it.index() + 1) =~= all.take(it.index()).push(image@));
            lemma_keep_first_push(all.take(it.index()), key, image@);
        }
        if seen.insert(image.url.clone()) {
            deduped.push(image);
        }
    }
    proof {
        assert(all.take(images.len() as int) =~= all);
        lemma_keep_first(all, key);
        lemma_keep_first_idempotent(all, key);
    }
    deduped
}

} // verus!
