//! The namespaced forms of a book's identifiers, as the host's identifier
//! bundle `RsIds` writes them.

use vstd::prelude::*;
use rs_plugin_common_interfaces::domain::rs_ids::RsIds;

verus! {

/// The namespaced form of an ISBN-13.
///
/// Trusted: stands for `RsIds::as_isbn13` on a bundle that holds `isbn13`
/// and nothing else. The method gives the text `isbn13:` followed by the
/// field as it stands, whenever the field is present.
#[verifier::external_body]
pub(crate) fn isbn13_external_id(isbn13: &str) -> (formatted: Option<String>)
    ensures
        formatted.deep_view() == Some("isbn13:"@ + isbn13@),
{
    let ids = RsIds { isbn13: Some(isbn13.to_string()), ..Default::default() };
    ids.as_isbn13()
}

/// The namespaced form of a catalog work identifier.
///
/// Trusted: stands for `RsIds::as_openlibrary_work_id` on a bundle that
/// holds `work_id` and nothing else. The method gives the text `olwid:`
/// followed by the field as it stands, whenever the field is present.
#[verifier::external_body]
pub(crate) fn work_external_id(work_id: &str) -> (formatted: Option<String>)
    ensures
        formatted.deep_view() == Some("olwid:"@ + work_id@),
{
    let ids = RsIds { openlibrary_work_id: Some(work_id.to_string()), ..Default::default() };
    ids.as_openlibrary_work_id()
}

/// The namespaced form of a catalog edition identifier.
///
/// Trusted: stands for `RsIds::as_openlibrary_edition_id` on a bundle that
/// holds `edition_id` and nothing else. The method gives the text `oleid:`
/// followed by the field as it stands, whenever the field is present.
#[verifier::external_body]
pub(crate) fn edition_external_id(edition_id: &str) -> (formatted: Option<String>)
    ensures
        formatted.deep_view() == Some("oleid:"@ + edition_id@),
{
    let ids = RsIds { openlibrary_edition_id: Some(edition_id.to_string()), ..Default::default() };
    ids.as_openlibrary_edition_id()
}

} // verus!
