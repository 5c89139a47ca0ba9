//! JSON text of posting lists and stored documents, through `serde_json`.
//!
//! The text `serde_json` writes for a list of identifiers is stated here;
//! what it reads from a text is named by a function of the text alone, and
//! the library's own contracts speak of those names.

use crate::inversearch::index::DocId;
use crate::text::decimal_text;
use vstd::prelude::*;

verus! {

/// `serde_json::Error`, carried through the library as an opaque value.
#[verifier::external_type_specification]
#[verifier::external_body]
pub struct ExJsonError(serde_json::Error);

/// The identifiers in decimal, joined by commas.
pub open spec fn ids_text(ids: Seq<DocId>) -> Seq<char>
    decreases ids.len(),
{
    if ids.len() == 0 {
        Seq::empty()
    } else if ids.len() == 1 {
        decimal_text(ids[0] as nat)
    } else {
        ids_text(ids.drop_last()) + seq![','] + decimal_text(ids.last() as nat)
    }
}

/// The compact JSON array of the identifiers: `[`, the numbers joined by
/// commas, `]`.
pub open spec fn ids_json(ids: Seq<DocId>) -> Seq<char> {
    seq!['['] + ids_text(ids) + seq![']']
}

/// What `serde_json::from_str` reads from `text` as a list of identifiers, or
/// `None` where it reports an error.
pub uninterp spec fn ids_from_json(text: Seq<char>) -> Option<Seq<DocId>>;

/// `serde_json::from_str` reads a JSON value from `text`.
pub uninterp spec fn is_json_value(text: Seq<char>) -> bool;

/// Calls `serde_json::to_string` on a list of identifiers. The contract
/// claims what its compact formatter writes for a sequence of `u64` into a
/// `Vec` writer, which cannot fail: `[`, each number in decimal with a comma
/// before all but the first, `]`.
#[verifier::external_body]
pub(crate) fn ids_to_json(ids: &Vec<DocId>) -> (r: Result<String, serde_json::Error>)
    ensures
        r is Ok,
        r matches Ok(text) ==> text@ == ids_json(ids@),
{
    serde_json::to_string(ids)
}

/// Calls `serde_json::from_str` to read a list of identifiers. The contract
/// claims that the outcome is the one `ids_from_json` names for that text,
/// and that the compact array `ids_json` writes for a list reads back as
/// that list: each number is a decimal `u64` and the separators are commas.
#[verifier::external_body]
pub(crate) fn ids_of_json(text: &str) -> (r: Result<Vec<DocId>, serde_json::Error>)
    ensures
        match r {
            Ok(ids) => ids_from_json(text@) == Some(ids@),
            Err(_) => ids_from_json(text@) is None,
        },
        forall|v: Seq<DocId>| ids_json(v) == text@ ==> r is Ok && r->Ok_0@ == v,
{
    serde_json::from_str::<Vec<DocId>>(text)
}

/// Calls `serde_json::from_str` to read a `serde_json::Value` and drops the
/// value. The contract claims that it succeeds exactly where
/// `is_json_value` holds of the text.
#[verifier::external_body]
pub(crate) fn check_json_value(text: &str) -> (r: Result<(), serde_json::Error>)
    ensures
        r is Ok <==> is_json_value(text@),
{
    match serde_json::from_str::<serde_json::Value>(text) {
        Ok(_) => Ok(()),
        Err(e) => Err(e),
    }
}

/// Calls `to_string` on a `serde_json::Error`. The error is opaque here, so
/// nothing is stated of the message.
#[verifier::external_body]
pub(crate) fn json_error_message(e: &serde_json::Error) -> String {
    e.to_string()
}

} // verus!
