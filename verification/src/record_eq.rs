//! Structural equality of records.

use crate::analyze_custom_xml::CustomXmlInfo;
use crate::attributes::pairs_view;
use crate::text::{models, same_lists, same_text};
use vstd::prelude::*;
use vstd::std_specs::cmp::PartialEqSpecImpl;

verus! {

/// Whether two pairs have the same name and the same value.
fn same_pair(a: &(String, String), b: &(String, String)) -> (r: bool)
    ensures
        r == ((a.0@, a.1@) == (b.0@, b.1@)),
{
    same_text(a.0.as_str(), b.0.as_str()) && same_text(a.1.as_str(), b.1.as_str())
}

/// Whether two attribute lists hold the same pairs in the same order.
pub fn same_pairs(a: &Vec<(String, String)>, b: &Vec<(String, String)>) -> (r: bool)
    ensures
        r == (pairs_view(a@) == pairs_view(b@)),
{
    let ghost model: spec_fn((String, String)) -> (Seq<char>, Seq<char>) =
        |pair: (String, String)| (pair.0@, pair.1@);
    assert(pairs_view(a@) == models(a@, model));
    assert(pairs_view(b@) == models(b@, model));
    same_lists::<(String, String), (Seq<char>, Seq<char>), _>(a, b, same_pair, Ghost(model))
}

/// Whether two records have the same tag, the same attributes in the same
/// order, and the same body.
///
/// Bodies are compared as the texts that the records hold. Two compact
/// bodies are the same text when they hold the same JSON value with the
/// members of every object in the same order; a body whose members stand in
/// another order is a different body, and a pass writes the file once to
/// bring its members into the order of the manifest.
pub fn same_record(a: &CustomXmlInfo, b: &CustomXmlInfo) -> (r: bool)
    ensures
        r == (a@ == b@),
{
    if !same_text(a.tag.as_str(), b.tag.as_str()) {
        return false;
    }
    if !same_text(a.json_content.as_str(), b.json_content.as_str()) {
        return false;
    }
    match (&a.attributes, &b.attributes) {
        (None, None) => true,
        (Some(left), Some(right)) => same_pairs(left, right),
        _ => false,
    }
}

impl PartialEq for CustomXmlInfo {
    fn eq(&self, other: &Self) -> (r: bool) {
        same_record(self, other)
    }
}

impl PartialEqSpecImpl for CustomXmlInfo {
    open spec fn obeys_eq_spec() -> bool {
        true
    }

    open spec fn eq_spec(&self, other: &Self) -> bool {
        self@ == other@
    }
}

} // verus!
