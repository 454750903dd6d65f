//! The pure parts of asking a summarization service about an upgrade: the
//! query that is sent and what is read from the answer of the web search.

use vstd::prelude::*;
use vstd::string::StringExecFns;
use crate::json::{elements, json_elements, json_member, json_string, member, string_of};
use crate::tag::texts_of;

verus! {

/// The texts of those of `items` that are strings, in their order.
pub open spec fn strings_among(items: Seq<serde_json::Value>) -> Seq<Seq<char>>
    decreases items.len(),
{
    if items.len() == 0 {
        Seq::empty()
    } else {
        match json_string(items.last()) {
            Some(s) => strings_among(items.drop_last()).push(s),
            None => strings_among(items.drop_last()),
        }
    }
}

/// The string under `collection_name`, or the empty text where the answer
/// holds none.
pub open spec fn collection_name_of(v: serde_json::Value) -> Seq<char> {
    match json_member(v, "collection_name"@) {
        Some(m) => match json_string(m) {
            Some(s) => s,
            None => Seq::empty(),
        },
        None => Seq::empty(),
    }
}

/// The strings of the array under `filenames`, or nothing where the answer
/// holds no such array.
pub open spec fn result_urls_of(v: serde_json::Value) -> Seq<Seq<char>> {
    match json_member(v, "filenames"@) {
        Some(m) => match json_elements(m) {
            Some(items) => strings_among(items),
            None => Seq::empty(),
        },
        None => Seq::empty(),
    }
}

/// The text of the web search about an upgrade.
pub open spec fn search_query_text(
    container_url: Seq<char>,
    current: Seq<char>,
    latest: Seq<char>,
) -> Seq<char> {
    "Upgrading "@ + container_url + " from "@ + current + " to "@ + latest
        + " release notes, upgrade notes, breaking changes list issues and problems"@
}

/// The text of the web search about an upgrade.
pub fn search_query(container_url: &str, current_version: &str, latest_version: &str) -> (r:
    String)
    ensures
        r@ == search_query_text(container_url@, current_version@, latest_version@),
{
    String::from_str("Upgrading ").concat(container_url).concat(" from ").concat(
        current_version,
    ).concat(" to ").concat(latest_version).concat(
        " release notes, upgrade notes, breaking changes list issues and problems",
    )
}

/// Reads the collection name and the addresses from the answer of the web
/// search. What is missing or of another type is left out.
pub fn extract_search_results(search_response_body: &serde_json::Value) -> (r: (
    String,
    Vec<String>,
))
    ensures
        r.0@ == collection_name_of(*search_response_body),
        texts_of(r.1@) == result_urls_of(*search_response_body),
{
    let name = match member(search_response_body, "collection_name") {
        Some(m) => match string_of(m) {
            Some(s) => String::from_str(s),
            None => String::new(),
        },
        None => String::new(),
    };
    let mut urls: Vec<String> = Vec::new();
    assert(texts_of(urls@) =~= Seq::<Seq<char>>::empty());
    if let Some(m) = member(search_response_body, "filenames") {
        if let Some(items) = elements(m) {
            let mut k: usize = 0;
            assert(items@.take(0) =~= Seq::<serde_json::Value>::empty());
            while k < items.len()
                invariant
                    k <= items@.len(),
                    texts_of(urls@) == strings_among(items@.take(k as int)),
                decreases items@.len() - k,
            {
                assert(items@.take(k + 1).drop_last() =~= items@.take(k as int));
                assert(items@.take(k + 1).last() == items@[k as int]);
                let ghost before = texts_of(urls@);
                if let Some(s) = string_of(&items[k]) {
                    urls.push(String::from_str(s));
                    assert(texts_of(urls@) =~= before.push(s@));
                }
                k += 1;
            }
            assert(items@.take(k as int) =~= items@);
        }
    }
    (name, urls)
}

} // verus!
