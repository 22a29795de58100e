//! The dispatcher: a fixed routing table from (method, path) to a store
//! operation, producing a status code and a response record.

use vstd::prelude::*;

use crate::decode::{extract_json_field, spec_extract_field};
use crate::records::{
    exists_record, missing_body_record, missing_item_record, not_found_record, size_record,
    success_record,
};
use crate::store::InMemSetDB;
use crate::text::str_eq;

verus! {

/// The view of an optional body.
pub open spec fn body_view(body: Option<String>) -> Option<Seq<char>> {
    match body {
        Option::Some(b) => Option::Some(b@),
        Option::None => Option::None,
    }
}

/// What dispatching a decoded request against a store in state `s` yields:
/// the store's next state, the status code, and the response record.
pub open spec fn spec_dispatch(
    s: Set<Seq<char>>,
    method: Seq<char>,
    path: Seq<char>,
    body: Option<Seq<char>>,
) -> (Set<Seq<char>>, int, Seq<char>) {
    if method == "POST"@ && path == "/add"@ {
        match body {
            Option::Some(b) => match spec_extract_field(b, "item"@) {
                Option::Some(item) => (s.insert(item), 200int, success_record()),
                Option::None => (s, 400int, missing_item_record()),
            },
            Option::None => (s, 400int, missing_body_record()),
        }
    } else if method == "POST"@ && path == "/contains"@ {
        match body {
            Option::Some(b) => match spec_extract_field(b, "item"@) {
                Option::Some(item) => (s, 200int, exists_record(s.contains(item))),
                Option::None => (s, 400int, missing_item_record()),
            },
            Option::None => (s, 400int, missing_body_record()),
        }
    } else if method == "POST"@ && path == "/clear"@ {
        (Set::empty(), 200int, success_record())
    } else if method == "GET"@ && path == "/size"@ {
        (s, 200int, size_record(s.len()))
    } else {
        (s, 404int, not_found_record())
    }
}

/// Routes one decoded request to the store operation the routing table
/// names, exactly as `spec_dispatch` describes, and returns the status code
/// and response record.
pub fn handle_request(set: &mut InMemSetDB, method: &str, path: &str, body: Option<String>) -> (r:
    (u16, String))
    requires
        old(set).wf(),
    ensures
        final(set).wf(),
        ({
            let (ns, status, record) = spec_dispatch(old(set)@, method@, path@, body_view(body));
            final(set)@ == ns && r.0 == status && r.1@ == record
        }),
{
    let is_post = str_eq(method, "POST");
    if is_post && str_eq(path, "/add") {
        match body {
            Some(body_str) => match extract_json_field(body_str.as_str(), "item") {
                Some(item) => {
                    let response = set.add(item);
                    (200, response)
                },
                None => (400, String::from_str("{\"error\":\"Missing item\"}")),
            },
            None => (400, String::from_str("{\"error\":\"Missing body\"}")),
        }
    } else if is_post && str_eq(path, "/contains") {
        match body {
            Some(body_str) => match extract_json_field(body_str.as_str(), "item") {
                Some(item) => {
                    let response = set.contains(item.as_str());
                    (200, response)
                },
                None => (400, String::from_str("{\"error\":\"Missing item\"}")),
            },
            None => (400, String::from_str("{\"error\":\"Missing body\"}")),
        }
    } else if is_post && str_eq(path, "/clear") {
        let response = set.clear();
        (200, response)
    } else if str_eq(method, "GET") && str_eq(path, "/size") {
        let response = set.size();
        (200, response)
    } else {
        (404, String::from_str("{\"error\":\"Not found\"}"))
    }
}

} // verus!
