//! The fixed-shape textual records that operations and the dispatcher answer
//! with: a success marker, a membership record, a count record, and the error
//! records.

use vstd::prelude::*;

use crate::text::dec_digits;

verus! {

/// The success marker returned by every mutation that completed.
pub open spec fn success_record() -> Seq<char> {
    "{\"success\":true}"@
}

/// The membership record for a query result.
pub open spec fn exists_record(present: bool) -> Seq<char> {
    if present {
        "{\"exists\":true}"@
    } else {
        "{\"exists\":false}"@
    }
}

/// The count record for the current number of members.
pub open spec fn size_record(n: nat) -> Seq<char> {
    "{\"size\":"@ + dec_digits(n) + "}"@
}

/// The error record for a write route that was given no body.
pub open spec fn missing_body_record() -> Seq<char> {
    "{\"error\":\"Missing body\"}"@
}

/// The error record for a body without the required field.
pub open spec fn missing_item_record() -> Seq<char> {
    "{\"error\":\"Missing item\"}"@
}

/// The error record for a route that is not recognized.
pub open spec fn not_found_record() -> Seq<char> {
    "{\"error\":\"Not found\"}"@
}

} // verus!
