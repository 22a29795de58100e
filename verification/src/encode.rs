//! The response encoder: builds the complete wire-format reply from a
//! status code and a fully materialized body.

use vstd::prelude::*;

use vstd::utf8::encode_utf8;

use crate::text::{dec_digits, dec_value, lemma_dec_digits_value, usize_to_string};

verus! {

/// The fixed human-readable phrase for a status code.
pub open spec fn status_phrase(status: int) -> Seq<char> {
    if status == 200 {
        "OK"@
    } else if status == 400 {
        "Bad Request"@
    } else if status == 404 {
        "Not Found"@
    } else {
        "Unknown"@
    }
}

/// The complete reply for a status code and a body: status line, the fixed
/// header fields — content type, the exact byte length of the body, and the
/// notice that the connection closes after this reply — a blank-line
/// separator, and the body verbatim.
pub open spec fn spec_response(status: int, body: Seq<char>) -> Seq<char> {
    "HTTP/1.1 "@ + dec_digits(status as nat) + " "@ + status_phrase(status)
        + "\r\nContent-Type: application/json\r\nContent-Length: "@ + dec_digits(
        encode_utf8(body).len(),
    ) + "\r\nConnection: close\r\n\r\n"@ + body
}

/// Everything of a reply that comes before the content-length digits.
pub open spec fn response_head(status: int) -> Seq<char> {
    "HTTP/1.1 "@ + dec_digits(status as nat) + " "@ + status_phrase(status)
        + "\r\nContent-Type: application/json\r\nContent-Length: "@
}

/// Round-trip of the reply's length header: the digits that follow the
/// content-length field name in an encoded reply decode back to the exact
/// byte length of the body that was encoded.
pub proof fn lemma_content_length_round_trip(status: int, body: Seq<char>)
    ensures
        ({
            let digits = dec_digits(encode_utf8(body).len());
            let embedded = spec_response(status, body).subrange(
                response_head(status).len() as int,
                response_head(status).len() + digits.len() as int,
            );
            embedded == digits && dec_value(embedded) == encode_utf8(body).len()
        }),
{
    let digits = dec_digits(encode_utf8(body).len());
    let head = response_head(status);
    assert(spec_response(status, body).subrange(
        head.len() as int,
        head.len() + digits.len() as int,
    ) =~= digits);
    lemma_dec_digits_value(encode_utf8(body).len());
}

/// Builds the complete wire-format reply, exactly as `spec_response`
/// describes.
pub fn build_response(status: u16, body: String) -> (r: String)
    ensures
        r@ == spec_response(status as int, body@),
{
    let mut r = String::from_str("HTTP/1.1 ");
    let status_digits = usize_to_string(status as usize);
    r.append(status_digits.as_str());
    r.append(" ");
    let status_text: &str = if status == 200 {
        "OK"
    } else if status == 400 {
        "Bad Request"
    } else if status == 404 {
        "Not Found"
    } else {
        "Unknown"
    };
    r.append(status_text);
    r.append("\r\nContent-Type: application/json\r\nContent-Length: ");
    let length_digits = usize_to_string(body.as_str().as_bytes().len());
    r.append(length_digits.as_str());
    r.append("\r\nConnection: close\r\n\r\n");
    r.append(body.as_str());
    proof {
        assert(r@ =~= spec_response(status as int, body@));
    }
    r
}

} // verus!
