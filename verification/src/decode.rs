//! The request decoder: splits one raw request into method, path and
//! optional body, and extracts a single named field from a minimal
//! value-notation body.

use vstd::prelude::*;

use crate::text::{
    find_sub, first_match, has_match, is_ws, lemma_first_match,
    lemma_skip_ws_index, lemma_take_token_index, skip_ws, str_eq, take_token,
};

verus! {

/// The line terminator of the wire format.
pub open spec fn crlf() -> Seq<char> {
    "\r\n"@
}

/// The blank-line separator between the header section and the body.
pub open spec fn header_body_sep() -> Seq<char> {
    "\r\n\r\n"@
}

/// The first line of a request: everything up to the first line terminator,
/// or the whole request when there is none.
pub open spec fn first_line(r: Seq<char>) -> Seq<char> {
    if has_match(r, crlf()) {
        r.subrange(0, first_match(r, crlf()))
    } else {
        r
    }
}

/// The first whitespace-separated token of `line`.
pub open spec fn first_token(line: Seq<char>) -> Seq<char> {
    take_token(skip_ws(line))
}

/// What is left of `line` after its first token.
pub open spec fn after_first_token(line: Seq<char>) -> Seq<char> {
    skip_ws(line).skip(first_token(line).len() as int)
}

/// The second whitespace-separated token of `line`.
pub open spec fn second_token(line: Seq<char>) -> Seq<char> {
    take_token(skip_ws(after_first_token(line)))
}

/// What decoding a raw request yields: the first line's first two tokens as
/// method and path (fewer than two is a decode failure), and, for the write
/// verb only, the bytes after the first blank-line separator as the body.
pub open spec fn spec_parse_request(r: Seq<char>) -> Option<(Seq<char>, Seq<char>, Option<
    Seq<char>,
>)> {
    let line = first_line(r);
    let method = first_token(line);
    let path = second_token(line);
    if method.len() == 0 || path.len() == 0 {
        None
    } else {
        let body = if method == "POST"@ {
            if has_match(r, header_body_sep()) {
                Some(r.skip(first_match(r, header_body_sep()) + 4))
            } else {
                None
            }
        } else {
            None
        };
        Some((method, path, body))
    }
}

/// The decoded triple matches the decoding the specification describes.
pub open spec fn parse_result_matches(
    r: Option<(String, String, Option<String>)>,
    s: Option<(Seq<char>, Seq<char>, Option<Seq<char>>)>,
) -> bool {
    match (r, s) {
        (Option::None, Option::None) => true,
        (Option::Some((m, p, b)), Option::Some((sm, sp, sb))) => m@ == sm && p@ == sp
            && match (b, sb) {
            (Option::None, Option::None) => true,
            (Option::Some(bv), Option::Some(sbv)) => bv@ == sbv,
            _ => false,
        },
        _ => false,
    }
}

/// Decodes one raw request into method, path and optional body, exactly as
/// `spec_parse_request` describes; `None` is a decode failure.
pub fn parse_request(request: &str) -> (r: Option<(String, String, Option<String>)>)
    ensures
        parse_result_matches(r, spec_parse_request(request@)),
{
    let n = request.unicode_len();
    let line_end: usize = match find_sub(request, "\r\n") {
        Some(i) => {
            proof {
                lemma_first_match(request@, "\r\n"@, i as int);
            }
            i
        },
        None => n,
    };
    proof {
        assert(request@.subrange(0, line_end as int) =~= first_line(request@));
    }
    let ghost line = first_line(request@);

    // Scan the first token.
    let mut i: usize = 0;
    while i < line_end && is_ws_char(request.get_char(i))
        invariant
            i <= line_end <= n,
            n == request@.len(),
            line == request@.subrange(0, line_end as int),
            forall|j: int| 0 <= j < i ==> is_ws(line[j]),
        decreases line_end - i,
    {
        i += 1;
    }
    let m_start = i;
    while i < line_end && !is_ws_char(request.get_char(i))
        invariant
            m_start <= i <= line_end <= n,
            n == request@.len(),
            line == request@.subrange(0, line_end as int),
            forall|j: int| 0 <= j < m_start ==> is_ws(line[j]),
            m_start == line_end || !is_ws(line[m_start as int]),
            forall|j: int| m_start <= j < i ==> !is_ws(line[j]),
        decreases line_end - i,
    {
        i += 1;
    }
    let m_end = i;
    proof {
        lemma_skip_ws_index(line, m_start as int);
        lemma_take_token_index(line.skip(m_start as int), m_end - m_start);
        assert(line.skip(m_start as int).subrange(0, m_end - m_start) =~= line.subrange(
            m_start as int,
            m_end as int,
        ));
        assert(first_token(line) == line.subrange(m_start as int, m_end as int));
        assert(line.skip(m_start as int).skip(m_end - m_start) =~= line.skip(m_end as int));
        assert(after_first_token(line) == line.skip(m_end as int));
    }
    if m_end == m_start {
        // No first token, so no second token either: a decode failure.
        proof {
            assert(first_token(line).len() == 0);
        }
        return None;
    }

    // Scan the second token.
    while i < line_end && is_ws_char(request.get_char(i))
        invariant
            m_end <= i <= line_end <= n,
            n == request@.len(),
            line == request@.subrange(0, line_end as int),
            forall|j: int| m_end <= j < i ==> is_ws(line[j]),
        decreases line_end - i,
    {
        i += 1;
    }
    let p_start = i;
    while i < line_end && !is_ws_char(request.get_char(i))
        invariant
            m_end <= p_start <= i <= line_end <= n,
            n == request@.len(),
            line == request@.subrange(0, line_end as int),
            forall|j: int| m_end <= j < p_start ==> is_ws(line[j]),
            p_start == line_end || !is_ws(line[p_start as int]),
            forall|j: int| p_start <= j < i ==> !is_ws(line[j]),
        decreases line_end - i,
    {
        i += 1;
    }
    let p_end = i;
    proof {
        lemma_skip_ws_index(line.skip(m_end as int), p_start - m_end);
        assert(line.skip(m_end as int).skip(p_start - m_end) =~= line.skip(p_start as int));
        lemma_take_token_index(line.skip(p_start as int), p_end - p_start);
        assert(line.skip(p_start as int).subrange(0, p_end - p_start) =~= line.subrange(
            p_start as int,
            p_end as int,
        ));
        assert(second_token(line) == line.subrange(p_start as int, p_end as int));
    }
    if p_end == p_start {
        return None;
    }

    proof {
        assert(line.subrange(m_start as int, m_end as int) =~= request@.subrange(
            m_start as int,
            m_end as int,
        ));
        assert(line.subrange(p_start as int, p_end as int) =~= request@.subrange(
            p_start as int,
            p_end as int,
        ));
    }
    let method = String::from_str(request.substring_char(m_start, m_end));
    let path = String::from_str(request.substring_char(p_start, p_end));

    let body: Option<String> = if str_eq(method.as_str(), "POST") {
        match find_sub(request, "\r\n\r\n") {
            Some(idx) => {
                proof {
                    lemma_first_match(request@, "\r\n\r\n"@, idx as int);
                    reveal_strlit("\r\n\r\n");
                    assert(request@.subrange(idx + 4, n as int) =~= request@.skip(idx + 4));
                }
                Some(String::from_str(request.substring_char(idx + 4, n)))
            },
            None => None,
        }
    } else {
        None
    };
    Some((method, path, body))
}

/// The literal pattern that announces a quoted string value for `field`.
pub open spec fn field_pattern(field: Seq<char>) -> Seq<char> {
    "\""@ + field + "\":\""@
}

/// What extracting `field` from a body yields: the characters between the
/// end of the first occurrence of the pattern `"<field>":"` and the next
/// double quote. A literal scan, nothing more: no escaping, no nesting, only
/// quoted string values.
pub open spec fn spec_extract_field(json: Seq<char>, field: Seq<char>) -> Option<Seq<char>> {
    let pat = field_pattern(field);
    if has_match(json, pat) {
        let rest = json.skip(first_match(json, pat) + pat.len() as int);
        if has_match(rest, "\""@) {
            Some(rest.subrange(0, first_match(rest, "\""@)))
        } else {
            None
        }
    } else {
        None
    }
}

/// Extracts the quoted string value of `field` from `json`, exactly as
/// `spec_extract_field` describes.
pub fn extract_json_field(json: &str, field: &str) -> (r: Option<String>)
    ensures
        match (r, spec_extract_field(json@, field@)) {
            (Option::None, Option::None) => true,
            (Option::Some(v), Option::Some(sv)) => v@ == sv,
            _ => false,
        },
{
    let pattern = String::from_str("\"").concat(field).concat("\":\"");
    proof {
        assert(pattern@ == field_pattern(field@));
    }
    let n = json.unicode_len();
    match find_sub(json, pattern.as_str()) {
        Some(start) => {
            proof {
                lemma_first_match(json@, pattern@, start as int);
            }
            let value_start = start + pattern.as_str().unicode_len();
            let rest = json.substring_char(value_start, n);
            proof {
                assert(rest@ =~= json@.skip(value_start as int));
            }
            match find_sub(rest, "\"") {
                Some(end) => {
                    proof {
                        lemma_first_match(rest@, "\""@, end as int);
                    }
                    Some(String::from_str(rest.substring_char(0, end)))
                },
                None => None,
            }
        },
        None => None,
    }
}

fn is_ws_char(c: char) -> (r: bool)
    ensures
        r == is_ws(c),
{
    c == ' ' || c == '\t' || c == '\n' || c == '\r' || c == '\u{b}' || c == '\u{c}'
}

} // verus!
