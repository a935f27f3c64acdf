//! The header block of a message.

use vstd::prelude::*;
use crate::headers::Headers;
use crate::keyed::{distinct_keys, lemma_put, put};
use crate::search::{split, split_once, str_split, str_split_once, views};
use crate::status_codes::StatusCodes;
use crate::text::{lowercase, str_to_lowercase, str_trim, trim};

verus! {

/// The header that a line states: name and value are parted at the first
/// `:`, both without the white space around them, the name in lower case.
/// A line without `:` states none.
pub open spec fn header_of_line(line: Seq<char>) -> Option<(Seq<char>, Seq<char>)> {
    match split_once(line, ":"@) {
        Some((name, value)) => Some((lowercase(trim(name)), trim(value))),
        None => None,
    }
}

/// The table that a run of header lines states, read from the first line
/// on: a name that comes again gets the later value. There is none where a
/// line states no header.
pub open spec fn headers_of_lines(lines: Seq<Seq<char>>) -> Option<Seq<(Seq<char>, Seq<char>)>>
    decreases lines.len(),
{
    if lines.len() == 0 {
        Some(Seq::empty())
    } else {
        match (headers_of_lines(lines.drop_last()), header_of_line(lines.last())) {
            (Some(earlier), Some((name, value))) => Some(put(earlier, name, value)),
            _ => None,
        }
    }
}

/// The table that a header block states: its lines are parted by CR LF.
pub open spec fn headers_of_block(block: Seq<char>) -> Option<Seq<(Seq<char>, Seq<char>)>> {
    headers_of_lines(split(block, "\r\n"@))
}

/// In the table that a run of header lines states, no name occurs twice.
pub proof fn lemma_headers_distinct(lines: Seq<Seq<char>>)
    ensures
        headers_of_lines(lines) matches Some(headers) ==> distinct_keys(headers),
    decreases lines.len(),
{
    if lines.len() > 0 {
        lemma_headers_distinct(lines.drop_last());
        match (headers_of_lines(lines.drop_last()), header_of_line(lines.last())) {
            (Some(earlier), Some((name, value))) => {
                lemma_put(earlier, name, value);
            },
            _ => {},
        }
    }
}

/// Where the first `k` lines state no table, all the lines state none.
proof fn lemma_headers_fail_early(lines: Seq<Seq<char>>, k: int)
    requires
        0 <= k <= lines.len(),
        headers_of_lines(lines.take(k)) is None,
    ensures
        headers_of_lines(lines) is None,
    decreases lines.len() - k,
{
    if k == lines.len() {
        assert(lines.take(k) =~= lines);
    } else {
        assert(lines.take(k + 1).drop_last() =~= lines.take(k));
        lemma_headers_fail_early(lines, k + 1);
    }
}

/// Reads a header block. A line without `:` makes the block a bad request.
pub fn parse_headers(headers_string: &str) -> (r: Result<Headers, StatusCodes>)
    ensures
        match r {
            Ok(headers) => headers_of_block(headers_string@) == Some(headers@),
            Err(status) => status == StatusCodes::BadRequest && headers_of_block(headers_string@)
                is None,
        },
{
    let header_lines = str_split(headers_string, "\r\n");
    let ghost lines = views(header_lines@);
    let mut headers = Headers::new();
    let mut i: usize = 0;
    while i < header_lines.len()
        invariant
            i <= header_lines@.len(),
            lines == views(header_lines@),
            lines == split(headers_string@, "\r\n"@),
            headers_of_lines(lines.take(i as int)) == Some(headers@),
        decreases header_lines@.len() - i,
    {
        let line = header_lines[i];
        proof {
            assert(lines.take(i + 1).drop_last() =~= lines.take(i as int));
        }
        match str_split_once(line, ":") {
            None => {
                proof {
                    lemma_headers_fail_early(lines, i + 1);
                }
                return Err(StatusCodes::BadRequest);
            },
            Some((k, v)) => {
                let name = str_to_lowercase(str_trim(k));
                headers.insert(name, str_trim(v).to_owned());
            },
        }
        i += 1;
    }
    assert(lines.take(header_lines@.len() as int) =~= lines);
    Ok(headers)
}

} // verus!
