//! Reading artifact identifiers out of a flat-text record.
//!
//! A record is split on line feeds. Lines that begin with the cross-reference
//! tag `DR   PDB;` carry one identifier each, in the byte window from offset
//! `ID_START` up to `ID_END`; it is returned in lower case. Every other line is
//! ignored.
use vstd::prelude::*;

use crate::text::{ascii_lower, lower_byte, push_char};

verus! {

/// ASCII line feed.
pub const LINE_FEED: u8 = 10;

/// Length of the cross-reference tag that starts a matching line.
pub const TAG_LEN: usize = 9;

/// First byte of the identifier within a matching line.
pub const ID_START: usize = 10;

/// End (exclusive) of the identifier within a matching line.
pub const ID_END: usize = 14;

/// Largest byte value that is ASCII.
pub const ASCII_MAX: u8 = 127;

/// A matching line was too short for the identifier window, or the window
/// held a byte outside ASCII.
#[derive(Debug, Clone, Copy, PartialEq, Eq)]
pub struct ParseError {
    /// Offset of the first byte of the offending line in the payload.
    pub line_start: usize,
}

/// The line starts with the tag `DR   PDB;`.
pub open spec fn has_tag(line: Seq<u8>) -> bool {
    &&& line.len() >= TAG_LEN
    &&& line[0] == 68u8
    &&& line[1] == 82u8
    &&& line[2] == 32u8
    &&& line[3] == 32u8
    &&& line[4] == 32u8
    &&& line[5] == 80u8
    &&& line[6] == 68u8
    &&& line[7] == 66u8
    &&& line[8] == 59u8
}

/// A tagged line whose identifier window is missing or not ASCII.
pub open spec fn is_malformed(line: Seq<u8>) -> bool {
    line.len() < ID_END || exists|k: int| ID_START <= k < ID_END && line[k] > ASCII_MAX
}

/// The identifier that a well-formed tagged line carries.
pub open spec fn identifier_in(line: Seq<u8>) -> Seq<char> {
    line.subrange(ID_START as int, ID_END as int).map_values(|b: u8| ascii_lower(b))
}

/// Adds what one line contributes in front of what the lines after it give:
/// `None` stands for a malformed payload.
pub open spec fn prepend_line(line: Seq<u8>, rest: Option<Seq<Seq<char>>>) -> Option<
    Seq<Seq<char>>,
> {
    if !has_tag(line) {
        rest
    } else if is_malformed(line) {
        None
    } else {
        match rest {
            Some(ids) => Some(seq![identifier_in(line)] + ids),
            None => None,
        }
    }
}

/// The identifiers of the lines of `p` from the line that starts at
/// `line_start`, where the bytes from `line_start` up to `i` hold no line feed.
pub open spec fn identifiers_from(p: Seq<u8>, line_start: int, i: int) -> Option<Seq<Seq<char>>>
    decreases p.len() - i,
{
    if i >= p.len() {
        prepend_line(p.subrange(line_start, p.len() as int), Some(seq![]))
    } else if p[i] == LINE_FEED {
        prepend_line(p.subrange(line_start, i), identifiers_from(p, i + 1, i + 1))
    } else {
        identifiers_from(p, line_start, i + 1)
    }
}

/// The identifiers of a whole payload, in the order of their lines, or `None`
/// when a tagged line is malformed.
pub open spec fn identifiers_of(p: Seq<u8>) -> Option<Seq<Seq<char>>> {
    identifiers_from(p, 0, 0)
}

/// `acc` followed by what `r` holds, if it holds anything.
pub open spec fn after(acc: Seq<Seq<char>>, r: Option<Seq<Seq<char>>>) -> Option<Seq<Seq<char>>> {
    match r {
        Some(ids) => Some(acc + ids),
        None => None,
    }
}

fn line_has_tag(p: &[u8], start: usize, end: usize) -> (r: bool)
    requires
        start <= end <= p@.len(),
    ensures
        r == has_tag(p@.subrange(start as int, end as int)),
{
    end - start >= TAG_LEN && p[start] == 68u8 && p[start + 1] == 82u8 && p[start + 2] == 32u8
        && p[start + 3] == 32u8 && p[start + 4] == 32u8 && p[start + 5] == 80u8 && p[start + 6]
        == 68u8 && p[start + 7] == 66u8 && p[start + 8] == 59u8
}

/// The identifier of a tagged line, or `None` when the line is malformed.
fn read_identifier(p: &[u8], start: usize, end: usize) -> (r: Option<String>)
    requires
        start <= end <= p@.len(),
    ensures
        r is None <==> is_malformed(p@.subrange(start as int, end as int)),
        r matches Some(s) ==> s@ == identifier_in(p@.subrange(start as int, end as int)),
{
    let ghost line = p@.subrange(start as int, end as int);
    if end - start < ID_END {
        return None;
    }
    let mut id = String::new();
    let mut k: usize = ID_START;
    while k < ID_END
        invariant
            ID_START <= k <= ID_END,
            start + ID_END <= end <= p@.len(),
            line == p@.subrange(start as int, end as int),
            forall|j: int| ID_START <= j < k ==> line[j] <= ASCII_MAX,
            id@ == line.subrange(ID_START as int, k as int).map_values(|b: u8| ascii_lower(b)),
        decreases ID_END - k,
    {
        let b = p[start + k];
        if b > ASCII_MAX {
            assert(line[k as int] > ASCII_MAX);
            return None;
        }
        push_char(&mut id, lower_byte(b));
        proof {
            assert(line.subrange(ID_START as int, k + 1).map_values(|b: u8| ascii_lower(b))
                =~= line.subrange(ID_START as int, k as int).map_values(|b: u8| ascii_lower(b)).push(
                ascii_lower(b),
            ));
        }
        k = k + 1;
    }
    Some(id)
}

/// Extracts the identifiers of the tagged lines of `payload`, in the order of
/// their lines, lower-cased. Repeated identifiers are kept. An empty result
/// means that the record names no artifact; a malformed tagged line is an
/// error.
pub fn parse_record(payload: &[u8]) -> (r: Result<Vec<String>, ParseError>)
    ensures
        r is Ok <==> identifiers_of(payload@) is Some,
        r matches Ok(ids) ==> identifiers_of(payload@) == Some(ids.deep_view()),
{
    let mut ids: Vec<String> = Vec::new();
    let mut line_start: usize = 0;
    let mut i: usize = 0;
    proof {
        assert(after(seq![], identifiers_from(payload@, 0, 0)) =~= identifiers_from(
            payload@,
            0,
            0,
        )) by {
            if let Some(x) = identifiers_from(payload@, 0, 0) {
                assert(seq![] + x =~= x);
            }
        }
    }
    while i < payload.len()
        invariant
            line_start <= i <= payload@.len(),
            identifiers_of(payload@) == after(ids.deep_view(), identifiers_from(payload@, line_start as int, i as int)),
        decreases payload@.len() - i,
    {
        if payload[i] == LINE_FEED {
            let ghost line = payload@.subrange(line_start as int, i as int);
            let ghost rest = identifiers_from(payload@, i + 1, i + 1);
            if line_has_tag(payload, line_start, i) {
                match read_identifier(payload, line_start, i) {
                    None => {
                        return Err(ParseError { line_start });
                    },
                    Some(id) => {
                        let ghost old_ids = ids.deep_view();
                        proof {
                            if let Some(x) = rest {
                                assert(old_ids + (seq![id@] + x) =~= old_ids.push(id@) + x);
                            }
                        }
                        ids.push(id);
                        proof {
                            assert(ids.deep_view() =~= old_ids.push(id@));
                        }
                    },
                }
            }
            line_start = i + 1;
        }
        i = i + 1;
    }
    if line_has_tag(payload, line_start, i) {
        match read_identifier(payload, line_start, i) {
            None => {
                return Err(ParseError { line_start });
            },
            Some(id) => {
                ids.push(id);
            },
        }
    }
    Ok(ids)
}

} // verus!
