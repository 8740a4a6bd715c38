//! HTTP range requests, as media players make them.

use crate::decimal::{
    decimal, is_digit, law_number_undoes_decimal, lemma_numeral, number_u64, read_u64,
};
use crate::split::{free_of, lemma_pieces_step, lemma_pieces_whole, pieces, split_at_either};
use crate::text::{same, views};
use itertools::Itertools;
use vstd::prelude::*;

verus! {

/// Why a `Range` header is refused.
#[derive(Debug, Clone, Copy, PartialEq, Eq, Structural)]
pub enum RangeError {
    /// It is not a range of bytes.
    InvalidHeader,
    /// Its ends are in the wrong order, or beyond the end of the file.
    InvalidBounds,
}

impl RangeError {
    /// The error in words.
    pub fn message(self) -> (r: &'static str)
        ensures
            r@ == match self {
                RangeError::InvalidHeader => "invalid Range header"@,
                RangeError::InvalidBounds => "invalid Range from/to"@,
            },
    {
        match self {
            RangeError::InvalidHeader => "invalid Range header",
            RangeError::InvalidBounds => "invalid Range from/to",
        }
    }
}

/// A `Range` header taken apart at every `=` and `-`.
pub open spec fn range_parts(header: Seq<char>) -> Seq<Seq<char>> {
    pieces(header, set!['=', '-'])
}

/// Whether a `Range` header asks for bytes: `bytes`, and two parts or more
/// after it.
pub open spec fn asks_for_bytes(header: Seq<char>) -> bool {
    range_parts(header).len() >= 3 && range_parts(header)[0] == "bytes"@
}

/// Where the range that a header asks for begins: at the start of the file,
/// where it does not say.
pub open spec fn range_from(header: Seq<char>) -> u64 {
    match number_u64(range_parts(header)[1]) {
        Some(n) => n,
        None => 0,
    }
}

/// The last byte of the range that a header asks for: the last of the file,
/// where it does not say. An empty file has none, and every range ends beyond
/// it.
pub open spec fn range_to(total_size: u64, header: Seq<char>) -> u64 {
    match number_u64(range_parts(header)[2]) {
        Some(n) => n,
        None => if total_size > 0 {
            (total_size - 1) as u64
        } else {
            0
        },
    }
}

/// The first byte, the last byte and the length of the range that a header
/// asks for.
pub open spec fn range_of(total_size: u64, header: Seq<char>) -> Result<
    (u64, u64, u64),
    RangeError,
> {
    if asks_for_bytes(header) {
        let from = range_from(header);
        let to = range_to(total_size, header);
        if from <= to < total_size {
            Ok((from, to, (to - from + 1) as u64))
        } else {
            Err(RangeError::InvalidBounds)
        }
    } else {
        Err(RangeError::InvalidHeader)
    }
}

/// The first three strings of a list (`next_tuple` of `itertools`, on the
/// iterator over the list): they come as a tuple, in order, exactly where there
/// are three or more.
#[verifier::external_body]
fn next_three(parts: Vec<String>) -> (r: Option<(String, String, String)>)
    ensures
        match r {
            Some(t) => parts@.len() >= 3 && t.0@ == parts@[0]@ && t.1@ == parts@[1]@ && t.2@
                == parts@[2]@,
            None => parts@.len() < 3,
        },
{
    parts.into_iter().next_tuple()
}

/// The two ends of a range of bytes, as they are written.
fn bytes_range(header: &str) -> (r: Option<(String, String)>)
    ensures
        match r {
            Some(ends) => asks_for_bytes(header@) && ends.0@ == range_parts(header@)[1] && ends.1@
                == range_parts(header@)[2],
            None => !asks_for_bytes(header@),
        },
{
    let parts = split_at_either(header, '=', '-');
    let ghost all = views(parts@);
    match next_three(parts) {
        Some((unit, from, to)) => {
            assert(unit@ == all[0] && from@ == all[1] && to@ == all[2]);
            if same(unit.as_str(), "bytes") {
                Some((from, to))
            } else {
                None
            }
        },
        None => None,
    }
}

/// Parses a `Range` header: the first byte, the last byte and the length of
/// what it asks for in a file of `total_size` bytes.
pub fn parse_range(total_size: u64, header: &str) -> (r: Result<(u64, u64, u64), RangeError>)
    ensures
        r == range_of(total_size, header@),
{
    match bytes_range(header) {
        Some((from, to)) => {
            let from: u64 = match read_u64(from.as_str()) {
                Some(n) => n,
                None => 0,
            };
            let to: u64 = match read_u64(to.as_str()) {
                Some(n) => n,
                None => if total_size > 0 {
                    total_size - 1
                } else {
                    0
                },
            };
            if from <= to && to < total_size {
                Ok((from, to, to - from + 1))
            } else {
                Err(RangeError::InvalidBounds)
            }
        },
        None => Err(RangeError::InvalidHeader),
    }
}

/// A range that is served lies within the file.
pub proof fn law_range_lies_within_the_file(total_size: u64, header: Seq<char>)
    ensures
        range_of(total_size, header) matches Ok((from, to, size)) ==> {
            &&& from <= to < total_size
            &&& size == to - from + 1
            &&& from + size <= total_size
        },
{
}

proof fn lemma_numeral_is_one_part(n: nat)
    ensures
        free_of(decimal(n as int), set!['=', '-']),
{
    lemma_numeral(n);
    let s = decimal(n as int);
    assert forall|i: int| 0 <= i < s.len() implies !set!['=', '-'].contains(#[trigger] s[i]) by {
        assert(is_digit(s[i]));
    }
}

proof fn lemma_range_parts(from: Seq<char>, to: Seq<char>)
    requires
        free_of(from, set!['=', '-']),
        free_of(to, set!['=', '-']),
    ensures
        range_parts("bytes="@ + from + seq!['-'] + to) == seq!["bytes"@, from, to],
{
    reveal_strlit("bytes=");
    reveal_strlit("bytes");
    let seps = set!['=', '-'];
    let tail = from + seq!['-'] + to;
    assert("bytes="@ =~= "bytes"@ + seq!['=']);
    assert("bytes="@ + from + seq!['-'] + to =~= "bytes"@ + seq!['='] + tail);
    lemma_pieces_step("bytes"@, '=', tail, seps);
    lemma_pieces_step(from, '-', to, seps);
    lemma_pieces_whole(to, seps);
    assert(seq!["bytes"@] + (seq![from] + seq![to]) =~= seq!["bytes"@, from, to]);
}

/// No range of an empty file is served: whatever bytes are asked for, they lie
/// beyond its end.
pub proof fn law_no_range_of_an_empty_file(header: Seq<char>)
    requires
        asks_for_bytes(header),
    ensures
        range_of(0, header) == Err::<(u64, u64, u64), RangeError>(RangeError::InvalidBounds),
{
}

/// Every range of bytes that lies within a file is served as asked for.
pub proof fn law_range_is_served_as_asked(total_size: u64, from: u64, to: u64)
    requires
        from <= to < total_size,
    ensures
        range_of(
            total_size,
            "bytes="@ + decimal(from as int) + seq!['-'] + decimal(to as int),
        ) == Ok::<(u64, u64, u64), RangeError>((from, to, (to - from + 1) as u64)),
{
    lemma_numeral_is_one_part(from as nat);
    lemma_numeral_is_one_part(to as nat);
    lemma_range_parts(decimal(from as int), decimal(to as int));
    law_number_undoes_decimal(from as int);
    law_number_undoes_decimal(to as int);
}

/// A range without an end is served up to the end of the file.
pub proof fn law_open_range_is_served_to_the_end(total_size: u64, from: u64)
    requires
        from < total_size,
    ensures
        range_of(total_size, "bytes="@ + decimal(from as int) + seq!['-']) == Ok::<
            (u64, u64, u64),
            RangeError,
        >((from, (total_size - 1) as u64, (total_size - from) as u64)),
{
    lemma_numeral_is_one_part(from as nat);
    let none: Seq<char> = seq![];
    lemma_range_parts(decimal(from as int), none);
    law_number_undoes_decimal(from as int);
    assert("bytes="@ + decimal(from as int) + seq!['-'] + none =~= "bytes="@ + decimal(
        from as int,
    ) + seq!['-']);
    assert(number_u64(none) is None);
}

} // verus!
