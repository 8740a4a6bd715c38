//! What reading a request gives: its URL, its query and its ranges.

use crate::decimal::{decimal, number_u64};
use crate::encoding::utf8_lossy;
use crate::query::{
    hex_digit, parameters, path_of, percent_decoded, query_of, raw_parameter,
    raw_parameters, unescaped,
};
use crate::range::{range_of, RangeError};
use crate::server::{content_range, has_path, header_value, lower, same_but_case};
use crate::split::{free_of, head_len, lemma_head_len, lemma_pieces_step, lemma_pieces_whole, pieces};
use vstd::prelude::*;
use vstd::utf8::encode_utf8;

verus! {

/// A hexadecimal digit for a number below sixteen, in capitals or not.
pub open spec fn hex_char(d: int, capital: bool) -> u8 {
    if d < 10 {
        (0x30 + d) as u8
    } else if capital {
        (0x41 + d - 10) as u8
    } else {
        (0x61 + d - 10) as u8
    }
}

/// An escape stands for the byte with these two hexadecimal digits, whatever
/// their case, and what follows it is read in the same way.
pub proof fn law_escapes_stand_for_their_byte(
    v: u8,
    capital_hi: bool,
    capital_lo: bool,
    rest: Seq<u8>,
)
    ensures
        unescaped(
            seq![
                0x25u8,
                hex_char(v as int / 16, capital_hi),
                hex_char(v as int % 16, capital_lo),
            ] + rest,
        ) == seq![v] + unescaped(rest),
{
    let hi = v as int / 16;
    let lo = v as int % 16;
    let s = seq![0x25u8, hex_char(hi, capital_hi), hex_char(lo, capital_lo)] + rest;
    assert(s.skip(3) =~= rest);
    assert(hex_digit(s[1]) == Some(hi as u8));
    assert(hex_digit(s[2]) == Some(lo as u8));
    assert(hi * 16 + lo == v);
}

/// Whether a byte is the character of a hexadecimal digit.
pub open spec fn is_hex_char(b: u8) -> bool {
    exists|d: int, capital: bool| 0 <= d < 16 && b == #[trigger] hex_char(d, capital)
}

proof fn lemma_hex_digit(b: u8)
    ensures
        hex_digit(b) is Some <==> is_hex_char(b),
{
    if 0x30 <= b <= 0x39 {
        assert(b == hex_char(b - 0x30, true));
    }
    if 0x41 <= b <= 0x46 {
        assert(b == hex_char(b - 0x41 + 10, true));
    }
    if 0x61 <= b <= 0x66 {
        assert(b == hex_char(b - 0x61 + 10, false));
    }
}

/// A byte that begins no escape stands for itself: it is no `%`, or two
/// hexadecimal digits do not follow.
pub proof fn law_other_bytes_stand_for_themselves(b: u8, rest: Seq<u8>)
    requires
        b != 0x25 || rest.len() < 2 || !is_hex_char(rest[0]) || !is_hex_char(rest[1]),
    ensures
        unescaped(seq![b] + rest) == seq![b] + unescaped(rest),
        unescaped(Seq::<u8>::empty()) == Seq::<u8>::empty(),
{
    let s = seq![b] + rest;
    assert(s.skip(1) =~= rest);
    if rest.len() >= 2 {
        assert(s[1] == rest[0] && s[2] == rest[1]);
        lemma_hex_digit(rest[0]);
        lemma_hex_digit(rest[1]);
    }
}

/// The path of a URL is what stands before its first `?`, and the query what
/// stands between that and the next. Without a `?` there is no query.
pub proof fn law_paths_and_queries(path: Seq<char>, query: Seq<char>, more: Seq<char>)
    requires
        free_of(path, set!['?']),
        free_of(query, set!['?']),
    ensures
        path_of(path) == path,
        query_of(path) is None,
        path_of(path + seq!['?'] + query) == path,
        query_of(path + seq!['?'] + query) == Some(query),
        path_of(path + seq!['?'] + query + seq!['?'] + more) == path,
        query_of(path + seq!['?'] + query + seq!['?'] + more) == Some(query),
{
    let seps = set!['?'];
    lemma_pieces_whole(path, seps);
    lemma_pieces_whole(query, seps);
    lemma_pieces_step(path, '?', query, seps);
    let tail = query + seq!['?'] + more;
    assert(path + seq!['?'] + query + seq!['?'] + more =~= path + seq!['?'] + tail);
    lemma_pieces_step(path, '?', tail, seps);
    lemma_pieces_step(query, '?', more, seps);
}

/// A URL has a path exactly where it begins with an ASCII character that is no
/// `?`.
pub proof fn law_urls_with_a_path(url: Seq<char>)
    ensures
        has_path(url) <==> url.len() > 0 && url[0] != '?' && url[0] as u32 <= 0x7f,
{
    let seps = set!['?'];
    lemma_head_len(url, seps);
    if url.len() > 0 {
        if url[0] != '?' {
            assert(head_len(url, seps) >= 1);
        }
    } else {
        assert(pieces(url, seps)[0] == url);
    }
}

/// A parameter is a key alone, or a key and a value with `=` between them;
/// what stands behind a further `=` counts for nothing.
pub proof fn law_parameters_are_keys_and_values(key: Seq<char>, val: Seq<char>, more: Seq<char>)
    requires
        free_of(key, set!['=']),
        free_of(val, set!['=']),
    ensures
        raw_parameter(key) == (key, Seq::<char>::empty()),
        raw_parameter(key + seq!['='] + val) == (key, val),
        raw_parameter(key + seq!['='] + val + seq!['='] + more) == (key, val),
{
    let seps = set!['='];
    lemma_pieces_whole(key, seps);
    lemma_pieces_whole(val, seps);
    lemma_pieces_step(key, '=', val, seps);
    let tail = val + seq!['='] + more;
    assert(key + seq!['='] + val + seq!['='] + more =~= key + seq!['='] + tail);
    lemma_pieces_step(key, '=', tail, seps);
    lemma_pieces_step(val, '=', more, seps);
}

/// The parameters of a URL are those between the `&` of its query, in their
/// order: one alone, or the first and then those of the rest. A URL without a
/// query has none.
pub proof fn law_parameters_stand_between_ampersands(
    path: Seq<char>,
    first: Seq<char>,
    rest: Seq<char>,
)
    requires
        free_of(path, set!['?']),
        free_of(first, set!['?']) && free_of(first, set!['&']),
        free_of(rest, set!['?']),
    ensures
        raw_parameters(path).len() == 0,
        raw_parameters(path + seq!['?'] + first) == seq![raw_parameter(first)],
        raw_parameters(path + seq!['?'] + (first + seq!['&'] + rest)) == seq![raw_parameter(first)]
            + raw_parameters(path + seq!['?'] + rest),
{
    let amp = set!['&'];
    let none: Seq<char> = seq![];
    law_paths_and_queries(path, first, none);
    law_paths_and_queries(path, rest, none);
    crate::split::lemma_free_of_both(first, '&', rest, set!['?']);
    law_paths_and_queries(path, first + seq!['&'] + rest, none);
    lemma_pieces_whole(first, amp);
    lemma_pieces_step(first, '&', rest, amp);
    assert(raw_parameters(path + seq!['?'] + first) =~= seq![raw_parameter(first)]);
    assert(raw_parameters(path + seq!['?'] + (first + seq!['&'] + rest)) =~= seq![
        raw_parameter(first),
    ] + raw_parameters(path + seq!['?'] + rest));
}

/// What stands behind a second `?` is no part of the query and gives no
/// parameters.
pub proof fn law_parameters_end_at_the_next_mark(path: Seq<char>, query: Seq<char>, more: Seq<char>)
    requires
        free_of(path, set!['?']),
        free_of(query, set!['?']),
    ensures
        raw_parameters(path + seq!['?'] + query + seq!['?'] + more) == raw_parameters(
            path + seq!['?'] + query,
        ),
{
    law_paths_and_queries(path, query, more);
}

/// Keys and values are decoded one by one, each parameter in its place.
pub proof fn law_parameters_are_decoded(url: Seq<char>, i: int, s: Seq<char>)
    ensures
        parameters(url).len() == raw_parameters(url).len(),
        0 <= i < raw_parameters(url).len() ==> parameters(url)[i] == (
            percent_decoded(raw_parameters(url)[i].0),
            percent_decoded(raw_parameters(url)[i].1),
        ),
        percent_decoded(s) == utf8_lossy(unescaped(encode_utf8(s))),
{
}

/// Two characters are the same but for case where they are the same or are a
/// small letter and its capital; texts are where they are so character by
/// character.
pub proof fn law_case_is_that_of_letters(a: Seq<char>, b: Seq<char>)
    ensures
        same_but_case(a, b) <==> a.len() == b.len() && forall|i: int|
            0 <= i < a.len() ==> (#[trigger] a[i] == b[i] || ('A' <= a[i] <= 'Z' && b[i] as int
                == a[i] as int + 32) || ('A' <= b[i] <= 'Z' && a[i] as int == b[i] as int + 32)),
{
    if a.len() == b.len() {
        assert forall|i: int| 0 <= i < a.len() implies (lower(#[trigger] a[i]) == lower(b[i])
            <==> (a[i] == b[i] || ('A' <= a[i] <= 'Z' && b[i] as int == a[i] as int + 32) || ('A'
            <= b[i] <= 'Z' && a[i] as int == b[i] as int + 32))) by {
            lemma_lower(a[i], b[i]);
        }
    }
}

proof fn lemma_lower(a: char, b: char)
    ensures
        lower(a) == lower(b) <==> (a == b || ('A' <= a <= 'Z' && b as int == a as int + 32) || ('A'
            <= b <= 'Z' && a as int == b as int + 32)),
{
    assert('A' <= a <= 'Z' ==> lower(a) as int == a as int + 32);
    assert('A' <= b <= 'Z' ==> lower(b) as int == b as int + 32);
}

/// The header field that counts is the first of its name, whatever the case,
/// wherever in the list it stands: where none before it has the name, its
/// value is the one found.
pub proof fn law_first_header_of_a_name_counts(
    headers: Seq<(Seq<char>, Seq<char>)>,
    name: Seq<char>,
    i: int,
)
    requires
        0 <= i < headers.len(),
        same_but_case(headers[i].0, name),
        forall|j: int| 0 <= j < i ==> !same_but_case((#[trigger] headers[j]).0, name),
    ensures
        header_value(headers, name) == Some(headers[i].1),
    decreases i,
{
    if i > 0 {
        assert(!same_but_case(headers[0].0, name));
        let rest = headers.skip(1);
        assert forall|j: int| 0 <= j < i - 1 implies !same_but_case(
            (#[trigger] rest[j]).0,
            name,
        ) by {
            assert(rest[j] == headers[j + 1]);
        }
        assert(rest[i - 1] == headers[i]);
        law_first_header_of_a_name_counts(rest, name, i - 1);
    }
}

/// No header field is found exactly where none in the whole list has the name.
pub proof fn law_no_header_only_where_none_has_the_name(
    headers: Seq<(Seq<char>, Seq<char>)>,
    name: Seq<char>,
)
    ensures
        header_value(headers, name) is None <==> !exists|i: int|
            0 <= i < headers.len() && same_but_case((#[trigger] headers[i]).0, name),
    decreases headers.len(),
{
    if headers.len() > 0 && !same_but_case(headers[0].0, name) {
        let rest = headers.skip(1);
        law_no_header_only_where_none_has_the_name(rest, name);
        if exists|i: int| 0 <= i < rest.len() && same_but_case((#[trigger] rest[i]).0, name) {
            let i = choose|i: int|
                0 <= i < rest.len() && same_but_case((#[trigger] rest[i]).0, name);
            assert(rest[i] == headers[i + 1]);
        }
        if exists|i: int| 0 <= i < headers.len() && same_but_case((#[trigger] headers[i]).0, name) {
            let i = choose|i: int|
                0 <= i < headers.len() && same_but_case((#[trigger] headers[i]).0, name);
            assert(rest[i - 1] == headers[i]);
        }
    }
}

/// A range goes from the number in its second part, or the start of the file,
/// to the number in its third part, or the end of the file, its parts being
/// cut at every `=` and `-` and the first of them `bytes`. It is refused where
/// its ends are out of order or beyond the file, and any other header is none.
pub proof fn law_ranges_go_from_one_end_to_the_other(
    total_size: u64,
    header: Seq<char>,
    from: u64,
    to: u64,
)
    ensures
        ({
            let parts = pieces(header, set!['=', '-']);
            let bytes = parts.len() >= 3 && parts[0] == "bytes"@;
            let from_is = number_u64(parts[1]) == Some(from) || (number_u64(parts[1]) is None
                && from == 0);
            let to_is = number_u64(parts[2]) == Some(to) || (number_u64(parts[2]) is None && to + 1
                == total_size);
            &&& bytes && from_is && to_is && from <= to && to < total_size ==> range_of(
                total_size,
                header,
            ) == Ok::<(u64, u64, u64), RangeError>((from, to, (to - from + 1) as u64))
            &&& bytes && from_is && to_is && !(from <= to && to < total_size) ==> range_of(
                total_size,
                header,
            ) == Err::<(u64, u64, u64), RangeError>(RangeError::InvalidBounds)
            &&& bytes && total_size == 0 ==> range_of(total_size, header) == Err::<
                (u64, u64, u64),
                RangeError,
            >(RangeError::InvalidBounds)
            &&& !bytes ==> range_of(total_size, header) == Err::<(u64, u64, u64), RangeError>(
                RangeError::InvalidHeader,
            )
        }),
{
}

/// The range that an answer names is the one that is sent, of the file's size.
pub proof fn law_content_range_names_the_part(from: u64, to: u64, total_size: u64)
    ensures
        content_range(from, to, total_size) == "bytes "@ + decimal(from as int) + seq!['-']
            + decimal(to as int) + seq!['/'] + decimal(total_size as int),
{
    reveal_strlit("-");
    reveal_strlit("/");
    assert("-"@ =~= seq!['-']);
    assert("/"@ =~= seq!['/']);
}

} // verus!
