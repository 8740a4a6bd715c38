//! The path and the query of a request URL.

use crate::encoding::{from_utf8_lossy, lemma_no_ascii_byte, utf8_lossy};
use crate::split::{
    free_of, lemma_free_of_both, lemma_pieces_hold_no_more, lemma_pieces_step, lemma_pieces_whole,
    pieces, split_at,
};
use crate::text::{same, views};
use vstd::prelude::*;
use vstd::utf8::{decode_utf8, encode_utf8, valid_utf8};

verus! {

/// The value of a hexadecimal digit.
pub open spec fn hex_digit(b: u8) -> Option<u8> {
    if 0x30 <= b <= 0x39 {
        Some((b - 0x30) as u8)
    } else if 0x41 <= b <= 0x46 {
        Some((b - 0x41 + 10) as u8)
    } else if 0x61 <= b <= 0x66 {
        Some((b - 0x61 + 10) as u8)
    } else {
        None
    }
}

/// The byte that an escape, `%` and two hexadecimal digits, at the start of a
/// sequence stands for.
pub open spec fn escape(s: Seq<u8>) -> Option<u8> {
    if s.len() >= 3 && s[0] == 0x25 {
        match (hex_digit(s[1]), hex_digit(s[2])) {
            (Some(hi), Some(lo)) => Some((hi * 16 + lo) as u8),
            _ => None,
        }
    } else {
        None
    }
}

/// Bytes with every escape replaced by the byte it stands for.
pub open spec fn unescaped(s: Seq<u8>) -> Seq<u8>
    decreases s.len(),
{
    if s.len() == 0 {
        seq![]
    } else {
        match escape(s) {
            Some(b) => seq![b] + unescaped(s.skip(3)),
            None => seq![s[0]] + unescaped(s.skip(1)),
        }
    }
}

/// A text with its percent escapes decoded.
pub open spec fn percent_decoded(s: Seq<char>) -> Seq<char> {
    utf8_lossy(unescaped(encode_utf8(s)))
}

fn hex(b: u8) -> (r: Option<u8>)
    ensures
        r == hex_digit(b),
        r matches Some(v) ==> v < 16,
{
    if 0x30 <= b && b <= 0x39 {
        Some(b - 0x30)
    } else if 0x41 <= b && b <= 0x46 {
        Some(b - 0x41 + 10)
    } else if 0x61 <= b && b <= 0x66 {
        Some(b - 0x61 + 10)
    } else {
        None
    }
}

/// The bytes that a text with percent escapes stands for.
pub fn unescape(s: &str) -> (r: Vec<u8>)
    ensures
        r@ == unescaped(encode_utf8(s@)),
{
    let v = s.as_bytes();
    let n: usize = v.len();
    let mut r: Vec<u8> = Vec::new();
    let mut i: usize = 0;
    assert(v@.skip(0) =~= v@);
    assert(r@ + unescaped(v@) =~= unescaped(v@));
    while i < n
        invariant
            i <= n == v@.len(),
            r@ + unescaped(v@.skip(i as int)) == unescaped(v@),
        decreases n - i,
    {
        let ghost rest = v@.skip(i as int);
        let ghost before = r@;
        let mut b: u8 = v[i];
        let mut step: usize = 1;
        if n - i >= 3 && b == 0x25 {
            assert(rest[1] == v@[i + 1] && rest[2] == v@[i + 2]);
            if let (Some(hi), Some(lo)) = (hex(v[i + 1]), hex(v[i + 2])) {
                b = hi * 16 + lo;
                step = 3;
            }
        }
        r.push(b);
        proof {
            assert(rest.skip(step as int) =~= v@.skip(i + step));
            assert(before + (seq![b] + unescaped(v@.skip(i + step))) =~= r@ + unescaped(
                v@.skip(i + step),
            ));
        }
        i = i + step;
    }
    assert(v@.skip(n as int) =~= seq![]);
    r
}

/// Decodes the percent escapes in a text.
pub fn percent_decode(s: &str) -> (r: String)
    ensures
        r@ == percent_decoded(s@),
        valid_utf8(unescaped(encode_utf8(s@))) ==> r@ == decode_utf8(unescaped(encode_utf8(s@))),
        !s@.contains('%') ==> r@ == s@,
{
    let bytes = unescape(s);
    proof {
        if !s@.contains('%') {
            lemma_no_ascii_byte(s@, '%');
            lemma_unescaped_fixed(encode_utf8(s@));
            vstd::utf8::encode_utf8_valid_utf8(s@);
            vstd::utf8::encode_utf8_decode_utf8(s@);
        }
    }
    from_utf8_lossy(&bytes)
}

proof fn lemma_unescaped_fixed(s: Seq<u8>)
    requires
        forall|i: int| 0 <= i < s.len() ==> #[trigger] s[i] != 0x25,
    ensures
        unescaped(s) == s,
    decreases s.len(),
{
    if s.len() > 0 {
        let t = s.skip(1);
        assert forall|i: int| 0 <= i < t.len() implies #[trigger] t[i] != 0x25 by {
            assert(t[i] == s[i + 1]);
        }
        lemma_unescaped_fixed(t);
        assert(s =~= seq![s[0]] + t);
    }
}

/// The path of a URL: what stands before its first `?`.
pub open spec fn path_of(url: Seq<char>) -> Seq<char> {
    pieces(url, set!['?'])[0]
}

/// The query of a URL: what stands between its first `?` and the next.
pub open spec fn query_of(url: Seq<char>) -> Option<Seq<char>> {
    let parts = pieces(url, set!['?']);
    if parts.len() > 1 {
        Some(parts[1])
    } else {
        None
    }
}

/// A parameter of a query as it is written: what stands before its first `=`,
/// and what stands between that and the next.
pub open spec fn raw_parameter(s: Seq<char>) -> (Seq<char>, Seq<char>) {
    let parts = pieces(s, set!['=']);
    (
        parts[0],
        if parts.len() > 1 {
            parts[1]
        } else {
            seq![]
        },
    )
}

/// The parameters of a URL as they are written, in order.
pub open spec fn raw_parameters(url: Seq<char>) -> Seq<(Seq<char>, Seq<char>)> {
    match query_of(url) {
        Some(q) => pieces(q, set!['&']).map_values(|p: Seq<char>| raw_parameter(p)),
        None => seq![],
    }
}

/// The parameters of a URL, keys and values decoded, in order.
pub open spec fn parameters(url: Seq<char>) -> Seq<(Seq<char>, Seq<char>)> {
    raw_parameters(url).map_values(
        |p: (Seq<char>, Seq<char>)| (percent_decoded(p.0), percent_decoded(p.1)),
    )
}

/// The value of a key: the last one given.
pub open spec fn lookup(params: Seq<(Seq<char>, Seq<char>)>, key: Seq<char>) -> Option<Seq<char>>
    decreases params.len(),
{
    if params.len() == 0 {
        None
    } else if params.last().0 == key {
        Some(params.last().1)
    } else {
        lookup(params.drop_last(), key)
    }
}

/// Whether a key is given among parameters.
pub open spec fn has_key(params: Seq<(Seq<char>, Seq<char>)>, key: Seq<char>) -> bool {
    exists|i: int| 0 <= i < params.len() && (#[trigger] params[i]).0 == key
}

/// The texts of a list of pairs of strings.
pub open spec fn pair_views(list: Seq<(String, String)>) -> Seq<(Seq<char>, Seq<char>)> {
    Seq::new(list.len(), |i: int| (list[i].0@, list[i].1@))
}

/// The characters of an optional string.
pub open spec fn text_of(s: Option<String>) -> Option<Seq<char>> {
    match s {
        Some(t) => Some(t@),
        None => None,
    }
}

/// The path of a URL.
pub fn url_path(url: &str) -> (r: String)
    ensures
        r@ == path_of(url@),
{
    let mut parts = split_at(url, '?');
    let ghost all = views(parts@);
    let path = parts.swap_remove(0);
    assert(path@ == all[0]);
    path
}

/// The parameters of a URL. Where nothing in it is escaped they are as they
/// are written.
pub fn url_parameters(url: &str) -> (r: Vec<(String, String)>)
    ensures
        pair_views(r@) == parameters(url@),
        !url@.contains('%') ==> pair_views(r@) == raw_parameters(url@),
{
    let parts = split_at(url, '?');
    let mut r: Vec<(String, String)> = Vec::new();
    if parts.len() < 2 {
        assert(pair_views(r@) =~= parameters(url@));
        assert(pair_views(r@) =~= raw_parameters(url@));
        return r;
    }
    let list = split_at(parts[1].as_str(), '&');
    let ghost words = views(list@);
    let ghost raw = raw_parameters(url@);
    assert(words == pieces(query_of(url@)->0, set!['&']));
    proof {
        if !url@.contains('%') {
            lemma_pieces_hold_no_more(url@, set!['?'], '%');
            lemma_pieces_hold_no_more(query_of(url@)->0, set!['&'], '%');
        }
    }
    let mut i: usize = 0;
    while i < list.len()
        invariant
            i <= list@.len(),
            words == views(list@),
            raw == words.map_values(|p: Seq<char>| raw_parameter(p)),
            r@.len() == i,
            forall|k: int|
                !url@.contains('%') && 0 <= k < words.len() ==> !(#[trigger] words[k]).contains('%'),
            forall|j: int|
                #![trigger r@[j]]
                0 <= j < i ==> r@[j].0@ == percent_decoded(raw[j].0) && r@[j].1@ == percent_decoded(
                    raw[j].1,
                ),
            forall|j: int|
                #![trigger r@[j]]
                !url@.contains('%') && 0 <= j < i ==> r@[j].0@ == raw[j].0 && r@[j].1@ == raw[j].1,
        decreases list@.len() - i,
    {
        let parts = split_at(list[i].as_str(), '=');
        let ghost fields = views(parts@);
        assert(fields == pieces(words[i as int], set!['=']));
        proof {
            if !url@.contains('%') {
                lemma_pieces_hold_no_more(words[i as int], set!['='], '%');
                assert(!fields[0].contains('%'));
                if fields.len() > 1 {
                    assert(!fields[1].contains('%'));
                }
            }
            reveal_strlit("");
            assert(""@ =~= seq![]);
        }
        let key = percent_decode(parts[0].as_str());
        let val = if parts.len() > 1 {
            percent_decode(parts[1].as_str())
        } else {
            percent_decode("")
        };
        assert(raw[i as int] == raw_parameter(words[i as int]));
        r.push((key, val));
        i = i + 1;
    }
    assert(pair_views(r@) =~= parameters(url@));
    assert(!url@.contains('%') ==> pair_views(r@) =~= raw);
    r
}

/// The value of a key among parameters: the last one given.
pub fn find_parameter(params: &Vec<(String, String)>, key: &str) -> (r: Option<String>)
    ensures
        text_of(r) == lookup(pair_views(params@), key@),
{
    let ghost all = pair_views(params@);
    let mut i: usize = params.len();
    assert(all.take(i as int) =~= all);
    while i > 0
        invariant
            i <= params@.len(),
            all == pair_views(params@),
            lookup(all.take(i as int), key@) == lookup(all, key@),
        decreases i,
    {
        assert(all.take(i as int).drop_last() =~= all.take(i - 1));
        assert(all.take(i as int).last() == all[i - 1]);
        i = i - 1;
        if same(params[i].0.as_str(), key) {
            return Some(params[i].1.clone());
        }
    }
    None
}

/// The last value given for a key is the one that counts, and values given for
/// other keys make no difference to it.
pub proof fn law_last_value_counts(
    params: Seq<(Seq<char>, Seq<char>)>,
    key: Seq<char>,
    other: Seq<char>,
    val: Seq<char>,
)
    ensures
        lookup(params.push((key, val)), key) == Some(val),
        other != key ==> lookup(params.push((other, val)), key) == lookup(params, key),
{
    assert(params.push((key, val)).drop_last() =~= params);
    assert(params.push((other, val)).drop_last() =~= params);
}

/// A value is found exactly for the keys that are given.
pub proof fn law_given_keys_are_found(params: Seq<(Seq<char>, Seq<char>)>, key: Seq<char>)
    ensures
        lookup(params, key) is Some <==> has_key(params, key),
    decreases params.len(),
{
    if params.len() > 0 {
        let rest = params.drop_last();
        law_given_keys_are_found(rest, key);
        assert(params[params.len() - 1] == params.last());
        if has_key(rest, key) {
            let i = choose|i: int| 0 <= i < rest.len() && (#[trigger] rest[i]).0 == key;
            assert(params[i].0 == key);
        }
        if has_key(params, key) && params.last().0 != key {
            let i = choose|i: int| 0 <= i < params.len() && (#[trigger] params[i]).0 == key;
            assert(rest[i].0 == key);
        }
    }
}

/// A parameter that stands alone in a query is found under its key.
pub proof fn law_only_parameter_is_found(path: Seq<char>, key: Seq<char>, val: Seq<char>)
    requires
        free_of(path, set!['?']),
        free_of(key, set!['?']) && free_of(key, set!['&']) && free_of(key, set!['=']),
        free_of(val, set!['?']) && free_of(val, set!['&']) && free_of(val, set!['=']),
    ensures
        path_of(path + seq!['?'] + key + seq!['='] + val) == path,
        lookup(raw_parameters(path + seq!['?'] + key + seq!['='] + val), key) == Some(val),
{
    let query = key + seq!['='] + val;
    let url = path + seq!['?'] + query;
    assert(path + seq!['?'] + key + seq!['='] + val =~= url);
    lemma_free_of_both(key, '=', val, set!['?']);
    lemma_free_of_both(key, '=', val, set!['&']);
    lemma_pieces_step(path, '?', query, set!['?']);
    lemma_pieces_whole(query, set!['?']);
    lemma_pieces_whole(query, set!['&']);
    lemma_pieces_step(key, '=', val, set!['=']);
    lemma_pieces_whole(val, set!['=']);
    let raw = raw_parameters(url);
    assert(pieces(url, set!['?']) =~= seq![path, query]);
    assert(pieces(query, set!['=']) =~= seq![key, val]);
    assert(raw.len() == 1 && raw.last() == (key, val));
}

} // verus!
