//! What the text operations are for, said without their definitions.

use crate::decimal::{decimal, number, number_i64, number_u64, wrapped_i32};
use crate::encoding::utf8_text;
use crate::query::{pair_views, text_of};
use crate::search::{
    find, lemma_find_is, lemma_replace_all_step, occurs, occurs_at, replace_all,
    replace_first,
};
use crate::split::{free_of, join, lemma_pieces_step, lemma_pieces_whole, pieces};
use crate::text::{is_space, trimmed, trimmed_end, trimmed_start, views};
use vstd::prelude::*;
use vstd::utf8::{encode_utf8, valid_utf8};

verus! {

/// Whether a text is white space only.
pub open spec fn is_blank(s: Seq<char>) -> bool {
    forall|i: int| 0 <= i < s.len() ==> is_space(#[trigger] s[i])
}

/// Whether a text is one digit or more.
pub open spec fn is_all_digits(s: Seq<char>) -> bool {
    s.len() > 0 && forall|i: int| 0 <= i < s.len() ==> '0' <= #[trigger] s[i] <= '9'
}

proof fn lemma_trimmed_end(m: Seq<char>, b: Seq<char>)
    requires
        m.len() > 0 ==> !is_space(m.last()),
        is_blank(b),
    ensures
        trimmed_end(m + b) == m,
    decreases b.len(),
{
    let s = m + b;
    if b.len() > 0 {
        let shorter = b.drop_last();
        assert forall|i: int| 0 <= i < shorter.len() implies is_space(#[trigger] shorter[i]) by {
            assert(shorter[i] == b[i]);
        }
        lemma_trimmed_end(m, shorter);
        assert(s.last() == b[b.len() - 1]);
        assert(s.drop_last() =~= m + shorter);
    } else {
        assert(s =~= m);
    }
}

proof fn lemma_trimmed_start(a: Seq<char>, s: Seq<char>)
    requires
        is_blank(a),
    ensures
        trimmed_start(a + s) == trimmed_start(s),
    decreases a.len(),
{
    if a.len() > 0 {
        let shorter = a.skip(1);
        assert forall|i: int| 0 <= i < shorter.len() implies is_space(#[trigger] shorter[i]) by {
            assert(shorter[i] == a[i + 1]);
        }
        lemma_trimmed_start(shorter, s);
        assert((a + s)[0] == a[0]);
        assert((a + s).skip(1) =~= shorter + s);
    } else {
        assert(a + s =~= s);
    }
}

/// The characters that are white space.
pub open spec fn blanks() -> Seq<char> {
    seq![
        '\t', '\n', '\u{b}', '\u{c}', '\r', ' ', '\u{85}', '\u{a0}', '\u{1680}', '\u{2000}',
        '\u{2001}', '\u{2002}', '\u{2003}', '\u{2004}', '\u{2005}', '\u{2006}', '\u{2007}',
        '\u{2008}', '\u{2009}', '\u{200a}', '\u{2028}', '\u{2029}', '\u{202f}', '\u{205f}',
        '\u{3000}',
    ]
}

/// These characters are white space, and no others are.
pub proof fn law_white_space(c: char)
    ensures
        is_space(c) <==> exists|i: int| 0 <= i < blanks().len() && c == #[trigger] blanks()[i],
{
    let b = blanks();
    if is_space(c) {
        assert(c == b[0] || c == b[1] || c == b[2] || c == b[3] || c == b[4] || c == b[5] || c
            == b[6] || c == b[7] || c == b[8] || c == b[9] || c == b[10] || c == b[11] || c == b[12]
            || c == b[13] || c == b[14] || c == b[15] || c == b[16] || c == b[17] || c == b[18] || c
            == b[19] || c == b[20] || c == b[21] || c == b[22] || c == b[23] || c == b[24]);
    }
}

/// Trimming takes the white space around a text and nothing of the text: what
/// begins and ends with something else stays whole, and white space alone
/// leaves nothing.
pub proof fn law_trimming_leaves_the_text(a: Seq<char>, m: Seq<char>, b: Seq<char>)
    requires
        is_blank(a),
        is_blank(b),
        m.len() > 0 ==> !is_space(m[0]) && !is_space(m.last()),
    ensures
        trimmed(a + m + b) == m,
{
    assert(a + m + b =~= a + (m + b));
    lemma_trimmed_start(a, m + b);
    if m.len() > 0 {
        assert((m + b)[0] == m[0]);
        lemma_trimmed_end(m, b);
    } else {
        assert(m + b =~= b);
        let none: Seq<char> = seq![];
        assert(b + none =~= b);
        lemma_trimmed_start(b, none);
        assert(m =~= none);
        assert(trimmed_start(none) == none);
        assert(trimmed_end(none) == none);
    }
}

/// Trimming the end takes the white space there and nothing else.
pub proof fn law_trimming_the_end_leaves_the_rest(m: Seq<char>, b: Seq<char>)
    requires
        is_blank(b),
        m.len() > 0 ==> !is_space(m.last()),
    ensures
        trimmed_end(m + b) == m,
{
    lemma_trimmed_end(m, b);
}

/// Splitting cuts at the first separator, and goes on behind it; a text
/// without separators is left in one piece.
pub proof fn law_splitting_cuts_at_separators(
    x: Seq<char>,
    c: char,
    y: Seq<char>,
    seps: Set<char>,
)
    requires
        free_of(x, seps),
        seps.contains(c),
    ensures
        pieces(x, seps) == seq![x],
        pieces(x + seq![c] + y, seps) == seq![x] + pieces(y, seps),
        pieces(x + seq![c] + y, seps).len() == 1 + pieces(y, seps).len(),
{
    lemma_pieces_step(x, c, y, seps);
    lemma_pieces_whole(x, seps);
}

/// A text holds no separator exactly where each of its characters is none.
pub proof fn law_free_of(s: Seq<char>, seps: Set<char>)
    ensures
        free_of(s, seps) <==> !exists|i: int| 0 <= i < s.len() && seps.contains(#[trigger] s[i]),
{
}

/// Joining two lists is joining each, with the separator between them; one
/// part alone is that part, and no part is nothing.
pub proof fn law_joining_lists<T>(a: Seq<Seq<T>>, b: Seq<Seq<T>>, sep: Seq<T>, part: Seq<T>)
    requires
        a.len() > 0,
        b.len() > 0,
    ensures
        join(a + b, sep) == join(a, sep) + sep + join(b, sep),
        join(seq![part], sep) == part,
        join(Seq::<Seq<T>>::empty(), sep) == Seq::<T>::empty(),
    decreases a.len(),
{
    if a.len() == 1 {
        assert((a + b).skip(1) =~= b);
    } else {
        let rest = a.skip(1);
        law_joining_lists(rest, b, sep, part);
        assert((a + b).skip(1) =~= rest + b);
        assert(join(a + b, sep) == a[0] + sep + join(rest + b, sep));
        assert(a[0] + sep + (join(rest, sep) + sep + join(b, sep)) =~= (a[0] + sep + join(
            rest,
            sep,
        )) + sep + join(b, sep));
    }
}

/// A text holds another exactly where it can be cut into what stands before
/// it, the other, and what stands behind.
pub proof fn law_occurrence_is_a_cut<T>(s: Seq<T>, pat: Seq<T>)
    ensures
        occurs(s, pat) <==> exists|a: Seq<T>, b: Seq<T>| s == #[trigger] (a + pat + b),
{
    if occurs(s, pat) {
        let i = choose|i: int| occurs_at(s, pat, i);
        let a = s.take(i);
        let b = s.skip(i + pat.len());
        assert(s =~= a + s.subrange(i, i + pat.len()) + b);
    }
    if exists|a: Seq<T>, b: Seq<T>| s == #[trigger] (a + pat + b) {
        let (a, b) = choose|a: Seq<T>, b: Seq<T>| s == #[trigger] (a + pat + b);
        assert(s.subrange(a.len() as int, a.len() as int + pat.len()) =~= pat);
        assert(occurs_at(s, pat, a.len() as int));
    }
}

/// What stands at the first occurrence is replaced by exactly the replacement:
/// what stands before it is kept, and what stands behind it is kept too, or
/// replaced in the same way where every occurrence is.
pub proof fn law_replacement_stands_at_the_first_occurrence<T>(
    a: Seq<T>,
    pat: Seq<T>,
    b: Seq<T>,
    with: Seq<T>,
)
    requires
        pat.len() > 0,
        forall|j: int|
            0 <= j < a.len() ==> #[trigger] (a + pat + b).subrange(j, j + pat.len()) != pat,
    ensures
        find(a + pat + b, pat) == Some(a.len()),
        replace_first(a + pat + b, pat, with) == a + with + b,
        replace_all(a + pat + b, pat, with) == a + with + replace_all(b, pat, with),
{
    let s = a + pat + b;
    let n = a.len() as int;
    assert(s.subrange(n, n + pat.len()) =~= pat);
    assert(occurs_at(s, pat, n));
    assert forall|j: int| 0 <= j < n implies !#[trigger] occurs_at(s, pat, j) by {
        assert(s.subrange(j, j + pat.len()) != pat);
    }
    lemma_find_is(s, pat, a.len());
    lemma_replace_all_step(s, pat, with);
    assert(s.take(n) =~= a);
    assert(s.skip(n + pat.len()) =~= b);
}

/// Digits are read from the left, each worth ten times the next.
pub proof fn law_digits_count_by_tens(s: Seq<char>, c: char, signed: bool)
    requires
        is_all_digits(s),
        '0' <= c <= '9',
    ensures
        number(s, signed) matches Some(n) && n >= 0 && number(s.push(c), signed) == Some(
            10 * n + (c as int - '0' as int),
        ),
        number(seq![c], signed) == Some(c as int - '0' as int),
{
    assert forall|i: int| 0 <= i < s.push(c).len() implies crate::decimal::is_digit(
        #[trigger] s.push(c)[i],
    ) by {
        if i < s.len() {
            assert('0' <= s[i] <= '9');
        }
    }
    assert(s.push(c).drop_last() =~= s);
    assert(seq![c].drop_last() =~= Seq::<char>::empty());
    assert(crate::decimal::value(Seq::<char>::empty()) == 0);
    assert forall|i: int| 0 <= i < s.len() implies crate::decimal::is_digit(#[trigger] s[i]) by {
        assert('0' <= s[i] <= '9');
    }
}

/// A sign may stand before digits: `+` changes nothing, and `-` negates where
/// signs are taken and makes the text no number where they are not.
pub proof fn law_signs_of_numbers(s: Seq<char>, signed: bool)
    requires
        is_all_digits(s),
    ensures
        number(seq!['+'] + s, signed) == number(s, signed),
        number(s, signed) matches Some(n) && number(seq!['-'] + s, true) == Some(-n),
        number(seq!['-'] + s, false) is None,
{
    let plus = seq!['+'] + s;
    let minus = seq!['-'] + s;
    assert(plus.skip(1) =~= s);
    assert(minus.skip(1) =~= s);
    assert(!crate::decimal::is_digit(plus[0]));
    assert(!crate::decimal::is_digit(minus[0]));
    assert forall|i: int| 0 <= i < s.len() implies crate::decimal::is_digit(#[trigger] s[i]) by {
        assert('0' <= s[i] <= '9');
    }
}

/// Nothing but digits, with a sign before them or none, is a number.
pub proof fn law_only_digits_are_numbers(s: Seq<char>, signed: bool)
    ensures
        number(s, signed) is Some <==> is_all_digits(s) || (s.len() > 0 && (s[0] == '+' || (signed
            && s[0] == '-')) && is_all_digits(s.skip(1))),
{
    assert(crate::decimal::is_numeral(s) == is_all_digits(s)) by {
        lemma_numeral_is_digits(s);
    }
    lemma_numeral_is_digits(s.skip(1));
}

proof fn lemma_numeral_is_digits(s: Seq<char>)
    ensures
        crate::decimal::is_numeral(s) == is_all_digits(s),
{
    if is_all_digits(s) {
        assert forall|i: int| 0 <= i < s.len() implies crate::decimal::is_digit(
            #[trigger] s[i],
        ) by {
            assert('0' <= s[i] <= '9');
        }
    }
    if crate::decimal::is_numeral(s) {
        assert forall|i: int| 0 <= i < s.len() implies '0' <= #[trigger] s[i] <= '9' by {
            assert(crate::decimal::is_digit(s[i]));
        }
    }
}

/// A text is a number of a machine type exactly where it is a number that the
/// type holds, and it is that number.
pub proof fn law_machine_numbers_are_the_numbers_that_fit(s: Seq<char>, i: i64, u: u64)
    ensures
        number_i64(s) == Some(i) <==> number(s, true) == Some(i as int),
        number_u64(s) == Some(u) <==> number(s, false) == Some(u as int),
{
    if number(s, false) is Some {
        law_only_digits_are_numbers(s, false);
        assert(number(s, false)->0 >= 0);
    }
}

/// Decimals have a digit to every power of ten and none to spare: a digit
/// more is ten times the number and that digit. A negative number is its
/// opposite behind a `-`.
pub proof fn law_decimals_grow_by_digits(n: nat, d: nat)
    requires
        n > 0,
        d < 10,
    ensures
        decimal((10 * n + d) as int) == decimal(n as int).push((d + '0' as nat) as char),
        decimal(d as int) == seq![(d + '0' as nat) as char],
        decimal(-(n as int)) == seq!['-'] + decimal(n as int),
{
    let m = (10 * n + d) as nat;
    assert(m / 10 == n && m % 10 == d);
    assert(m >= 10);
}

/// Of a number, 32 bits keep what they can hold, and numbers that differ by
/// what they cannot hold are the same in them.
pub proof fn law_low_bits_are_kept(n: int)
    ensures
        i32::MIN <= n <= i32::MAX ==> wrapped_i32(n) == n,
        wrapped_i32(n + 0x1_0000_0000) == wrapped_i32(n),
        wrapped_i32(n - 0x1_0000_0000) == wrapped_i32(n),
        i32::MIN <= wrapped_i32(n) <= i32::MAX,
{
}

/// Bytes are text exactly where a text has them for its bytes, and then that
/// text.
pub proof fn law_bytes_are_text_or_not(bytes: Seq<u8>, s: Seq<char>)
    ensures
        utf8_text(bytes) == Some(s) <==> bytes == encode_utf8(s),
{
    vstd::utf8::encode_utf8_valid_utf8(s);
    vstd::utf8::encode_utf8_decode_utf8(s);
    if valid_utf8(bytes) {
        vstd::utf8::decode_utf8_encode_utf8(bytes);
    }
}

/// The texts of a list are those of its strings, each in its place.
pub proof fn law_texts_of_lists(list: Seq<String>, pairs: Seq<(String, String)>, s: String)
    ensures
        views(list).len() == list.len(),
        forall|i: int| 0 <= i < list.len() ==> #[trigger] views(list)[i] == list[i]@,
        pair_views(pairs).len() == pairs.len(),
        forall|i: int|
            0 <= i < pairs.len() ==> #[trigger] pair_views(pairs)[i] == (pairs[i].0@, pairs[i].1@),
        text_of(Some(s)) == Some(s@),
        text_of(None) is None,
{
}

} // verus!
