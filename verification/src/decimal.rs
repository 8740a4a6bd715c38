//! Whole numbers written in decimal digits.

use crate::text::to_chars;
use vstd::prelude::*;

verus! {

/// Whether a character is one of the ten digits.
pub open spec fn is_digit(c: char) -> bool {
    '0' <= c <= '9'
}

/// Whether a text is one digit or more and nothing else.
pub open spec fn is_numeral(s: Seq<char>) -> bool {
    s.len() > 0 && forall|i: int| 0 <= i < s.len() ==> is_digit(#[trigger] s[i])
}

/// The number that a sequence of digits stands for.
pub open spec fn value(s: Seq<char>) -> nat
    decreases s.len(),
{
    if s.len() == 0 {
        0
    } else {
        value(s.drop_last()) * 10 + (s.last() as nat - '0' as nat) as nat
    }
}

/// The number that a text stands for: digits with an optional sign before
/// them, where `-` is a sign only if `signed`.
pub open spec fn number(s: Seq<char>, signed: bool) -> Option<int> {
    if is_numeral(s) {
        Some(value(s) as int)
    } else if s.len() > 0 && s[0] == '+' && is_numeral(s.skip(1)) {
        Some(value(s.skip(1)) as int)
    } else if signed && s.len() > 0 && s[0] == '-' && is_numeral(s.skip(1)) {
        Some(-value(s.skip(1)))
    } else {
        None
    }
}

/// The signed 64-bit number that a text stands for, if it is one.
pub open spec fn number_i64(s: Seq<char>) -> Option<i64> {
    match number(s, true) {
        Some(n) => if i64::MIN <= n <= i64::MAX {
            Some(n as i64)
        } else {
            None
        },
        None => None,
    }
}

/// The unsigned 64-bit number that a text stands for, if it is one.
pub open spec fn number_u64(s: Seq<char>) -> Option<u64> {
    match number(s, false) {
        Some(n) => if n <= u64::MAX {
            Some(n as u64)
        } else {
            None
        },
        None => None,
    }
}

/// The digit for a number below ten.
pub open spec fn digit_char(d: nat) -> char {
    (d + '0' as nat) as char
}

/// A natural number in decimal digits, without leading zeros.
pub open spec fn numeral(n: nat) -> Seq<char>
    decreases n,
{
    if n < 10 {
        seq![digit_char(n)]
    } else {
        numeral(n / 10).push(digit_char(n % 10))
    }
}

/// A whole number in decimal digits, after a `-` where it is negative.
pub open spec fn decimal(n: int) -> Seq<char> {
    if n < 0 {
        seq!['-'] + numeral((-n) as nat)
    } else {
        numeral(n as nat)
    }
}

pub proof fn lemma_numeral(n: nat)
    ensures
        is_numeral(numeral(n)),
        value(numeral(n)) == n,
    decreases n,
{
    if n < 10 {
        let s = numeral(n);
        assert(s.drop_last() =~= Seq::<char>::empty());
        assert(value(s.drop_last()) == 0);
    } else {
        lemma_numeral(n / 10);
        assert(numeral(n).drop_last() =~= numeral(n / 10));
    }
}

/// Reading what was written gives the number back, signed and, where it is
/// not negative, unsigned.
pub proof fn law_number_undoes_decimal(n: int)
    ensures
        number(decimal(n), true) == Some(n),
        n >= 0 ==> number(decimal(n), false) == Some(n),
{
    if n < 0 {
        let m = (-n) as nat;
        lemma_numeral(m);
        assert(decimal(n).skip(1) =~= numeral(m));
        assert(!is_digit(decimal(n)[0]));
    } else {
        lemma_numeral(n as nat);
    }
}

proof fn lemma_value_grows(s: Seq<char>, k: int)
    requires
        is_numeral(s),
        0 <= k <= s.len(),
    ensures
        value(s.take(k)) <= value(s),
    decreases s.len(),
{
    if k == s.len() {
        assert(s.take(k) =~= s);
    } else if s.len() == 1 {
        assert(s.take(k) =~= Seq::<char>::empty());
    } else {
        let t = s.drop_last();
        assert forall|i: int| 0 <= i < t.len() implies is_digit(#[trigger] t[i]) by {
            assert(t[i] == s[i]);
        }
        lemma_value_grows(t, k);
        assert(t.take(k) =~= s.take(k));
    }
}

/// The number that the characters from `from` on stand for, if they are
/// digits and it fits in 64 bits.
fn magnitude(v: &Vec<char>, from: usize) -> (r: Option<u64>)
    requires
        from <= v@.len(),
    ensures
        match r {
            Some(n) => is_numeral(v@.skip(from as int)) && value(v@.skip(from as int)) == n,
            None => is_numeral(v@.skip(from as int)) ==> value(v@.skip(from as int)) > u64::MAX,
        },
{
    let ghost s = v@.skip(from as int);
    let n: usize = v.len();
    if from == n {
        return None;
    }
    let mut i: usize = from;
    let mut acc: u64 = 0;
    while i < n
        invariant
            from <= i <= n == v@.len(),
            s == v@.skip(from as int),
            forall|j: int| 0 <= j < i - from ==> is_digit(#[trigger] s[j]),
            acc == value(s.take(i - from)),
        decreases n - i,
    {
        let c = v[i];
        let ghost k = i - from;
        assert(s[k] == c);
        if c < '0' || c > '9' {
            assert(!is_digit(s[k]));
            return None;
        }
        let d: u64 = (c as u32 - '0' as u32) as u64;
        proof {
            assert(s.take(k + 1).drop_last() =~= s.take(k));
            if is_numeral(s) {
                lemma_value_grows(s, k + 1);
            }
        }
        if acc > 1844674407370955161 || (acc == 1844674407370955161 && d > 5) {
            return None;
        }
        acc = acc * 10 + d;
        i = i + 1;
    }
    assert(s.take(n - from) =~= s);
    Some(acc)
}

/// Reads a signed 64-bit number: digits with an optional `+` or `-`.
pub fn read_i64(s: &str) -> (r: Option<i64>)
    ensures
        r == number_i64(s@),
{
    let v = to_chars(s);
    if v.len() == 0 {
        return None;
    }
    assert(v@.skip(0) =~= v@);
    let first = v[0];
    if first == '-' {
        assert(!is_digit(v@[0]));
        match magnitude(&v, 1) {
            Some(m) => if m <= 9223372036854775807 {
                Some(-(m as i64))
            } else if m == 9223372036854775808 {
                Some(i64::MIN)
            } else {
                None
            },
            None => None,
        }
    } else {
        let from: usize = if first == '+' {
            assert(!is_digit(v@[0]));
            1
        } else {
            0
        };
        match magnitude(&v, from) {
            Some(m) => if m <= 9223372036854775807 {
                Some(m as i64)
            } else {
                None
            },
            None => None,
        }
    }
}

/// Reads an unsigned 64-bit number: digits with an optional `+`.
pub fn read_u64(s: &str) -> (r: Option<u64>)
    ensures
        r == number_u64(s@),
{
    let v = to_chars(s);
    if v.len() == 0 {
        return None;
    }
    assert(v@.skip(0) =~= v@);
    let from: usize = if v[0] == '+' {
        assert(!is_digit(v@[0]));
        1
    } else {
        0
    };
    magnitude(&v, from)
}

fn push_numeral(out: &mut String, n: u64)
    ensures
        final(out)@ == old(out)@ + numeral(n as nat),
    decreases n,
{
    if n >= 10 {
        push_numeral(out, n / 10);
    }
    let d: u8 = (n % 10) as u8;
    let c: char = (d + 48u8) as char;
    out.push(c);
    assert(c == digit_char((n % 10) as nat));
    assert(out@ =~= old(out)@ + numeral(n as nat));
}

/// Writes a signed 64-bit number in decimal.
pub fn write_i64(n: i64) -> (r: String)
    ensures
        r@ == decimal(n as int),
{
    let mut out = String::new();
    if n < 0 {
        out.push('-');
        let m: u64 = (-(n + 1)) as u64 + 1;
        push_numeral(&mut out, m);
        assert(out@ =~= decimal(n as int));
    } else {
        push_numeral(&mut out, n as u64);
        assert(out@ =~= decimal(n as int));
    }
    out
}

/// Writes an unsigned 64-bit number in decimal.
pub fn write_u64(n: u64) -> (r: String)
    ensures
        r@ == decimal(n as int),
{
    let mut out = String::new();
    push_numeral(&mut out, n);
    assert(out@ =~= decimal(n as int));
    out
}

/// What is left of a number in 32 bits, in two's complement.
pub open spec fn wrapped_i32(n: int) -> int {
    (n + 0x8000_0000) % 0x1_0000_0000 - 0x8000_0000
}

/// The low 32 bits of a number.
pub fn low_i32(n: i64) -> (r: i32)
    ensures
        r == wrapped_i32(n as int),
{
    let r: i32 = #[verifier::truncate] (n as i32);
    assert((n as i32) == (n + 0x8000_0000) % 0x1_0000_0000 - 0x8000_0000) by (bit_vector);
    r
}

} // verus!
