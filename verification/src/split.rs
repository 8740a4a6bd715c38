//! Taking text apart at separator characters and putting it together again.

use crate::text::{from_chars, to_chars, views};
use vstd::prelude::*;

verus! {

/// How many characters stand before the first separator (all of them, where
/// there is none).
pub open spec fn head_len(s: Seq<char>, seps: Set<char>) -> nat
    decreases s.len(),
{
    if s.len() == 0 || seps.contains(s[0]) {
        0
    } else {
        1 + head_len(s.skip(1), seps)
    }
}

/// The pieces of `s` between its separators: one more than there are
/// separators, each possibly empty.
pub open spec fn pieces(s: Seq<char>, seps: Set<char>) -> Seq<Seq<char>>
    decreases s.len(),
{
    let n = head_len(s, seps);
    if n >= s.len() {
        seq![s]
    } else {
        seq![s.take(n as int)] + pieces(s.skip(n as int + 1), seps)
    }
}

/// The parts one after the other, with `sep` between every two of them.
pub open spec fn join<T>(parts: Seq<Seq<T>>, sep: Seq<T>) -> Seq<T>
    decreases parts.len(),
{
    if parts.len() == 0 {
        seq![]
    } else if parts.len() == 1 {
        parts[0]
    } else {
        parts[0] + sep + join(parts.skip(1), sep)
    }
}

/// Whether `s` holds none of the separators.
pub open spec fn free_of(s: Seq<char>, seps: Set<char>) -> bool {
    forall|i: int| 0 <= i < s.len() ==> !seps.contains(#[trigger] s[i])
}

pub proof fn lemma_head_len(s: Seq<char>, seps: Set<char>)
    ensures
        head_len(s, seps) <= s.len(),
        free_of(s.take(head_len(s, seps) as int), seps),
        head_len(s, seps) < s.len() ==> seps.contains(s[head_len(s, seps) as int]),
    decreases s.len(),
{
    if s.len() > 0 && !seps.contains(s[0]) {
        let t = s.skip(1);
        lemma_head_len(t, seps);
        let n = head_len(s, seps);
        assert forall|i: int| 0 <= i < n implies !seps.contains(#[trigger] s.take(n as int)[i]) by {
            if i > 0 {
                assert(s.take(n as int)[i] == t.take(n - 1)[i - 1]);
            }
        }
    }
}

/// Where the first separator is known, `head_len` is its place.
pub proof fn lemma_head_len_is(s: Seq<char>, seps: Set<char>, n: int)
    requires
        0 <= n <= s.len(),
        free_of(s.take(n), seps),
        n < s.len() ==> seps.contains(s[n]),
    ensures
        head_len(s, seps) == n,
    decreases s.len(),
{
    if n > 0 {
        assert(s.take(n)[0] == s[0]);
        let t = s.skip(1);
        assert forall|i: int| 0 <= i < n - 1 implies !seps.contains(#[trigger] t.take(n - 1)[i]) by {
            assert(s.take(n)[i + 1] == t.take(n - 1)[i]);
        }
        lemma_head_len_is(t, seps, n - 1);
    }
}

/// Splits a string at every character that is `a` or `b`.
pub fn split_at_either(s: &str, a: char, b: char) -> (r: Vec<String>)
    ensures
        views(r@) == pieces(s@, set![a, b]),
        r@.len() > 0,
{
    let v = to_chars(s);
    let ghost seps = set![a, b];
    let mut r: Vec<String> = Vec::new();
    let mut start: usize = 0;
    let mut i: usize = 0;
    assert(v@.skip(0) =~= v@);
    assert(views(r@) + pieces(v@, seps) =~= pieces(v@, seps));
    while i < v.len()
        invariant
            start <= i <= v@.len(),
            seps == set![a, b],
            free_of(v@.subrange(start as int, i as int), seps),
            views(r@) + pieces(v@.skip(start as int), seps) == pieces(v@, seps),
        decreases v@.len() - i,
    {
        let c = v[i];
        let ghost rest = v@.skip(start as int);
        let ghost n = i - start;
        assert(rest.take(n) =~= v@.subrange(start as int, i as int));
        assert(rest[n] == c);
        if c == a || c == b {
            let piece = from_chars(&v, start, i);
            let ghost before = views(r@);
            r.push(piece);
            proof {
                lemma_head_len_is(rest, seps, n);
                assert(rest.skip(n + 1) =~= v@.skip(i + 1));
                assert(views(r@) =~= before.push(piece@));
                assert(before + (seq![piece@] + pieces(v@.skip(i + 1), seps)) =~= views(r@)
                    + pieces(v@.skip(i + 1), seps));
            }
            start = i + 1;
            assert(v@.subrange(start as int, i + 1) =~= Seq::<char>::empty());
        } else {
            assert(v@.subrange(start as int, i + 1) =~= v@.subrange(start as int, i as int).push(c));
        }
        i = i + 1;
    }
    let last = from_chars(&v, start, v.len());
    let ghost before = views(r@);
    r.push(last);
    proof {
        let rest = v@.skip(start as int);
        assert(rest =~= v@.subrange(start as int, v@.len() as int));
        assert(rest.take(rest.len() as int) =~= rest);
        lemma_head_len_is(rest, seps, rest.len() as int);
        assert(views(r@) =~= before + seq![rest]);
    }
    r
}

/// Splits a string at every occurrence of one character.
pub fn split_at(s: &str, c: char) -> (r: Vec<String>)
    ensures
        views(r@) == pieces(s@, set![c]),
        r@.len() > 0,
{
    assert(set![c, c] =~= set![c]);
    split_at_either(s, c, c)
}

/// The strings of a list one after the other, with `sep` between every two.
pub fn join_strings(list: &Vec<String>, sep: &str) -> (r: String)
    ensures
        r@ == join(views(list@), sep@),
{
    let mut r = String::new();
    let n: usize = list.len();
    if n == 0 {
        assert(views(list@) =~= Seq::<Seq<char>>::empty());
        return r;
    }
    let mut k: usize = 0;
    let ghost all = views(list@);
    assert(all.skip(0) =~= all);
    assert(Seq::<char>::empty() + join(all, sep@) =~= join(all, sep@));
    while k < n - 1
        invariant
            k < n == list@.len(),
            all == views(list@),
            r@ + join(all.skip(k as int), sep@) == join(all, sep@),
        decreases n - k,
    {
        let ghost before = r@;
        r.append(list[k].as_str());
        r.append(sep);
        proof {
            let rest = all.skip(k as int);
            assert(rest[0] == list@[k as int]@);
            assert(rest.skip(1) =~= all.skip(k + 1));
            assert(before + (rest[0] + sep@ + join(all.skip(k + 1), sep@)) =~= before + rest[0]
                + sep@ + join(all.skip(k + 1), sep@));
        }
        k = k + 1;
    }
    r.append(list[k].as_str());
    proof {
        assert(all.skip(k as int)[0] == list@[k as int]@);
    }
    r
}

/// Joining the pieces of a text with the character it was split at gives the
/// text back.
pub proof fn law_join_undoes_split(s: Seq<char>, c: char)
    ensures
        join(pieces(s, set![c]), seq![c]) == s,
    decreases s.len(),
{
    let seps = set![c];
    let n = head_len(s, seps);
    lemma_head_len(s, seps);
    if n < s.len() {
        let rest = s.skip(n as int + 1);
        law_join_undoes_split(rest, c);
        let parts = pieces(s, seps);
        lemma_pieces_nonempty(rest, seps);
        assert(parts.skip(1) =~= pieces(rest, seps));
        assert(s =~= s.take(n as int) + seq![c] + rest);
    }
}

/// Splitting what was joined with a character gives the parts back, provided
/// there is one and none of them holds that character.
pub proof fn law_split_undoes_join(parts: Seq<Seq<char>>, c: char)
    requires
        parts.len() > 0,
        forall|i: int| 0 <= i < parts.len() ==> free_of(#[trigger] parts[i], set![c]),
    ensures
        pieces(join(parts, seq![c]), set![c]) == parts,
    decreases parts.len(),
{
    let seps = set![c];
    let s = join(parts, seq![c]);
    let n = parts[0].len() as int;
    assert(s.take(n) =~= parts[0]);
    if parts.len() == 1 {
        lemma_head_len_is(s, seps, n);
        assert(parts =~= seq![s]);
    } else {
        lemma_head_len_is(s, seps, n);
        let rest = parts.skip(1);
        assert(s.skip(n + 1) =~= join(rest, seq![c]));
        assert forall|i: int| 0 <= i < rest.len() implies free_of(#[trigger] rest[i], seps) by {
            assert(rest[i] == parts[i + 1]);
        }
        law_split_undoes_join(rest, c);
        assert(parts =~= seq![parts[0]] + rest);
    }
}

/// No piece holds a character that the text does not hold.
pub proof fn lemma_pieces_hold_no_more(s: Seq<char>, seps: Set<char>, c: char)
    requires
        !s.contains(c),
    ensures
        forall|k: int|
            0 <= k < pieces(s, seps).len() ==> !(#[trigger] pieces(s, seps)[k]).contains(c),
    decreases s.len(),
{
    let n = head_len(s, seps) as int;
    let all = pieces(s, seps);
    if n < s.len() {
        let rest = s.skip(n + 1);
        if rest.contains(c) {
            let j = choose|j: int| 0 <= j < rest.len() && rest[j] == c;
            assert(s[n + 1 + j] == c);
        }
        lemma_pieces_hold_no_more(rest, seps, c);
        assert forall|k: int| 0 <= k < all.len() implies !(#[trigger] all[k]).contains(c) by {
            if k == 0 {
                if s.take(n).contains(c) {
                    let j = choose|j: int| 0 <= j < n && s.take(n)[j] == c;
                    assert(s[j] == c);
                }
            } else {
                assert(all[k] == pieces(rest, seps)[k - 1]);
            }
        }
    }
}

/// Texts without separators, with a character between them that is none, make
/// a text without separators.
pub proof fn lemma_free_of_both(x: Seq<char>, c: char, y: Seq<char>, seps: Set<char>)
    requires
        free_of(x, seps),
        free_of(y, seps),
        !seps.contains(c),
    ensures
        free_of(x + seq![c] + y, seps),
{
    let s = x + seq![c] + y;
    assert forall|i: int| 0 <= i < s.len() implies !seps.contains(#[trigger] s[i]) by {
        if i < x.len() {
            assert(s[i] == x[i]);
        } else if i > x.len() {
            assert(s[i] == y[i - x.len() - 1]);
        }
    }
}

/// What stands before the first separator is the first piece, and the rest is
/// split in the same way.
pub proof fn lemma_pieces_step(x: Seq<char>, c: char, y: Seq<char>, seps: Set<char>)
    requires
        free_of(x, seps),
        seps.contains(c),
    ensures
        pieces(x + seq![c] + y, seps) == seq![x] + pieces(y, seps),
{
    let s = x + seq![c] + y;
    let n = x.len() as int;
    assert(s.take(n) =~= x);
    lemma_head_len_is(s, seps, n);
    assert(s.skip(n + 1) =~= y);
}

/// A text without separators is its own only piece.
pub proof fn lemma_pieces_whole(x: Seq<char>, seps: Set<char>)
    requires
        free_of(x, seps),
    ensures
        pieces(x, seps) == seq![x],
{
    assert(x.take(x.len() as int) =~= x);
    lemma_head_len_is(x, seps, x.len() as int);
}

pub proof fn lemma_pieces_nonempty(s: Seq<char>, seps: Set<char>)
    ensures
        pieces(s, seps).len() > 0,
    decreases s.len(),
{
}

} // verus!
