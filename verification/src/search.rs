//! Finding one sequence in another and replacing it.

use crate::split::join;
use crate::text::{from_chars, to_chars, Item};
use vstd::prelude::*;
use vstd::slice::slice_to_vec;

verus! {

/// Whether `pat` stands in `s` at place `i`.
pub open spec fn occurs_at<T>(s: Seq<T>, pat: Seq<T>, i: int) -> bool {
    0 <= i <= s.len() - pat.len() && s.subrange(i, i + pat.len()) == pat
}

/// Whether `pat` stands anywhere in `s`.
pub open spec fn occurs<T>(s: Seq<T>, pat: Seq<T>) -> bool {
    exists|i: int| occurs_at(s, pat, i)
}

/// The first place at which `pat` stands in `s`.
pub open spec fn find<T>(s: Seq<T>, pat: Seq<T>) -> Option<nat>
    decreases s.len(),
{
    if pat.is_prefix_of(s) {
        Some(0)
    } else if s.len() == 0 {
        None
    } else {
        match find(s.skip(1), pat) {
            Some(i) => Some(i + 1),
            None => None,
        }
    }
}

/// What stands between the occurrences of `pat`, taken from the left and
/// without overlap.
pub open spec fn segments<T>(s: Seq<T>, pat: Seq<T>) -> Seq<Seq<T>>
    recommends
        pat.len() > 0,
    decreases s.len(),
{
    match find(s, pat) {
        Some(i) => if 0 < pat.len() && i + pat.len() <= s.len() {
            seq![s.take(i as int)] + segments(s.skip(i as int + pat.len()), pat)
        } else {
            seq![s]
        },
        None => seq![s],
    }
}

/// `s` with every occurrence of `pat` replaced by `with`.
pub open spec fn replace_all<T>(s: Seq<T>, pat: Seq<T>, with: Seq<T>) -> Seq<T> {
    join(segments(s, pat), with)
}

/// `s` with the first occurrence of `pat` replaced by `with`.
pub open spec fn replace_first<T>(s: Seq<T>, pat: Seq<T>, with: Seq<T>) -> Seq<T> {
    match find(s, pat) {
        Some(i) => s.take(i as int) + with + s.skip(i as int + pat.len()),
        None => s,
    }
}

/// `find` gives the least place of an occurrence, and nothing exactly where
/// there is none.
pub proof fn lemma_find<T>(s: Seq<T>, pat: Seq<T>)
    ensures
        match find(s, pat) {
            Some(i) => occurs_at(s, pat, i as int) && forall|j: int|
                0 <= j < i ==> !#[trigger] occurs_at(s, pat, j),
            None => !occurs(s, pat),
        },
    decreases s.len(),
{
    if pat.is_prefix_of(s) {
        assert(s.subrange(0, pat.len() as int) =~= pat);
        assert(occurs_at(s, pat, 0));
    } else if s.len() == 0 {
        assert forall|j: int| !occurs_at(s, pat, j) by {
            if occurs_at(s, pat, j) {
                assert(s.subrange(0, pat.len() as int) =~= pat);
            }
        }
    } else {
        let t = s.skip(1);
        lemma_find(t, pat);
        assert(!occurs_at(s, pat, 0));
        assert forall|j: int| 1 <= j implies occurs_at(s, pat, j) == #[trigger] occurs_at(
            t,
            pat,
            j - 1,
        ) by {
            if j <= s.len() - pat.len() {
                assert(s.subrange(j, j + pat.len()) =~= t.subrange(j - 1, j - 1 + pat.len()));
            }
        }
        match find(t, pat) {
            Some(i) => {
                assert(occurs_at(s, pat, i as int + 1) == occurs_at(t, pat, i as int + 1 - 1));
                assert forall|j: int| 0 <= j < i + 1 implies !#[trigger] occurs_at(s, pat, j) by {
                    if j > 0 {
                        assert(occurs_at(s, pat, j) == occurs_at(t, pat, j - 1));
                    }
                }
            },
            None => {
                assert forall|j: int| !occurs_at(s, pat, j) by {
                    if j > 0 {
                        assert(occurs_at(s, pat, j) == occurs_at(t, pat, j - 1));
                    }
                }
            },
        }
    }
}

/// Where the least place of an occurrence is known, `find` gives it.
pub proof fn lemma_find_is<T>(s: Seq<T>, pat: Seq<T>, i: nat)
    requires
        occurs_at(s, pat, i as int),
        forall|j: int| 0 <= j < i ==> !#[trigger] occurs_at(s, pat, j),
    ensures
        find(s, pat) == Some(i),
{
    lemma_find(s, pat);
    match find(s, pat) {
        Some(k) => {
            if k < i {
                assert(!occurs_at(s, pat, k as int));
            }
            if i < k {
                assert(!occurs_at(s, pat, i as int));
            }
        },
        None => {},
    }
}

fn stands_at<T: Item>(s: &Vec<T>, pat: &Vec<T>, at: usize) -> (r: bool)
    requires
        at + pat@.len() <= s@.len(),
    ensures
        r == occurs_at(s@, pat@, at as int),
{
    let n: usize = s.len();
    let mut k: usize = 0;
    while k < pat.len()
        invariant
            k <= pat@.len(),
            at + pat@.len() <= s@.len() == n,
            forall|j: int| 0 <= j < k ==> s@[at + j] == #[trigger] pat@[j],
        decreases pat@.len() - k,
    {
        if !s[at + k].is(&pat[k]) {
            assert(s@.subrange(at as int, at + pat@.len())[k as int] != pat@[k as int]);
            return false;
        }
        k = k + 1;
    }
    assert(s@.subrange(at as int, at + pat@.len()) =~= pat@);
    true
}

/// The first place, from `from` on, at which `pat` stands in `s`.
pub fn find_from<T: Item>(s: &Vec<T>, pat: &Vec<T>, from: usize) -> (r: Option<usize>)
    requires
        from <= s@.len(),
    ensures
        match r {
            Some(i) => from <= i <= s@.len() - pat@.len() && find(s@.skip(from as int), pat@)
                == Some((i - from) as nat),
            None => find(s@.skip(from as int), pat@) is None,
        },
{
    let ghost t = s@.skip(from as int);
    if pat.len() > s.len() - from {
        proof {
            lemma_find(t, pat@);
        }
        return None;
    }
    let end: usize = s.len() - pat.len();
    let mut i: usize = from;
    while i < end
        invariant
            from <= i <= end == s@.len() - pat@.len(),
            t == s@.skip(from as int),
            forall|j: int| 0 <= j < i - from ==> !#[trigger] occurs_at(t, pat@, j),
        decreases end - i,
    {
        assert(t.subrange(i - from, i - from + pat@.len()) =~= s@.subrange(
            i as int,
            i + pat@.len(),
        ));
        if stands_at(s, pat, i) {
            proof {
                lemma_find_is(t, pat@, (i - from) as nat);
            }
            return Some(i);
        }
        i = i + 1;
    }
    assert(t.subrange(end - from, end - from + pat@.len()) =~= s@.subrange(
        end as int,
        end + pat@.len(),
    ));
    if stands_at(s, pat, end) {
        proof {
            lemma_find_is(t, pat@, (end - from) as nat);
        }
        return Some(end);
    }
    proof {
        lemma_find(t, pat@);
    }
    None
}

proof fn lemma_segments_nonempty<T>(s: Seq<T>, pat: Seq<T>)
    ensures
        segments(s, pat).len() > 0,
    decreases s.len(),
{
}

/// The segments make up the text: with `pat` between them they are the text
/// again, and `pat` occurs in none of them. So replacing `pat` leaves all the
/// rest of the text as it is.
pub proof fn law_segments_make_up_the_text<T>(s: Seq<T>, pat: Seq<T>)
    requires
        pat.len() > 0,
    ensures
        join(segments(s, pat), pat) == s,
        forall|k: int| 0 <= k < segments(s, pat).len() ==> !occurs(#[trigger] segments(s, pat)[k], pat),
    decreases s.len(),
{
    lemma_find(s, pat);
    match find(s, pat) {
        Some(i) => {
            let head = s.take(i as int);
            let rest = s.skip(i as int + pat.len());
            law_segments_make_up_the_text(rest, pat);
            lemma_segments_nonempty(rest, pat);
            let all = segments(s, pat);
            assert(all.skip(1) =~= segments(rest, pat));
            assert(s =~= head + s.subrange(i as int, i as int + pat.len()) + rest);
            assert forall|k: int| 0 <= k < all.len() implies !occurs(#[trigger] all[k], pat) by {
                if k == 0 {
                    assert forall|j: int| !occurs_at(head, pat, j) by {
                        if occurs_at(head, pat, j) {
                            assert(s.subrange(j, j + pat.len()) =~= head.subrange(
                                j,
                                j + pat.len(),
                            ));
                            assert(occurs_at(s, pat, j));
                        }
                    }
                } else {
                    assert(all[k] == segments(rest, pat)[k - 1]);
                }
            }
        },
        None => {},
    }
}

/// Replacing works through the text from the left: what stands before the
/// first occurrence, the replacement, then the rest in the same way.
pub proof fn lemma_replace_all_step<T>(s: Seq<T>, pat: Seq<T>, with: Seq<T>)
    requires
        pat.len() > 0,
    ensures
        match find(s, pat) {
            Some(i) => i + pat.len() <= s.len() && replace_all(s, pat, with) == s.take(i as int)
                + with + replace_all(s.skip(i as int + pat.len()), pat, with),
            None => replace_all(s, pat, with) == s,
        },
{
    lemma_find(s, pat);
    match find(s, pat) {
        Some(i) => {
            let rest = segments(s.skip(i as int + pat.len()), pat);
            lemma_segments_nonempty(s.skip(i as int + pat.len()), pat);
            assert(segments(s, pat).skip(1) =~= rest);
        },
        None => {},
    }
}

/// A text in which `pat` does not occur is left as it is.
pub proof fn law_replace_without_occurrence<T>(s: Seq<T>, pat: Seq<T>, with: Seq<T>)
    requires
        pat.len() > 0,
        !occurs(s, pat),
    ensures
        replace_all(s, pat, with) == s,
        replace_first(s, pat, with) == s,
{
    lemma_find(s, pat);
    lemma_replace_all_step(s, pat, with);
}

/// Nothing is left to replace afterwards, provided the replacement cannot
/// take part in an occurrence: it does not hold the first item of `pat`, and
/// its first two items do not stand together in `pat`, nor its first at the
/// end of `pat`.
pub proof fn law_replace_leaves_no_occurrence<T>(s: Seq<T>, pat: Seq<T>, with: Seq<T>)
    requires
        pat.len() > 0,
        with.len() >= 2,
        forall|j: int| 0 <= j < with.len() ==> #[trigger] with[j] != pat[0],
        forall|t: int|
            0 <= t < pat.len() && #[trigger] pat[t] == with[0] ==> t + 1 < pat.len() && pat[t + 1]
                != with[1],
    ensures
        !occurs(replace_all(s, pat, with), pat),
    decreases s.len(),
{
    lemma_find(s, pat);
    lemma_replace_all_step(s, pat, with);
    let out = replace_all(s, pat, with);
    match find(s, pat) {
        Some(i) => {
            let a = s.take(i as int);
            let rest = s.skip(i as int + pat.len());
            law_replace_leaves_no_occurrence(rest, pat, with);
            let tail = replace_all(rest, pat, with);
            let m = pat.len() as int;
            assert forall|k: int| !occurs_at(out, pat, k) by {
                if occurs_at(out, pat, k) {
                    assert forall|x: int| 0 <= x < m implies #[trigger] pat[x] == out[k + x] by {
                        assert(out.subrange(k, k + m)[x] == out[k + x]);
                    }
                    if k + m <= i {
                        assert(s.subrange(k, k + m) =~= pat);
                        assert(occurs_at(s, pat, k));
                    } else if k < i {
                        let t = i - k;
                        assert(pat[t] == with[0]);
                        assert(pat[t + 1] == with[1]);
                    } else if k < i + with.len() {
                        assert(pat[0] == with[k - i]);
                    } else {
                        let h = k - i - with.len();
                        assert(tail.subrange(h, h + m) =~= pat);
                        assert(occurs_at(tail, pat, h));
                    }
                }
            }
        },
        None => {},
    }
}

/// A string with every occurrence of `pat` replaced by `with`.
pub fn replace_every(s: &str, pat: &str, with: &str) -> (r: String)
    requires
        pat@.len() > 0,
    ensures
        r@ == replace_all(s@, pat@, with@),
{
    let v = to_chars(s);
    let p = to_chars(pat);
    let n: usize = v.len();
    let mut r = String::new();
    let mut start: usize = 0;
    assert(v@.skip(0) =~= v@);
    assert(r@ + replace_all(v@, pat@, with@) =~= replace_all(v@, pat@, with@));
    loop
        invariant
            start <= v@.len() == n,
            p@ == pat@,
            pat@.len() > 0,
            r@ + replace_all(v@.skip(start as int), pat@, with@) == replace_all(v@, pat@, with@),
            v@ == s@,
        decreases n - start,
    {
        let ghost rest = v@.skip(start as int);
        let ghost before = r@;
        proof {
            lemma_replace_all_step(rest, pat@, with@);
        }
        match find_from(&v, &p, start) {
            Some(i) => {
                let kept = from_chars(&v, start, i);
                r.append(kept.as_str());
                r.append(with);
                proof {
                    let k = i - start;
                    assert(rest.take(k) =~= kept@);
                    assert(rest.skip(k + pat@.len()) =~= v@.skip(i + pat@.len()));
                    let tail = replace_all(v@.skip(i + pat@.len()), pat@, with@);
                    assert(before + (kept@ + with@ + tail) =~= before + kept@ + with@ + tail);
                }
                start = i + p.len();
            },
            None => {
                let kept = from_chars(&v, start, n);
                r.append(kept.as_str());
                assert(rest =~= kept@);
                return r;
            },
        }
    }
}

/// Bytes with the first occurrence of `pat` replaced by `with`.
pub fn replace_once(data: &Vec<u8>, pat: &[u8], with: &[u8]) -> (r: Vec<u8>)
    ensures
        r@ == replace_first(data@, pat@, with@),
{
    let p = slice_to_vec(pat);
    let n: usize = data.len();
    assert(data@.skip(0) =~= data@);
    proof {
        lemma_find(data@, pat@);
    }
    match find_from(data, &p, 0) {
        Some(i) => {
            let mut r: Vec<u8> = Vec::new();
            push_bytes(&mut r, data.as_slice(), 0, i);
            push_bytes(&mut r, with, 0, with.len());
            push_bytes(&mut r, data.as_slice(), i + p.len(), n);
            assert(data@.subrange(0, i as int) =~= data@.take(i as int));
            assert(with@.subrange(0, with@.len() as int) =~= with@);
            assert(data@.subrange(i + pat@.len(), n as int) =~= data@.skip(i + pat@.len()));
            r
        },
        None => {
            let mut r: Vec<u8> = Vec::new();
            push_bytes(&mut r, data.as_slice(), 0, n);
            assert(r@ =~= data@);
            r
        },
    }
}

/// Appends the bytes from `from` up to, not including, `to`.
pub fn push_bytes(out: &mut Vec<u8>, data: &[u8], from: usize, to: usize)
    requires
        from <= to <= data@.len(),
    ensures
        final(out)@ == old(out)@ + data@.subrange(from as int, to as int),
{
    let mut i: usize = from;
    while i < to
        invariant
            from <= i <= to <= data@.len(),
            out@ == old(out)@ + data@.subrange(from as int, i as int),
        decreases to - i,
    {
        out.push(data[i]);
        i = i + 1;
        assert(data@.subrange(from as int, i as int) =~= data@.subrange(from as int, i - 1).push(
            data@[i - 1],
        ));
    }
}

} // verus!
