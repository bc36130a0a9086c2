//! "Did you mean ...?" suggestions: edit distance between names and the
//! choice of the closest candidate.
use vstd::prelude::*;
use crate::text::str_eq;
use vstd::utf8::encode_utf8;
use vstd::string::StringSliceAdditionalSpecFns;

verus! {

pub open spec fn min3(x: int, y: int, z: int) -> int {
    if x <= y && x <= z {
        x
    } else if y <= z {
        y
    } else {
        z
    }
}

/// Levenshtein distance: the least number of single-element insertions,
/// deletions and substitutions that turn `a` into `b`.
pub open spec fn lev<T>(a: Seq<T>, b: Seq<T>) -> nat
    decreases a.len() + b.len(),
{
    if a.len() == 0 {
        b.len()
    } else if b.len() == 0 {
        a.len()
    } else {
        let cost: int = if a.last() == b.last() { 0 } else { 1 };
        min3(
            lev(a.drop_last(), b) + 1int,
            lev(a, b.drop_last()) + 1int,
            lev(a.drop_last(), b.drop_last()) + cost,
        ) as nat
    }
}

/// The largest distance at which a name still counts as a likely typo.
pub open spec fn max_distance(n: nat) -> nat {
    if n <= 2 {
        1
    } else if n <= 5 {
        2
    } else {
        3
    }
}

/// The distance between two names: over their UTF-8 bytes.
pub open spec fn name_distance(a: Seq<char>, b: Seq<char>) -> nat {
    lev(encode_utf8(a), encode_utf8(b))
}

/// `c` is a different name close enough to `name` to be suggested; the
/// allowed distance grows with the length of `name` in bytes.
pub open spec fn close_to(name: Seq<char>, c: Seq<char>) -> bool {
    c != name && name_distance(name, c) <= max_distance(encode_utf8(name).len())
}

/// `i` is the position of the first candidate of least distance among those close to `name`.
pub open spec fn best_at(name: Seq<char>, cands: Seq<Seq<char>>, i: int) -> bool {
    &&& 0 <= i < cands.len()
    &&& close_to(name, cands[i])
    &&& forall|j: int| 0 <= j < i && close_to(name, cands[j]) ==> name_distance(name, cands[j]) > name_distance(name, cands[i])
    &&& forall|j: int| 0 <= j < cands.len() && close_to(name, cands[j]) ==> name_distance(name, cands[j]) >= name_distance(name, cands[i])
}

pub open spec fn views_of(v: Seq<String>) -> Seq<Seq<char>> {
    Seq::new(v.len(), |i: int| v[i]@)
}

/// The distance never exceeds the longer of the two lengths.
pub proof fn lemma_lev_bound<T>(a: Seq<T>, b: Seq<T>)
    ensures
        lev(a, b) <= if a.len() >= b.len() { a.len() } else { b.len() },
    decreases a.len() + b.len(),
{
    if a.len() > 0 && b.len() > 0 {
        lemma_lev_bound(a.drop_last(), b.drop_last());
    }
}

/// A name is at distance zero from itself.
pub proof fn lemma_lev_self<T>(a: Seq<T>)
    ensures
        lev(a, a) == 0,
    decreases a.len(),
{
    if a.len() > 0 {
        lemma_lev_self(a.drop_last());
    }
}

/// Levenshtein distance between two names, over their UTF-8 bytes.
pub fn edit_distance(a: &str, b: &str) -> (d: usize)
    ensures
        d == name_distance(a@, b@),
{
    let av = a.as_bytes();
    let bv = b.as_bytes();
    let m = av.len();
    let n = bv.len();
    // prev[j] is the distance between the first i characters of a and the first j of b.
    let mut prev: Vec<u128> = Vec::new();
    prev.push(0);
    let mut j: usize = 0;
    while j < n
        invariant
            j <= n,
            n == bv@.len(),
            prev@.len() == j + 1,
            forall|k: int| 0 <= k <= j ==> #[trigger] prev@[k] == lev(av@.take(0), bv@.take(k)),
        decreases n - j,
    {
        j = j + 1;
        prev.push(j as u128);
    }
    let mut i: usize = 0;
    while i < m
        invariant
            i <= m,
            m == av@.len(),
            n == bv@.len(),
            prev@.len() == n + 1,
            forall|k: int| 0 <= k <= n ==> #[trigger] prev@[k] == lev(av@.take(i as int), bv@.take(k)),
        decreases m - i,
    {
        let ghost ai = av@.take(i as int);
        let ghost ai1 = av@.take(i + 1);
        assert(ai1.drop_last() =~= ai);
        assert(ai1.last() == av@[i as int]);
        let mut cur: Vec<u128> = Vec::new();
        cur.push((i + 1) as u128);
        assert(bv@.take(0).len() == 0);
        let mut k: usize = 0;
        while k < n
            invariant
                k <= n,
                i < m,
                m == av@.len(),
                n == bv@.len(),
                prev@.len() == n + 1,
                cur@.len() == k + 1,
                ai == av@.take(i as int),
                ai1 == av@.take(i + 1),
                ai1.drop_last() == ai,
                ai1.last() == av@[i as int],
                forall|q: int| 0 <= q <= n ==> #[trigger] prev@[q] == lev(ai, bv@.take(q)),
                forall|q: int| 0 <= q <= k ==> #[trigger] cur@[q] == lev(ai1, bv@.take(q)),
            decreases n - k,
        {
            let ghost bk = bv@.take(k + 1);
            assert(bk.drop_last() =~= bv@.take(k as int));
            assert(bk.last() == bv@[k as int]);
            proof {
                lemma_lev_bound(ai, bk);
                lemma_lev_bound(ai1, bv@.take(k as int));
                lemma_lev_bound(ai, bv@.take(k as int));
            }
            let cost: u128 = if av[i] == bv[k] { 0 } else { 1 };
            let del = prev[k + 1] + 1;
            let ins = cur[k] + 1;
            let sub = prev[k] + cost;
            let best = if del <= ins && del <= sub {
                del
            } else if ins <= sub {
                ins
            } else {
                sub
            };
            cur.push(best);
            k = k + 1;
        }
        prev = cur;
        i = i + 1;
    }
    assert(av@.take(m as int) =~= av@);
    assert(bv@.take(n as int) =~= bv@);
    proof {
        lemma_lev_bound(av@, bv@);
    }
    prev[n] as usize
}

/// The closest candidate to `name` that differs from it, within a distance
/// that grows with the name's length; among equally close candidates the
/// first one wins.
pub fn suggest_similar(name: &str, candidates: &Vec<String>) -> (r: Option<String>)
    ensures
        match r {
            None => forall|i: int| 0 <= i < candidates@.len() ==> !close_to(name@, #[trigger] candidates@[i]@),
            Some(s) => exists|i: int| best_at(name@, views_of(candidates@), i) && s@ == candidates@[i]@,
        },
{
    let ghost cs = views_of(candidates@);
    let len = name.as_bytes().len();
    assert(name.spec_bytes() == encode_utf8(name@));
    let max_d: usize = if len <= 2 {
        1
    } else if len <= 5 {
        2
    } else {
        3
    };
    let mut best: Option<usize> = None;
    let mut best_d: usize = 0;
    let mut i: usize = 0;
    while i < candidates.len()
        invariant
            i <= candidates@.len(),
            cs == views_of(candidates@),
            max_d == max_distance(encode_utf8(name@).len()),
            match best {
                None => forall|j: int| 0 <= j < i ==> !close_to(name@, #[trigger] cs[j]),
                Some(b) => {
                    &&& b < i
                    &&& close_to(name@, cs[b as int])
                    &&& best_d == name_distance(name@, cs[b as int])
                    &&& forall|j: int| 0 <= j < b && close_to(name@, cs[j]) ==> name_distance(name@, cs[j]) > best_d
                    &&& forall|j: int| 0 <= j < i && close_to(name@, cs[j]) ==> name_distance(name@, cs[j]) >= best_d
                },
            },
        decreases candidates.len() - i,
    {
        let c = candidates[i].as_str();
        assert(cs[i as int] == c@);
        if !str_eq(c, name) {
            let d = edit_distance(name, c);
            if d <= max_d {
                match best {
                    None => {
                        best = Some(i);
                        best_d = d;
                    },
                    Some(_) => {
                        if d < best_d {
                            best = Some(i);
                            best_d = d;
                        }
                    },
                }
            }
        }
        i = i + 1;
    }
    match best {
        None => {
            assert forall|j: int| 0 <= j < candidates@.len() implies !close_to(name@, #[trigger] candidates@[j]@) by {
                assert(cs[j] == candidates@[j]@);
            }
            None
        },
        Some(b) => {
            assert(best_at(name@, cs, b as int));
            Some(candidates[b].clone())
        },
    }
}

} // verus!
