//! Facts about sequences that the store's proofs share, and a verified sort
//! of keyed row identifiers.

use vstd::prelude::*;
use vstd::relations::*;
use vstd::seq_lib::*;

verus! {

/// A row's place in an ordered query: its sort key, then its identifier.
pub type Keyed = (u64, i64);

/// Orders keyed rows by key, and rows of equal key by identifier.
pub open spec fn key_leq() -> spec_fn(Keyed, Keyed) -> bool {
    |a: Keyed, b: Keyed| a.0 < b.0 || (a.0 == b.0 && a.1 <= b.1)
}

pub proof fn lemma_key_leq_total()
    ensures
        total_ordering(key_leq()),
{
    let r = key_leq();
    assert(reflexive(r));
    assert(antisymmetric(r));
    assert(transitive(r));
    assert(strongly_connected(r));
}

/// Sorts keyed rows by key, ties by identifier.
pub fn sort_keys(v: &Vec<Keyed>) -> (r: Vec<Keyed>)
    ensures
        r@ == v@.sort_by(key_leq()),
        r@.len() == v@.len(),
{
    broadcast use group_to_multiset_ensures;

    let mut out: Vec<Keyed> = Vec::new();
    let mut i: usize = 0;
    while i < v.len()
        invariant
            i <= v.len(),
            out@.len() == i,
            sorted_by(out@, key_leq()),
            out@.to_multiset() == v@.take(i as int).to_multiset(),
        decreases v.len() - i,
    {
        let x = v[i];
        let mut j: usize = 0;
        while j < out.len() && (out[j].0 < x.0 || (out[j].0 == x.0 && out[j].1 <= x.1))
            invariant
                j <= out.len(),
                forall|k: int| 0 <= k < j ==> #[trigger] key_leq()(out@[k], x),
            decreases out.len() - j,
        {
            j += 1;
        }
        let ghost before = out@;
        out.insert(j, x);
        proof {
            assert(v@.take(i + 1) =~= v@.take(i as int).push(x));
            assert(out@ == before.insert(j as int, x));
            to_multiset_insert(before, j as int, x);
            to_multiset_build(v@.take(i as int), x);
            assert forall|a: int, b: int| 0 <= a < b < out@.len() implies #[trigger] key_leq()(
                out@[a],
                out@[b],
            ) by {
                if b < j {
                    assert(key_leq()(before[a], before[b]));
                } else if b == j {
                    assert(key_leq()(before[a], x));
                } else if a == j {
                    assert(!key_leq()(before[j as int], x));
                    if b - 1 > j {
                        assert(key_leq()(before[j as int], before[b - 1]));
                    }
                } else if a < j {
                    assert(key_leq()(before[a], before[b - 1]));
                } else {
                    assert(key_leq()(before[a - 1], before[b - 1]));
                }
            }
        }
        i += 1;
    }
    proof {
        assert(v@.take(v@.len() as int) =~= v@);
        lemma_key_leq_total();
        v@.lemma_sort_by_ensures(key_leq());
        lemma_sorted_unique(out@, v@.sort_by(key_leq()), key_leq());
    }
    out
}

/// The first `limit` of `s`, or all of it.
pub open spec fn at_most<T>(s: Seq<T>, limit: nat) -> Seq<T> {
    if limit < s.len() {
        s.take(limit as int)
    } else {
        s
    }
}

/// Taking one more element appends it.
pub proof fn lemma_take_succ<T>(s: Seq<T>, i: int)
    requires
        0 <= i < s.len(),
    ensures
        s.take(i + 1) == s.take(i).push(s[i]),
{
    assert(s.take(i + 1) =~= s.take(i).push(s[i]));
}

/// Filtering one more element keeps it exactly when the predicate holds.
pub proof fn lemma_filter_take_succ<T>(s: Seq<T>, p: spec_fn(T) -> bool, i: int)
    requires
        0 <= i < s.len(),
    ensures
        s.take(i + 1).filter(p) == (if p(s[i]) {
            s.take(i).filter(p).push(s[i])
        } else {
            s.take(i).filter(p)
        }),
{
    lemma_take_succ(s, i);
    s.take(i).lemma_filter_push(s[i], p);
}

/// The filter of a prefix is a prefix of the filter.
pub proof fn lemma_filter_prefix<T>(s: Seq<T>, p: spec_fn(T) -> bool, i: int)
    requires
        0 <= i <= s.len(),
    ensures
        s.take(i).filter(p).len() <= s.filter(p).len(),
        s.take(i).filter(p) == s.filter(p).take(s.take(i).filter(p).len() as int),
    decreases s.len() - i,
{
    if i == s.len() {
        assert(s.take(i) =~= s);
        assert(s.filter(p).take(s.filter(p).len() as int) =~= s.filter(p));
    } else {
        lemma_filter_take_succ(s, p, i);
        lemma_filter_prefix(s, p, i + 1);
        let n = s.take(i).filter(p).len() as int;
        let next = s.take(i + 1).filter(p);
        assert(s.take(i).filter(p) =~= next.take(n));
        assert(next.take(n) =~= s.filter(p).take(next.len() as int).take(n));
        assert(s.filter(p).take(next.len() as int).take(n) =~= s.filter(p).take(n));
    }
}

/// Every element that a filter keeps stood in the sequence and meets the predicate.
pub proof fn lemma_filter_member<T>(s: Seq<T>, p: spec_fn(T) -> bool, k: int)
    requires
        0 <= k < s.filter(p).len(),
    ensures
        p(s.filter(p)[k]),
        exists|i: int| 0 <= i < s.len() && s[i] == s.filter(p)[k],
    decreases s.len(),
{
    reveal(Seq::filter);
    if s.len() > 0 {
        let rest = s.drop_last();
        if k < rest.filter(p).len() {
            lemma_filter_member(rest, p, k);
            let i = choose|i: int| 0 <= i < rest.len() && rest[i] == rest.filter(p)[k];
            assert(s[i] == s.filter(p)[k]);
        } else {
            assert(s[s.len() - 1] == s.filter(p)[k]);
        }
    }
}

/// Every element that meets the predicate is kept by the filter.
pub proof fn lemma_filter_keeps<T>(s: Seq<T>, p: spec_fn(T) -> bool, i: int)
    requires
        0 <= i < s.len(),
        p(s[i]),
    ensures
        exists|k: int| 0 <= k < s.filter(p).len() && s.filter(p)[k] == s[i],
    decreases s.len(),
{
    reveal(Seq::filter);
    let rest = s.drop_last();
    if i < s.len() - 1 {
        lemma_filter_keeps(rest, p, i);
        let k = choose|k: int| 0 <= k < rest.filter(p).len() && rest.filter(p)[k] == rest[i];
        assert(s.filter(p)[k] == s[i]);
    } else {
        let k = rest.filter(p).len() as int;
        assert(s.filter(p)[k] == s[i]);
    }
}

/// A filter that every element passes changes nothing.
pub proof fn lemma_filter_all<T>(s: Seq<T>, p: spec_fn(T) -> bool)
    requires
        forall|i: int| 0 <= i < s.len() ==> p(#[trigger] s[i]),
    ensures
        s.filter(p) == s,
    decreases s.len(),
{
    reveal(Seq::filter);
    if s.len() > 0 {
        let rest = s.drop_last();
        assert forall|i: int| 0 <= i < rest.len() implies p(#[trigger] rest[i]) by {
            assert(rest[i] == s[i]);
        }
        lemma_filter_all(rest, p);
        assert(rest.push(s.last()) =~= s);
    } else {
        assert(s.filter(p) =~= s);
    }
}

/// True when `key` grows strictly along `s`.
pub open spec fn increasing_by<T>(s: Seq<T>, key: spec_fn(T) -> int) -> bool {
    forall|i: int, j: int| 0 <= i < j < s.len() ==> key(#[trigger] s[i]) < key(#[trigger] s[j])
}

/// True when no two elements of `s` share a key.
pub open spec fn distinct_by<T, K>(s: Seq<T>, key: spec_fn(T) -> K) -> bool {
    forall|i: int, j: int| 0 <= i < j < s.len() ==> key(#[trigger] s[i]) != key(#[trigger] s[j])
}

/// A filter keeps a strictly growing key strictly growing.
pub proof fn lemma_filter_increasing<T>(s: Seq<T>, key: spec_fn(T) -> int, p: spec_fn(T) -> bool)
    requires
        increasing_by(s, key),
    ensures
        increasing_by(s.filter(p), key),
    decreases s.len(),
{
    reveal(Seq::filter);
    if s.len() > 0 {
        let rest = s.drop_last();
        assert(increasing_by(rest, key)) by {
            assert forall|i: int, j: int| 0 <= i < j < rest.len() implies key(#[trigger] rest[i])
                < key(#[trigger] rest[j]) by {
                assert(rest[i] == s[i] && rest[j] == s[j]);
            }
        }
        lemma_filter_increasing(rest, key, p);
        let f = s.filter(p);
        assert forall|i: int, j: int| 0 <= i < j < f.len() implies key(#[trigger] f[i]) < key(
            #[trigger] f[j],
        ) by {
            if j < rest.filter(p).len() {
                assert(f[i] == rest.filter(p)[i] && f[j] == rest.filter(p)[j]);
            } else {
                lemma_filter_member(rest, p, i);
                let a = choose|a: int| 0 <= a < rest.len() && rest[a] == rest.filter(p)[i];
                assert(s[a] == f[i]);
                assert(f[j] == s[s.len() - 1]);
            }
        }
    }
}

/// A filter keeps keys distinct.
pub proof fn lemma_filter_distinct<T, K>(s: Seq<T>, key: spec_fn(T) -> K, p: spec_fn(T) -> bool)
    requires
        distinct_by(s, key),
    ensures
        distinct_by(s.filter(p), key),
    decreases s.len(),
{
    reveal(Seq::filter);
    if s.len() > 0 {
        let rest = s.drop_last();
        assert(distinct_by(rest, key)) by {
            assert forall|i: int, j: int| 0 <= i < j < rest.len() implies key(#[trigger] rest[i])
                != key(#[trigger] rest[j]) by {
                assert(rest[i] == s[i] && rest[j] == s[j]);
            }
        }
        lemma_filter_distinct(rest, key, p);
        let f = s.filter(p);
        assert forall|i: int, j: int| 0 <= i < j < f.len() implies key(#[trigger] f[i]) != key(
            #[trigger] f[j],
        ) by {
            if j < rest.filter(p).len() {
                assert(f[i] == rest.filter(p)[i] && f[j] == rest.filter(p)[j]);
            } else {
                lemma_filter_member(rest, p, i);
                let a = choose|a: int| 0 <= a < rest.len() && rest[a] == rest.filter(p)[i];
                assert(s[a] == f[i]);
                assert(f[j] == s[s.len() - 1]);
            }
        }
    }
}

/// The first position of `s` whose element meets `p`, if any does.
#[verifier::opaque]
pub open spec fn position<T>(s: Seq<T>, p: spec_fn(T) -> bool) -> Option<int> {
    if exists|i: int| 0 <= i < s.len() && p(s[i]) {
        Some(choose|i: int| 0 <= i < s.len() && p(s[i]) && forall|j: int| 0 <= j < i ==> !p(s[j]))
    } else {
        None
    }
}

/// `position` finds `i` when `i` is the first position that meets `p`.
pub proof fn lemma_position_first<T>(s: Seq<T>, p: spec_fn(T) -> bool, i: int)
    requires
        0 <= i < s.len(),
        p(s[i]),
        forall|j: int| 0 <= j < i ==> !p(s[j]),
    ensures
        position(s, p) == Some(i),
{
    reveal(position);
    let w = choose|k: int| 0 <= k < s.len() && p(s[k]) && forall|j: int| 0 <= j < k ==> !p(s[j]);
    assert(0 <= w < s.len() && p(s[w]) && forall|j: int| 0 <= j < w ==> !p(s[j]));
    if w < i {
        assert(!p(s[w]));
    } else if i < w {
        assert(!p(s[i]));
    }
}

/// What `position` returns is a first position, or nothing meets `p`.
pub proof fn lemma_position<T>(s: Seq<T>, p: spec_fn(T) -> bool)
    ensures
        match position(s, p) {
            Some(i) => 0 <= i < s.len() && p(s[i]) && forall|j: int| 0 <= j < i ==> !p(s[j]),
            None => forall|j: int| 0 <= j < s.len() ==> !p(s[j]),
        },
{
    reveal(position);
    if exists|i: int| 0 <= i < s.len() && p(s[i]) {
        let i0 = choose|i: int| 0 <= i < s.len() && p(s[i]);
        lemma_first_exists(s, p, i0);
    }
}

proof fn lemma_first_exists<T>(s: Seq<T>, p: spec_fn(T) -> bool, i: int)
    requires
        0 <= i < s.len(),
        p(s[i]),
    ensures
        exists|k: int| 0 <= k < s.len() && p(s[k]) && forall|j: int| 0 <= j < k ==> !p(s[j]),
    decreases i,
{
    if exists|j: int| 0 <= j < i && p(s[j]) {
        let j = choose|j: int| 0 <= j < i && p(s[j]);
        lemma_first_exists(s, p, j);
    } else {
        assert(0 <= i < s.len() && p(s[i]) && forall|j: int| 0 <= j < i ==> !p(s[j]));
    }
}

} // verus!
