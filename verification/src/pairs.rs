//! Key/value parameter lists and their canonical order: pairs sorted by key
//! (by UTF-8 bytes), pairs that share a key keeping their relative order.
use vstd::prelude::*;
use crate::text::{key_lt, lemma_key_order, push_char, str_lt};
use vstd::string::StringExecFns;

verus! {

/// A parameter pair as characters: `(key, value)`.
pub type PairView = (Seq<char>, Seq<char>);

/// The view of borrowed pairs.
pub open spec fn pairs_view<'a>(s: Seq<(&'a str, &'a str)>) -> Seq<PairView> {
    s.map_values(|p: (&'a str, &'a str)| (p.0@, p.1@))
}

/// The pairs of `s` whose key is `k`, in order.
pub open spec fn keep_key(s: Seq<PairView>, k: Seq<char>) -> Seq<PairView>
    decreases s.len(),
{
    if s.len() == 0 {
        seq![]
    } else if s.last().0 == k {
        keep_key(s.drop_last(), k).push(s.last())
    } else {
        keep_key(s.drop_last(), k)
    }
}

/// `t` and `s` hold the same pairs, and pairs that share a key come in the same order.
pub open spec fn same_key_groups(t: Seq<PairView>, s: Seq<PairView>) -> bool {
    forall|k: Seq<char>| #[trigger] keep_key(t, k) == keep_key(s, k)
}

/// Keys never decrease along `t`.
pub open spec fn sorted_by_key(t: Seq<PairView>) -> bool {
    forall|i: int, j: int| 0 <= i < j < t.len() ==> !key_lt(#[trigger] t[j].0, #[trigger] t[i].0)
}

/// The stable sort of `s` by key: the sequence sorted by key that keeps, for
/// every key, the pairs with that key in their order in `s`. It exists and is
/// unique (`lemma_stable_sort`).
pub open spec fn stable_sort(s: Seq<PairView>) -> Seq<PairView> {
    choose|t: Seq<PairView>| sorted_by_key(t) && same_key_groups(t, s)
}

pub proof fn lemma_keep_key_concat(a: Seq<PairView>, b: Seq<PairView>, k: Seq<char>)
    ensures
        keep_key(a + b, k) == keep_key(a, k) + keep_key(b, k),
    decreases b.len(),
{
    if b.len() == 0 {
        assert(a + b =~= a);
        assert(keep_key(a, k) + keep_key(b, k) =~= keep_key(a, k));
    } else {
        assert((a + b).drop_last() =~= a + b.drop_last());
        assert((a + b).last() == b.last());
        lemma_keep_key_concat(a, b.drop_last(), k);
        if b.last().0 == k {
            assert(keep_key(a, k) + keep_key(b, k) =~= (keep_key(a, k) + keep_key(b.drop_last(), k)).push(b.last()));
        }
    }
}

pub proof fn lemma_keep_key_absent(s: Seq<PairView>, k: Seq<char>)
    requires
        forall|j: int| 0 <= j < s.len() ==> s[j].0 != k,
    ensures
        keep_key(s, k) == Seq::<PairView>::empty(),
    decreases s.len(),
{
    if s.len() > 0 {
        lemma_keep_key_absent(s.drop_last(), k);
    }
}

pub proof fn lemma_keep_key_present(s: Seq<PairView>, k: Seq<char>)
    requires
        keep_key(s, k).len() > 0,
    ensures
        exists|j: int| 0 <= j < s.len() && s[j].0 == k,
    decreases s.len(),
{
    if s.last().0 != k {
        lemma_keep_key_present(s.drop_last(), k);
        let j = choose|j: int| 0 <= j < s.drop_last().len() && s.drop_last()[j].0 == k;
        assert(s[j].0 == k);
    } else {
        assert(s[s.len() - 1].0 == k);
    }
}

/// Inserting `x` at a position `p` that splits a sorted `t` into keys not above
/// `x`'s and keys above it keeps `t` sorted and adds `x` last to its key group.
pub proof fn lemma_insert_sorted(t: Seq<PairView>, s: Seq<PairView>, x: PairView, p: int)
    requires
        sorted_by_key(t),
        same_key_groups(t, s),
        0 <= p <= t.len(),
        forall|j: int| 0 <= j < p ==> !key_lt(x.0, #[trigger] t[j].0),
        forall|j: int| p <= j < t.len() ==> key_lt(x.0, #[trigger] t[j].0),
    ensures
        sorted_by_key(t.insert(p, x)),
        same_key_groups(t.insert(p, x), s.push(x)),
{
    let u = t.insert(p, x);
    assert forall|i: int, j: int| 0 <= i < j < u.len() implies !key_lt(#[trigger] u[j].0, #[trigger] u[i].0) by {
        if i < p && j == p {
            assert(u[i] == t[i]);
        } else if i == p {
            assert(u[j] == t[j - 1]);
            lemma_key_order(x.0, t[j - 1].0, x.0);
        } else if j < p {
            assert(u[i] == t[i] && u[j] == t[j]);
        } else if i < p {
            assert(u[i] == t[i] && u[j] == t[j - 1]);
            lemma_key_order(x.0, t[j - 1].0, x.0);
            lemma_key_order(t[j - 1].0, t[i].0, x.0);
            lemma_key_order(t[j - 1].0, x.0, t[i].0);
        } else {
            assert(u[i] == t[i - 1] && u[j] == t[j - 1]);
        }
    }
    assert forall|k: Seq<char>| #[trigger] keep_key(u, k) == keep_key(s.push(x), k) by {
        let a = t.take(p);
        let b = t.skip(p);
        assert(u =~= a + seq![x] + b);
        assert(t =~= a + b);
        lemma_keep_key_concat(a + seq![x], b, k);
        lemma_keep_key_concat(a, seq![x], k);
        lemma_keep_key_concat(a, b, k);
        assert(seq![x].drop_last() =~= Seq::<PairView>::empty());
        assert(s.push(x).drop_last() =~= s);
        if x.0 == k {
            assert forall|j: int| 0 <= j < b.len() implies b[j].0 != k by {
                assert(b[j] == t[p + j]);
                lemma_key_order(x.0, x.0, x.0);
            }
            lemma_keep_key_absent(b, k);
            assert(keep_key(seq![x], k) == keep_key(seq![x].drop_last(), k).push(x));
            assert(keep_key(seq![x], k) =~= seq![x]);
            assert(keep_key(a, k) + keep_key(seq![x], k) + keep_key(b, k) =~= (keep_key(a, k)
                + keep_key(b, k)).push(x));
        } else {
            assert(keep_key(seq![x], k) == keep_key(seq![x].drop_last(), k));
            assert(keep_key(a, k) + keep_key(seq![x], k) + keep_key(b, k) =~= keep_key(a, k)
                + keep_key(b, k));
        }
    }
}

/// Two sequences sorted by key with the same key groups are equal.
pub proof fn lemma_sorted_unique(t1: Seq<PairView>, t2: Seq<PairView>)
    requires
        sorted_by_key(t1),
        sorted_by_key(t2),
        same_key_groups(t1, t2),
    ensures
        t1 == t2,
    decreases t1.len() + t2.len(),
{
    if t1.len() == 0 && t2.len() == 0 {
        assert(t1 =~= t2);
    } else if t1.len() == 0 {
        let k = t2.last().0;
        assert(keep_key(t2, k).len() > 0);
        assert(keep_key(t1, k) =~= Seq::<PairView>::empty());
    } else if t2.len() == 0 {
        let k = t1.last().0;
        assert(keep_key(t1, k).len() > 0);
        assert(keep_key(t2, k) =~= Seq::<PairView>::empty());
    } else {
        let k1 = t1.last().0;
        let k2 = t2.last().0;
        assert(keep_key(t1, k1).len() > 0);
        assert(keep_key(t2, k1) == keep_key(t1, k1));
        lemma_keep_key_present(t2, k1);
        let j2 = choose|j: int| 0 <= j < t2.len() && t2[j].0 == k1;
        assert(!key_lt(k2, k1)) by {
            if j2 < t2.len() - 1 {
                assert(!key_lt(t2[t2.len() - 1].0, t2[j2].0));
            } else {
                lemma_key_order(k1, k1, k1);
            }
        }
        assert(keep_key(t2, k2).len() > 0);
        assert(keep_key(t1, k2) == keep_key(t2, k2));
        lemma_keep_key_present(t1, k2);
        let j1 = choose|j: int| 0 <= j < t1.len() && t1[j].0 == k2;
        assert(!key_lt(k1, k2)) by {
            if j1 < t1.len() - 1 {
                assert(!key_lt(t1[t1.len() - 1].0, t1[j1].0));
            } else {
                lemma_key_order(k2, k2, k2);
            }
        }
        lemma_key_order(k1, k2, k1);
        assert(k1 == k2);
        assert(keep_key(t1, k1).last() == t1.last());
        assert(keep_key(t2, k1).last() == t2.last());
        let d1 = t1.drop_last();
        let d2 = t2.drop_last();
        assert forall|k: Seq<char>| #[trigger] keep_key(d1, k) == keep_key(d2, k) by {
            assert(keep_key(t1, k) == keep_key(t2, k));
            if k == k1 {
                assert(keep_key(d1, k) =~= keep_key(t1, k).drop_last());
                assert(keep_key(d2, k) =~= keep_key(t2, k).drop_last());
            }
        }
        assert(sorted_by_key(d1)) by {
            assert forall|i: int, j: int| 0 <= i < j < d1.len() implies !key_lt(#[trigger] d1[j].0, #[trigger] d1[i].0) by {
                assert(d1[i] == t1[i] && d1[j] == t1[j]);
            }
        }
        assert(sorted_by_key(d2)) by {
            assert forall|i: int, j: int| 0 <= i < j < d2.len() implies !key_lt(#[trigger] d2[j].0, #[trigger] d2[i].0) by {
                assert(d2[i] == t2[i] && d2[j] == t2[j]);
            }
        }
        lemma_sorted_unique(d1, d2);
        assert(t1 =~= d1.push(t1.last()));
        assert(t2 =~= d2.push(t2.last()));
    }
}

/// The position after the last pair of a sorted `t` whose key is not above `k`.
pub open spec fn insertion_point(t: Seq<PairView>, k: Seq<char>) -> int
    decreases t.len(),
{
    if t.len() == 0 {
        0
    } else if key_lt(k, t.last().0) {
        insertion_point(t.drop_last(), k)
    } else {
        t.len() as int
    }
}

proof fn lemma_insertion_point(t: Seq<PairView>, k: Seq<char>)
    requires
        sorted_by_key(t),
    ensures
        0 <= insertion_point(t, k) <= t.len(),
        forall|j: int| 0 <= j < insertion_point(t, k) ==> !key_lt(k, #[trigger] t[j].0),
        forall|j: int| insertion_point(t, k) <= j < t.len() ==> key_lt(k, #[trigger] t[j].0),
    decreases t.len(),
{
    if t.len() > 0 {
        let d = t.drop_last();
        assert(sorted_by_key(d)) by {
            assert forall|i: int, j: int| 0 <= i < j < d.len() implies !key_lt(#[trigger] d[j].0, #[trigger] d[i].0) by {
                assert(d[i] == t[i] && d[j] == t[j]);
            }
        }
        lemma_insertion_point(d, k);
        if key_lt(k, t.last().0) {
            assert forall|j: int| insertion_point(t, k) <= j < t.len() implies key_lt(k, #[trigger] t[j].0) by {
                if j < t.len() - 1 {
                    assert(t[j] == d[j]);
                }
            }
            assert forall|j: int| 0 <= j < insertion_point(t, k) implies !key_lt(k, #[trigger] t[j].0) by {
                assert(t[j] == d[j]);
            }
        } else {
            assert forall|j: int| 0 <= j < insertion_point(t, k) implies !key_lt(k, #[trigger] t[j].0) by {
                if j < t.len() - 1 {
                    lemma_key_order(k, t[j].0, t.last().0);
                    lemma_key_order(t.last().0, t[j].0, k);
                    lemma_key_order(k, t.last().0, t[j].0);
                }
            }
        }
    }
}

spec fn insertion_sort(s: Seq<PairView>) -> Seq<PairView>
    decreases s.len(),
{
    if s.len() == 0 {
        seq![]
    } else {
        let t = insertion_sort(s.drop_last());
        t.insert(insertion_point(t, s.last().0), s.last())
    }
}

proof fn lemma_insertion_sort(s: Seq<PairView>)
    ensures
        sorted_by_key(insertion_sort(s)),
        same_key_groups(insertion_sort(s), s),
    decreases s.len(),
{
    if s.len() == 0 {
        assert forall|k: Seq<char>| #[trigger] keep_key(insertion_sort(s), k) == keep_key(s, k) by {}
    } else {
        let d = s.drop_last();
        lemma_insertion_sort(d);
        let t = insertion_sort(d);
        lemma_insertion_point(t, s.last().0);
        lemma_insert_sorted(t, d, s.last(), insertion_point(t, s.last().0));
        assert(d.push(s.last()) =~= s);
    }
}

/// The stable sort exists, is sorted, has the key groups of its input, and is
/// the only such sequence.
pub proof fn lemma_stable_sort(s: Seq<PairView>)
    ensures
        sorted_by_key(stable_sort(s)),
        same_key_groups(stable_sort(s), s),
        forall|t: Seq<PairView>| sorted_by_key(t) && same_key_groups(t, s) ==> t == stable_sort(s),
{
    lemma_insertion_sort(s);
    let w = insertion_sort(s);
    assert(sorted_by_key(w) && same_key_groups(w, s));
    let r = stable_sort(s);
    assert forall|t: Seq<PairView>| sorted_by_key(t) && same_key_groups(t, s) implies t == r by {
        assert(same_key_groups(t, r));
        lemma_sorted_unique(t, r);
    }
}

/// The text of one pair: `key=value`.
pub open spec fn entry(p: PairView) -> Seq<char> {
    p.0 + seq!['='] + p.1
}

/// The pieces of `es` joined by `sep` (nothing for no pieces).
pub open spec fn join(es: Seq<Seq<char>>, sep: char) -> Seq<char>
    decreases es.len(),
{
    if es.len() == 0 {
        seq![]
    } else if es.len() == 1 {
        es[0]
    } else {
        join(es.drop_last(), sep) + seq![sep] + es.last()
    }
}

/// The canonical text of a parameter list: its pairs in stable key order,
/// each as `key=value`, separated by `,`.
pub open spec fn canonical(ps: Seq<PairView>) -> Seq<char> {
    join(stable_sort(ps).map_values(|p: PairView| entry(p)), ',')
}

/// Sorts pairs by key, stably.
pub fn sort_pairs<'a>(pairs: &[(&'a str, &'a str)]) -> (r: Vec<(&'a str, &'a str)>)
    ensures
        pairs_view(r@) == stable_sort(pairs_view(pairs@)),
{
    let mut out: Vec<(&'a str, &'a str)> = Vec::new();
    let n = pairs.len();
    assert(pairs_view(pairs@.take(0)) =~= Seq::<PairView>::empty());
    assert forall|k: Seq<char>| #[trigger] keep_key(pairs_view(out@), k) == keep_key(pairs_view(pairs@.take(0)), k) by {
        assert(pairs_view(out@) =~= Seq::<PairView>::empty());
    }
    for i in 0..n
        invariant
            n == pairs@.len(),
            sorted_by_key(pairs_view(out@)),
            same_key_groups(pairs_view(out@), pairs_view(pairs@.take(i as int))),
    {
        let x = pairs[i];
        let mut p = out.len();
        while p > 0 && str_lt(x.0, out[p - 1].0)
            invariant
                p <= out@.len(),
                forall|j: int| p <= j < out@.len() ==> key_lt(x.0@, #[trigger] pairs_view(out@)[j].0),
            decreases p,
        {
            p = p - 1;
        }
        let ghost t = pairs_view(out@);
        let ghost xv: PairView = (x.0@, x.1@);
        proof {
            if p > 0 {
                assert forall|j: int| 0 <= j < p implies !key_lt(xv.0, #[trigger] t[j].0) by {
                    if j < p - 1 {
                        lemma_key_order(xv.0, t[j].0, t[p - 1].0);
                        lemma_key_order(t[p - 1].0, t[j].0, xv.0);
                        lemma_key_order(xv.0, t[p - 1].0, t[j].0);
                    }
                }
            }
            lemma_insert_sorted(t, pairs_view(pairs@.take(i as int)), xv, p as int);
            assert(pairs_view(out@.insert(p as int, x)) =~= t.insert(p as int, xv));
            assert(pairs_view(pairs@.take(i + 1)) =~= pairs_view(pairs@.take(i as int)).push(xv));
        }
        out.insert(p, x);
    }
    proof {
        assert(pairs@.take(n as int) =~= pairs@);
        lemma_stable_sort(pairs_view(pairs@));
    }
    out
}

/// The canonical `key=value,key=value` text of `pairs`: keys sorted by their
/// bytes, pairs that share a key kept in their order.
pub fn canonical_params_string(pairs: &[(&str, &str)]) -> (r: String)
    ensures
        r@ == canonical(pairs_view(pairs@)),
{
    let sorted = sort_pairs(pairs);
    let ghost es = stable_sort(pairs_view(pairs@)).map_values(|p: PairView| entry(p));
    let mut out = String::new();
    let n = sorted.len();
    for i in 0..n
        invariant
            n == sorted@.len(),
            pairs_view(sorted@) == stable_sort(pairs_view(pairs@)),
            es == stable_sort(pairs_view(pairs@)).map_values(|p: PairView| entry(p)),
            out@ == join(es.take(i as int), ','),
    {
        let (k, v) = sorted[i];
        let ghost before = out@;
        if i > 0 {
            push_char(&mut out, ',');
        }
        out.append(k);
        push_char(&mut out, '=');
        out.append(v);
        proof {
            assert(es[i as int] == entry((k@, v@)));
            assert(es.take(i + 1).drop_last() =~= es.take(i as int));
            if i > 0 {
                assert(out@ =~= before + seq![','] + es[i as int]);
            } else {
                assert(out@ =~= es[0]);
            }
        }
    }
    proof {
        assert(es.take(n as int) =~= es);
    }
    out
}

} // verus!
