//! A parse-once cache from a value's canonical parameter string to the typed
//! parameters of its custom type.
use vstd::prelude::*;
use crate::pairs::canonical;
use crate::params::{canonical_key, parse_pairs, Params, TypeParams};
use crate::text::str_eq;

verus! {

/// The map held by a list of `(canonical key, typed params)` entries; a later
/// entry for the same key would win, though the cache never adds one.
pub open spec fn entries_map<P>(s: Seq<(Seq<char>, P)>) -> Map<Seq<char>, P>
    decreases s.len(),
{
    if s.len() == 0 {
        Map::empty()
    } else {
        entries_map(s.drop_last()).insert(s.last().0, s.last().1)
    }
}

/// The cache after a lookup of key `k` that gave `r`: `k` is cached with
/// `r`; nothing changed when it already was cached, else exactly that entry
/// was added.
pub open spec fn lookup_result<P>(old: Map<Seq<char>, P>, k: Seq<char>, r: P, new: Map<Seq<char>, P>) -> bool {
    &&& new.contains_key(k)
    &&& new[k] == r
    &&& old.contains_key(k) ==> new == old
    &&& !old.contains_key(k) ==> new == old.insert(k, r)
}

/// `new` holds every entry of `old`, unchanged.
pub open spec fn cache_grows<P>(old: Map<Seq<char>, P>, new: Map<Seq<char>, P>) -> bool {
    forall|j: Seq<char>| #[trigger] old.contains_key(j) ==> new.contains_key(j) && new[j] == old[j]
}

/// A lookup never changes or drops what was cached before it.
pub proof fn law_cache_keeps_entries<P>(m0: Map<Seq<char>, P>, m1: Map<Seq<char>, P>, k: Seq<char>, r: P)
    requires
        lookup_result(m0, k, r, m1),
    ensures
        cache_grows(m0, m1),
{
    assert forall|j: Seq<char>| m0.contains_key(j) implies m1.contains_key(j) && m1[j] == m0[j] by {
        if !m0.contains_key(k) {
            assert(j != k);
        }
    }
}

/// Any run of lookups keeps what was cached before it.
pub proof fn law_cache_grows_transitive<P>(m0: Map<Seq<char>, P>, m1: Map<Seq<char>, P>, m2: Map<Seq<char>, P>)
    requires
        cache_grows(m0, m1),
        cache_grows(m1, m2),
    ensures
        cache_grows(m0, m2),
{
    assert forall|j: Seq<char>| m0.contains_key(j) implies m2.contains_key(j) && m2[j] == m0[j] by {
        assert(m1.contains_key(j) && m1[j] == m0[j]);
    }
}

/// Parse once: once a key was looked up, a later lookup of the same key,
/// after any other lookups in between, changes nothing and gives the same
/// typed params as the first.
pub proof fn law_cache_parse_once<P>(
    m0: Map<Seq<char>, P>,
    m1: Map<Seq<char>, P>,
    mn: Map<Seq<char>, P>,
    mn1: Map<Seq<char>, P>,
    k: Seq<char>,
    r1: P,
    r2: P,
)
    requires
        lookup_result(m0, k, r1, m1),
        cache_grows(m1, mn),
        lookup_result(mn, k, r2, mn1),
    ensures
        mn1 == mn,
        r2 == r1,
{
}

/// A parse-once cache mapping a canonical params string to its typed form `P`.
/// Entries are kept in a vector under distinct keys: vstd specifies `HashMap`
/// lookups only for key types known to obey its hashing model, and `String`
/// is not among them.
pub struct TypeParamsCache<P> {
    entries: Vec<(String, P)>,
}

impl<P> TypeParamsCache<P> {
    spec fn entries_view(&self) -> Seq<(Seq<char>, P)> {
        self.entries@.map_values(|e: (String, P)| (e.0@, e.1))
    }

    /// Entries are stored under distinct keys.
    pub closed spec fn wf(&self) -> bool {
        forall|i: int, j: int|
            0 <= i < j < self.entries@.len() ==> (#[trigger] self.entries@[i]).0@
                != (#[trigger] self.entries@[j]).0@
    }
}

impl<P> View for TypeParamsCache<P> {
    type V = Map<Seq<char>, P>;

    closed spec fn view(&self) -> Map<Seq<char>, P> {
        entries_map(self.entries_view())
    }
}

proof fn lemma_entries_map_lookup<P>(s: Seq<(Seq<char>, P)>, i: int)
    requires
        0 <= i < s.len(),
        forall|a: int, b: int| 0 <= a < b < s.len() ==> (#[trigger] s[a]).0 != (#[trigger] s[b]).0,
    ensures
        entries_map(s).contains_key(s[i].0),
        entries_map(s)[s[i].0] == s[i].1,
    decreases s.len(),
{
    if i < s.len() - 1 {
        let d = s.drop_last();
        assert(d[i] == s[i]);
        assert forall|a: int, b: int| 0 <= a < b < d.len() implies (#[trigger] d[a]).0 != (#[trigger] d[b]).0 by {
            assert(d[a] == s[a] && d[b] == s[b]);
        }
        lemma_entries_map_lookup(d, i);
        assert(s[i].0 != s.last().0);
    }
}

proof fn lemma_entries_map_absent<P>(s: Seq<(Seq<char>, P)>, k: Seq<char>)
    requires
        forall|i: int| 0 <= i < s.len() ==> (#[trigger] s[i]).0 != k,
    ensures
        !entries_map(s).contains_key(k),
    decreases s.len(),
{
    if s.len() > 0 {
        let d = s.drop_last();
        assert forall|i: int| 0 <= i < d.len() implies (#[trigger] d[i]).0 != k by {
            assert(d[i] == s[i]);
        }
        lemma_entries_map_absent(d, k);
        assert(s[s.len() - 1].0 != k);
    }
}

impl<P> TypeParamsCache<P> {
    /// Create an empty cache.
    pub fn new() -> (r: Self)
        ensures
            r.wf(),
            r@ == Map::<Seq<char>, P>::empty(),
    {
        TypeParamsCache { entries: Vec::new() }
    }

    fn position(&self, key: &str) -> (r: Option<usize>)
        requires
            self.wf(),
        ensures
            match r {
                Some(i) => i < self.entries@.len() && self.entries@[i as int].0@ == key@
                    && self@.contains_key(key@) && self@[key@] == self.entries@[i as int].1,
                None => !self@.contains_key(key@) && forall|j: int|
                    0 <= j < self.entries@.len() ==> self.entries@[j].0@ != key@,
            },
    {
        let n = self.entries.len();
        for i in 0..n
            invariant
                n == self.entries@.len(),
                self.wf(),
                forall|j: int| 0 <= j < i ==> self.entries@[j].0@ != key@,
        {
            if str_eq(self.entries[i].0.as_str(), key) {
                proof {
                    let s = self.entries_view();
                    assert(s[i as int] == (self.entries@[i as int].0@, self.entries@[i as int].1));
                    assert forall|a: int, b: int| 0 <= a < b < s.len() implies (#[trigger] s[a]).0 != (#[trigger] s[b]).0 by {
                        assert(s[a].0 == self.entries@[a].0@);
                        assert(s[b].0 == self.entries@[b].0@);
                        assert(self.entries@[a].0@ != self.entries@[b].0@);
                    }
                    lemma_entries_map_lookup(s, i as int);
                }
                return Some(i);
            }
        }
        proof {
            let s = self.entries_view();
            assert forall|j: int| 0 <= j < s.len() implies (#[trigger] s[j]).0 != key@ by {
                assert(s[j].0 == self.entries@[j].0@);
            }
            lemma_entries_map_absent(s, key@);
        }
        None
    }

    /// Typed params for `raw`: the cached value for its canonical key, or, on
    /// the first sight of that key, `parse` applied to the parsed key, which
    /// is then cached.
    pub fn get<F>(&mut self, raw: &TypeParams, parse: F) -> (r: &P) where
        F: Fn(Params) -> P,

        requires
            old(self).wf(),
            forall|p: Params| call_requires(parse, (p,)),
        ensures
            final(self).wf(),
            lookup_result(old(self)@, canonical(raw@), *r, final(self)@),
            cache_grows(old(self)@, final(self)@),
            !old(self)@.contains_key(canonical(raw@)) ==> exists|p: Params|
                p@ == parse_pairs(canonical(raw@)) && call_ensures(parse, (p,), *r),
    {
        let key = canonical_key(raw);
        match self.position(key.as_str()) {
            Some(i) => &self.entries[i].1,
            None => {
                let parsed = parse(Params::parse(key.as_str()));
                let ghost old_entries = self.entries_view();
                let ghost key_view = key@;
                self.entries.push((key, parsed));
                let n = self.entries.len();
                proof {
                    let s = self.entries_view();
                    assert(s =~= old_entries.push((key_view, self.entries@[n - 1].1)));
                    assert(s.drop_last() =~= old_entries);
                    assert forall|a: int, b: int| 0 <= a < b < self.entries@.len() implies (#[trigger] self.entries@[a]).0@
                        != (#[trigger] self.entries@[b]).0@ by {
                        if b == n - 1 {
                            assert(self.entries@[a] == old(self).entries@[a]);
                        } else {
                            assert(self.entries@[a] == old(self).entries@[a]);
                            assert(self.entries@[b] == old(self).entries@[b]);
                        }
                    }
                }
                &self.entries[n - 1].1
            },
        }
    }
}

impl<P> Default for TypeParamsCache<P> {
    fn default() -> (r: Self)
        ensures
            r.wf(),
            r@ == Map::<Seq<char>, P>::empty(),
    {
        Self::new()
    }
}

} // verus!
