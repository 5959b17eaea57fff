//! Parsed views of a custom type's parameters: the canonical `key=value,...`
//! string the server hands to `resolve_params` ([`Params`]), and the pairs
//! attached to a column value ([`TypeParams`]).
use vstd::prelude::*;
use vstd::string::StringExecFns;
use crate::pairs::{
    canonical, canonical_params_string, entry, join, keep_key, lemma_stable_sort, lemma_sorted_unique,
    pairs_view, same_key_groups, sorted_by_key, stable_sort, PairView,
};
use crate::text::{char_len, decimal, push_char, push_i64, push_u64, signed_decimal, str_eq};
use vstd::utf8::encode_utf8;

verus! {

/// The pieces of `s` between the separators `sep` (as `str::split`): one
/// piece for a text without `sep`, an empty piece after a trailing `sep`.
pub open spec fn split(s: Seq<char>, sep: char) -> Seq<Seq<char>>
    decreases s.len(),
{
    if s.len() == 0 {
        seq![seq![]]
    } else {
        let parts = split(s.drop_last(), sep);
        if s.last() == sep {
            parts.push(seq![])
        } else {
            parts.update(parts.len() - 1, parts.last().push(s.last()))
        }
    }
}

/// `e` cut at its first `=` (as `str::split_once('=')`), or `None` without `=`.
pub open spec fn split_at_eq(e: Seq<char>) -> Option<PairView>
    decreases e.len(),
{
    if e.len() == 0 {
        None
    } else {
        match split_at_eq(e.drop_last()) {
            Some(p) => Some((p.0, p.1.push(e.last()))),
            None => if e.last() == '=' {
                Some((e.drop_last(), seq![]))
            } else {
                None
            },
        }
    }
}

/// One entry as a pair: cut at the first `=`; an entry without `=` is a key
/// with an empty value.
pub open spec fn entry_pair(e: Seq<char>) -> PairView {
    match split_at_eq(e) {
        Some(p) => p,
        None => (e, seq![]),
    }
}

/// The pairs of a params string: none for the empty string, otherwise one
/// per `,`-separated entry, in order.
pub open spec fn parse_pairs(s: Seq<char>) -> Seq<PairView> {
    if s.len() == 0 {
        seq![]
    } else {
        split(s, ',').map_values(|e: Seq<char>| entry_pair(e))
    }
}

/// The value of the first pair whose key is `key`.
pub open spec fn lookup(ps: Seq<PairView>, key: Seq<char>) -> Option<Seq<char>>
    decreases ps.len(),
{
    if ps.len() == 0 {
        None
    } else if ps[0].0 == key {
        Some(ps[0].1)
    } else {
        lookup(ps.drop_first(), key)
    }
}

pub proof fn lemma_split_nonempty(s: Seq<char>, sep: char)
    ensures
        split(s, sep).len() >= 1,
    decreases s.len(),
{
    if s.len() > 0 {
        lemma_split_nonempty(s.drop_last(), sep);
    }
}

fn find_first<'a>(pairs: &Vec<(&'a str, &'a str)>, key: &str) -> (r: Option<&'a str>)
    ensures
        match r {
            Some(v) => lookup(pairs_view(pairs@), key@) == Some(v@),
            None => lookup(pairs_view(pairs@), key@) is None,
        },
{
    let n = pairs.len();
    assert(pairs_view(pairs@).skip(0) =~= pairs_view(pairs@));
    for i in 0..n
        invariant
            n == pairs@.len(),
            lookup(pairs_view(pairs@), key@) == lookup(pairs_view(pairs@).skip(i as int), key@),
    {
        let (k, v) = pairs[i];
        assert(pairs_view(pairs@).skip(i as int)[0] == (k@, v@));
        if str_eq(k, key) {
            return Some(v);
        }
        assert(pairs_view(pairs@).skip(i as int).drop_first() =~= pairs_view(pairs@).skip(i + 1));
    }
    None
}

fn copy_pairs<'a>(pairs: &Vec<(&'a str, &'a str)>) -> (r: Vec<(&'a str, &'a str)>)
    ensures
        r@ == pairs@,
{
    let mut out: Vec<(&'a str, &'a str)> = Vec::new();
    let n = pairs.len();
    for i in 0..n
        invariant
            n == pairs@.len(),
            out@ == pairs@.take(i as int),
    {
        out.push(pairs[i]);
        assert(out@ =~= pairs@.take(i + 1));
    }
    assert(pairs@.take(n as int) =~= pairs@);
    out
}

/// Parsed, borrowed view of a custom type's canonical parameter string
/// (`key=value,key=value,...`). Borrows the input, so there are no copies.
#[derive(Debug)]
pub struct Params<'a> {
    pairs: Vec<(&'a str, &'a str)>,
}

impl<'a> View for Params<'a> {
    type V = Seq<PairView>;

    closed spec fn view(&self) -> Seq<PairView> {
        pairs_view(self.pairs@)
    }
}

/// How the scan of `s` tracks the first `=` of the entry `s[start..i]`.
spec fn eq_tracked(s: Seq<char>, start: int, i: int, eq: Option<usize>) -> bool {
    match split_at_eq(s.subrange(start, i)) {
        None => eq is None,
        Some(p) => eq matches Some(j) && start <= j < i && p == (
            s.subrange(start, j as int),
            s.subrange(j + 1, i),
        ),
    }
}

fn entry_at<'a>(s: &'a str, start: usize, eq: Option<usize>, end: usize) -> (r: (&'a str, &'a str))
    requires
        start <= end <= s@.len(),
        eq_tracked(s@, start as int, end as int, eq),
    ensures
        (r.0@, r.1@) == entry_pair(s@.subrange(start as int, end as int)),
{
    match eq {
        Some(j) => (s.substring_char(start, j), s.substring_char(j + 1, end)),
        None => {
            let empty = "";
            proof {
                reveal_strlit("");
                assert(empty@ =~= Seq::<char>::empty());
            }
            (s.substring_char(start, end), empty)
        },
    }
}

impl<'a> Params<'a> {
    /// Parse a canonical params string. An empty string yields no params; an
    /// entry with no `=` becomes a key with an empty value.
    pub fn parse(s: &'a str) -> (r: Self)
        ensures
            r@ == parse_pairs(s@),
    {
        let n = char_len(s);
        let mut pairs: Vec<(&'a str, &'a str)> = Vec::new();
        if n == 0 {
            assert(pairs_view(pairs@) =~= parse_pairs(s@));
            return Params { pairs };
        }
        let mut start: usize = 0;
        let mut i: usize = 0;
        let mut eq: Option<usize> = None;
        proof {
            assert(s@.take(0) =~= Seq::<char>::empty());
            assert(pairs_view(pairs@) =~= split(s@.take(0), ',').drop_last().map_values(
                |e: Seq<char>| entry_pair(e),
            ));
            assert(s@.subrange(0, 0) =~= Seq::<char>::empty());
        }
        for c in it: s.chars()
            invariant
                i == it.index(),
                it.seq() == s@,
                n == s@.len(),
                start <= i,
                pairs_view(pairs@) == split(s@.take(i as int), ',').drop_last().map_values(
                    |e: Seq<char>| entry_pair(e),
                ),
                split(s@.take(i as int), ',').last() == s@.subrange(start as int, i as int),
                eq_tracked(s@, start as int, i as int, eq),
        {
            assert(c == s@[i as int]);
            let ghost parts = split(s@.take(i as int), ',');
            proof {
                lemma_split_nonempty(s@.take(i as int), ',');
                assert(s@.take(i + 1).drop_last() =~= s@.take(i as int));
                assert(s@.subrange(start as int, i + 1).drop_last() =~= s@.subrange(
                    start as int,
                    i as int,
                ));
            }
            if c == ',' {
                let pair = entry_at(s, start, eq, i);
                let ghost old_pairs = pairs@;
                pairs.push(pair);
                proof {
                    assert(parts.push(seq![]).drop_last() =~= parts);
                    assert(pairs_view(pairs@) =~= pairs_view(old_pairs).push(entry_pair(parts.last())));
                    assert(parts.map_values(|e: Seq<char>| entry_pair(e)) =~= parts.drop_last().map_values(
                        |e: Seq<char>| entry_pair(e),
                    ).push(entry_pair(parts.last())));
                    assert(pairs_view(pairs@) =~= parts.map_values(|e: Seq<char>| entry_pair(e)));
                    assert(s@.subrange(i + 1, i + 1) =~= Seq::<char>::empty());
                }
                start = i + 1;
                eq = None;
            } else {
                proof {
                    let q = parts.update(parts.len() - 1, parts.last().push(c));
                    assert(q.drop_last() =~= parts.drop_last());
                    assert(s@.subrange(start as int, i + 1) =~= s@.subrange(start as int, i as int).push(c));
                }
                if c == '=' && eq.is_none() {
                    eq = Some(i);
                    proof {
                        assert(s@.subrange(i + 1, i + 1) =~= Seq::<char>::empty());
                    }
                } else {
                    proof {
                        if let Some(j) = eq {
                            assert(s@.subrange(j + 1, i + 1) =~= s@.subrange(j + 1, i as int).push(c));
                        }
                    }
                }
            }
            i = i + 1;
        }
        proof {
            assert(s@.take(n as int) =~= s@);
            lemma_split_nonempty(s@, ',');
        }
        let last = entry_at(s, start, eq, n);
        let ghost old_pairs = pairs@;
        pairs.push(last);
        proof {
            let parts = split(s@, ',');
            assert(pairs_view(pairs@) =~= pairs_view(old_pairs).push(entry_pair(parts.last())));
            assert(parts.map_values(|e: Seq<char>| entry_pair(e)) =~= parts.drop_last().map_values(
                |e: Seq<char>| entry_pair(e),
            ).push(entry_pair(parts.last())));
            assert(pairs_view(pairs@) =~= parts.map_values(|e: Seq<char>| entry_pair(e)));
        }
        Params { pairs }
    }

    /// Look up one parameter value by key (the first pair with that key).
    pub fn get(&self, key: &str) -> (r: Option<&'a str>)
        ensures
            match r {
                Some(v) => lookup(self@, key@) == Some(v@),
                None => lookup(self@, key@) is None,
            },
    {
        find_first(&self.pairs, key)
    }

    /// Every `(key, value)` pair, in order.
    pub fn iter(&self) -> (r: Vec<(&'a str, &'a str)>)
        ensures
            pairs_view(r@) == self@,
    {
        copy_pairs(&self.pairs)
    }

    /// Number of parameters.
    pub fn len(&self) -> (r: usize)
        ensures
            r == self@.len(),
    {
        self.pairs.len()
    }

    /// True when there are no parameters.
    pub fn is_empty(&self) -> (r: bool)
        ensures
            r == (self@.len() == 0),
    {
        self.pairs.len() == 0
    }
}

/// Type parameters that may or may not be known yet.
///
/// On the row-time path a custom value's params are already known. On the
/// inference path (a bare constant with no column to anchor it) they start
/// unknown, and the type's `encode` fn infers them and calls [`MaybeParams::set`].
pub struct MaybeParams<P> {
    params: Option<P>,
}

impl<P> View for MaybeParams<P> {
    type V = Option<P>;

    closed spec fn view(&self) -> Option<P> {
        self.params
    }
}

impl<P> MaybeParams<P> {
    /// Construct in the unknown state (params to be inferred).
    pub fn empty() -> (r: Self)
        ensures
            r@ is None,
    {
        MaybeParams { params: None }
    }

    /// Construct in the known state.
    pub fn present(params: P) -> (r: Self)
        ensures
            r@ == Some(params),
    {
        MaybeParams { params: Some(params) }
    }

    /// True if the params are already known.
    pub fn is_known(&self) -> (r: bool)
        ensures
            r == self@ is Some,
    {
        self.params.is_some()
    }

    /// The params, if known.
    pub fn get(&self) -> (r: Option<&P>)
        ensures
            match r {
                Some(p) => self@ == Some(*p),
                None => self@ is None,
            },
    {
        match &self.params {
            Some(p) => Some(p),
            None => None,
        }
    }

    /// Record the inferred params (unknown becomes known).
    pub fn set(&mut self, params: P)
        ensures
            final(self)@ == Some(params),
    {
        self.params = Some(params);
    }
}

/// Read-only view of a parameterized custom value's parameters, as the
/// `(key, value)` pairs the server attached to it (canonical pairs such as
/// `dimension=536`).
#[derive(Clone, Debug)]
pub struct TypeParams<'a> {
    pairs: Vec<(&'a str, &'a str)>,
}

impl<'a> View for TypeParams<'a> {
    type V = Seq<PairView>;

    closed spec fn view(&self) -> Seq<PairView> {
        pairs_view(self.pairs@)
    }
}

impl<'a> TypeParams<'a> {
    /// The parameters given as pairs, in the server's order.
    pub fn from_pairs(pairs: Vec<(&'a str, &'a str)>) -> (r: Self)
        ensures
            r@ == pairs_view(pairs@),
    {
        TypeParams { pairs }
    }

    /// How many parameters there are. Zero for non-parameterized types.
    pub fn len(&self) -> (r: usize)
        ensures
            r == self@.len(),
    {
        self.pairs.len()
    }

    /// True when there are no parameters.
    pub fn is_empty(&self) -> (r: bool)
        ensures
            r == (self@.len() == 0),
    {
        self.pairs.len() == 0
    }

    /// Look up one parameter by name (the first pair with that key).
    pub fn get(&self, key: &str) -> (r: Option<&'a str>)
        ensures
            match r {
                Some(v) => lookup(self@, key@) == Some(v@),
                None => lookup(self@, key@) is None,
            },
    {
        find_first(&self.pairs, key)
    }

    /// Every `(key, value)` pair, in order.
    pub fn iter(&self) -> (r: Vec<(&'a str, &'a str)>)
        ensures
            pairs_view(r@) == self@,
    {
        copy_pairs(&self.pairs)
    }
}

/// The canonical string of a value's parameters: the cache key of a
/// parameterized type.
pub fn canonical_key(raw: &TypeParams) -> (r: String)
    ensures
        r@ == canonical(raw@),
{
    canonical_params_string(raw.pairs.as_slice())
}

/// The view of owned pairs.
pub open spec fn owned_pairs_view(s: Seq<(String, String)>) -> Seq<PairView> {
    s.map_values(|p: (String, String)| (p.0@, p.1@))
}

fn borrow_pairs(pairs: &[(String, String)]) -> (r: Vec<(&str, &str)>)
    ensures
        pairs_view(r@) == owned_pairs_view(pairs@),
{
    let mut out: Vec<(&str, &str)> = Vec::new();
    let n = pairs.len();
    for i in 0..n
        invariant
            n == pairs@.len(),
            pairs_view(out@) == owned_pairs_view(pairs@.take(i as int)),
    {
        let (k, v) = &pairs[i];
        let ghost old_out = out@;
        out.push((k.as_str(), v.as_str()));
        assert(pairs_view(out@) =~= pairs_view(old_out).push((k@, v@)));
        assert(owned_pairs_view(pairs@.take(i + 1)) =~= owned_pairs_view(pairs@.take(i as int)).push(
            (k@, v@),
        ));
    }
    assert(pairs@.take(n as int) =~= pairs@);
    out
}

/// The UTF-8 bytes of the canonical string of `ps`.
pub open spec fn canonical_bytes(ps: Seq<PairView>) -> Seq<u8> {
    encode_utf8(canonical(ps))
}

/// Serialize inferred type parameters into `buf` as canonical
/// `key=value,...` (keys sorted). Writes what fits and returns the full
/// length needed and whether it did not all fit.
pub fn write_inferred_params(buf: &mut [u8], pairs: &[(String, String)]) -> (r: (usize, bool))
    ensures
        r.0 == canonical_bytes(owned_pairs_view(pairs@)).len(),
        r.1 == (r.0 > old(buf)@.len()),
        final(buf)@.len() == old(buf)@.len(),
        ({
            let n = if r.1 { old(buf)@.len() as int } else { r.0 as int };
            final(buf)@ == canonical_bytes(owned_pairs_view(pairs@)).take(n) + old(buf)@.skip(n)
        }),
{
    let refs = borrow_pairs(pairs);
    let joined = canonical_params_string(refs.as_slice());
    let bytes = joined.as_str().as_bytes();
    let needed = bytes.len();
    let cap = buf.len();
    let n = if needed < cap {
        needed
    } else {
        cap
    };
    assert(buf@ =~= bytes@.take(0) + old(buf)@.skip(0));
    for i in 0..n
        invariant
            n <= bytes@.len(),
            n <= cap,
            cap == old(buf)@.len(),
            buf@.len() == cap,
            bytes@ == canonical_bytes(owned_pairs_view(pairs@)),
            buf@ == bytes@.take(i as int) + old(buf)@.skip(i as int),
    {
        buf[i] = bytes[i];
        assert(buf@ =~= bytes@.take(i + 1) + old(buf)@.skip(i + 1));
    }
    (needed, needed > cap)
}

/// What `resolve_params` answers: `<persisted>,<max_decode>` for the const
/// form; for the rewriting form that, then `,` and the byte length of the
/// canonical params, then `,` and the canonical params when there are any.
pub open spec fn wire_text(
    persisted_length: int,
    max_decode_buffer_length: int,
    rewritten: Option<Seq<PairView>>,
) -> Seq<char> {
    let base = signed_decimal(persisted_length) + seq![','] + signed_decimal(
        max_decode_buffer_length,
    );
    match rewritten {
        None => base,
        Some(ps) => {
            let c = canonical(ps);
            base + seq![','] + decimal(encode_utf8(c).len()) + if c.len() == 0 {
                Seq::<char>::empty()
            } else {
                seq![','] + c
            }
        },
    }
}

/// The outcome of a parameterized type's `resolve_params`: the resolved
/// storage sizes, and optionally a rewritten parameter set (for example to
/// fill defaults) that the server persists in place of the input.
pub struct Resolved {
    persisted_length: i64,
    max_decode_buffer_length: i64,
    rewritten: Option<Vec<(String, String)>>,
}

impl Resolved {
    /// The persisted length.
    pub closed spec fn spec_persisted_length(&self) -> int {
        self.persisted_length as int
    }

    /// The upper bound on the decoded string length.
    pub closed spec fn spec_max_decode_buffer_length(&self) -> int {
        self.max_decode_buffer_length as int
    }

    /// The rewritten parameters, if any.
    pub closed spec fn spec_rewritten(&self) -> Option<Seq<PairView>> {
        match self.rewritten {
            Some(v) => Some(owned_pairs_view(v@)),
            None => None,
        }
    }

    /// The const form: just the resolved sizes. Params left unchanged.
    pub fn new(persisted_length: i64, max_decode_buffer_length: i64) -> (r: Self)
        ensures
            r.spec_persisted_length() == persisted_length,
            r.spec_max_decode_buffer_length() == max_decode_buffer_length,
            r.spec_rewritten() is None,
    {
        Resolved { persisted_length, max_decode_buffer_length, rewritten: None }
    }

    /// The mutating form: resolved sizes plus a rewritten param set that
    /// replaces the input (for example to fill defaults).
    pub fn rewrite(
        persisted_length: i64,
        max_decode_buffer_length: i64,
        params: Vec<(String, String)>,
    ) -> (r: Self)
        ensures
            r.spec_persisted_length() == persisted_length,
            r.spec_max_decode_buffer_length() == max_decode_buffer_length,
            r.spec_rewritten() == Some(owned_pairs_view(params@)),
    {
        Resolved { persisted_length, max_decode_buffer_length, rewritten: Some(params) }
    }

    /// Serialize to the string form the server expects from `resolve_params`:
    /// const `<p>,<m>`; mutating `<p>,<m>,<byte-len>[,<canonical params>]`.
    pub fn to_wire_string(&self) -> (r: String)
        ensures
            r@ == wire_text(
                self.spec_persisted_length(),
                self.spec_max_decode_buffer_length(),
                self.spec_rewritten(),
            ),
    {
        let mut out = String::new();
        push_i64(&mut out, self.persisted_length);
        push_char(&mut out, ',');
        push_i64(&mut out, self.max_decode_buffer_length);
        let ghost base = out@;
        match &self.rewritten {
            None => {
                assert(out@ =~= wire_text(
                    self.spec_persisted_length(),
                    self.spec_max_decode_buffer_length(),
                    self.spec_rewritten(),
                ));
            },
            Some(pairs) => {
                let refs = borrow_pairs(pairs.as_slice());
                let canonical_text = canonical_params_string(refs.as_slice());
                let byte_len = canonical_text.as_str().as_bytes().len();
                push_char(&mut out, ',');
                push_u64(&mut out, byte_len as u64);
                if char_len(canonical_text.as_str()) > 0 {
                    push_char(&mut out, ',');
                    out.append(canonical_text.as_str());
                }
                assert(out@ =~= wire_text(
                    self.spec_persisted_length(),
                    self.spec_max_decode_buffer_length(),
                    self.spec_rewritten(),
                ));
            },
        }
        out
    }
}

/// Pairs that survive a trip through their canonical text: no key holds `,`
/// or `=`, and no value holds `,`.
pub open spec fn plain_pairs(ps: Seq<PairView>) -> bool {
    forall|i: int|
        0 <= i < ps.len() ==> !(#[trigger] ps[i]).0.contains(',') && !ps[i].0.contains('=')
            && !ps[i].1.contains(',')
}

proof fn lemma_split_append_plain(x: Seq<char>, y: Seq<char>, sep: char)
    requires
        !y.contains(sep),
    ensures
        split(x + y, sep) == split(x, sep).update(
            split(x, sep).len() - 1,
            split(x, sep).last() + y,
        ),
    decreases y.len(),
{
    lemma_split_nonempty(x, sep);
    if y.len() == 0 {
        assert(x + y =~= x);
        assert(split(x, sep).last() + y =~= split(x, sep).last());
        assert(split(x, sep).update(split(x, sep).len() - 1, split(x, sep).last()) =~= split(x, sep));
    } else {
        let y0 = y.drop_last();
        assert(!y0.contains(sep)) by {
            if y0.contains(sep) {
                let j = choose|j: int| 0 <= j < y0.len() && y0[j] == sep;
                assert(y[j] == sep);
            }
        }
        assert(y.last() != sep) by {
            assert(y[y.len() - 1] == y.last());
        }
        lemma_split_append_plain(x, y0, sep);
        assert((x + y).drop_last() =~= x + y0);
        assert((x + y).last() == y.last());
        let sx = split(x, sep);
        let parts = sx.update(sx.len() - 1, sx.last() + y0);
        assert(split((x + y).drop_last(), sep) == parts);
        assert(parts.len() == sx.len());
        assert(parts.last() == sx.last() + y0);
        assert((sx.last() + y0).push(y.last()) =~= sx.last() + y);
        assert(split(x + y, sep) == parts.update(parts.len() - 1, parts.last().push((x + y).last())));
        assert(split(x, sep).update(split(x, sep).len() - 1, split(x, sep).last() + y0).update(
            split(x, sep).len() - 1,
            split(x, sep).last() + y,
        ) =~= split(x, sep).update(split(x, sep).len() - 1, split(x, sep).last() + y));
    }
}

proof fn lemma_split_join(es: Seq<Seq<char>>, sep: char)
    requires
        es.len() >= 1,
        forall|i: int| 0 <= i < es.len() ==> !(#[trigger] es[i]).contains(sep),
    ensures
        split(join(es, sep), sep) == es,
    decreases es.len(),
{
    if es.len() == 1 {
        let e = es[0];
        assert(Seq::<char>::empty() + e =~= e);
        lemma_split_append_plain(Seq::<char>::empty(), e, sep);
        assert(split(Seq::<char>::empty(), sep) =~= seq![Seq::<char>::empty()]);
        assert(seq![Seq::<char>::empty()].update(0, Seq::<char>::empty() + e) =~= es);
    } else {
        let d = es.drop_last();
        assert forall|i: int| 0 <= i < d.len() implies !(#[trigger] d[i]).contains(sep) by {
            assert(d[i] == es[i]);
        }
        lemma_split_join(d, sep);
        let x = join(d, sep) + seq![sep];
        assert(x.drop_last() =~= join(d, sep));
        assert(split(x, sep) == d.push(seq![]));
        assert(!es.last().contains(sep)) by {
            assert(es[es.len() - 1] == es.last());
        }
        lemma_split_append_plain(x, es.last(), sep);
        assert(Seq::<char>::empty() + es.last() =~= es.last());
        assert(d.push(seq![]).update(d.len() as int, es.last()) =~= es);
    }
}

proof fn lemma_no_eq_split(x: Seq<char>)
    requires
        !x.contains('='),
    ensures
        split_at_eq(x) is None,
    decreases x.len(),
{
    if x.len() > 0 {
        assert(!x.drop_last().contains('=')) by {
            if x.drop_last().contains('=') {
                let j = choose|j: int| 0 <= j < x.drop_last().len() && x.drop_last()[j] == '=';
                assert(x[j] == '=');
            }
        }
        assert(x[x.len() - 1] == x.last());
        lemma_no_eq_split(x.drop_last());
    }
}

proof fn lemma_entry_pair(k: Seq<char>, v: Seq<char>)
    requires
        !k.contains('='),
    ensures
        entry_pair(k + seq!['='] + v) == (k, v),
        split_at_eq(k + seq!['='] + v) == Some((k, v)),
    decreases v.len(),
{
    let e = k + seq!['='] + v;
    if v.len() == 0 {
        assert(e.drop_last() =~= k);
        lemma_no_eq_split(k);
        assert(e.last() == '=');
    } else {
        lemma_entry_pair(k, v.drop_last());
        assert(e.drop_last() =~= k + seq!['='] + v.drop_last());
        assert(v.drop_last().push(e.last()) =~= v);
    }
}

proof fn lemma_keep_key_member(s: Seq<PairView>, k: Seq<char>, x: PairView)
    requires
        keep_key(s, k).contains(x),
    ensures
        s.contains(x),
    decreases s.len(),
{
    if s.len() > 0 {
        let r = keep_key(s.drop_last(), k);
        if s.last().0 == k && x == s.last() {
            assert(s[s.len() - 1] == x);
        } else {
            if s.last().0 == k {
                let j = choose|j: int| 0 <= j < keep_key(s, k).len() && keep_key(s, k)[j] == x;
                assert(r.push(s.last())[j] == x);
                assert(j < r.len());
                assert(r[j] == x);
            }
            lemma_keep_key_member(s.drop_last(), k, x);
            let i = choose|i: int| 0 <= i < s.drop_last().len() && s.drop_last()[i] == x;
            assert(s[i] == x);
        }
    }
}

proof fn lemma_keep_key_has(s: Seq<PairView>, j: int)
    requires
        0 <= j < s.len(),
    ensures
        keep_key(s, s[j].0).contains(s[j]),
    decreases s.len(),
{
    let k = s[j].0;
    if j == s.len() - 1 {
        assert(keep_key(s, k).last() == s[j]);
        assert(keep_key(s, k)[keep_key(s, k).len() - 1] == s[j]);
    } else {
        lemma_keep_key_has(s.drop_last(), j);
        assert(s.drop_last()[j] == s[j]);
        let r = keep_key(s.drop_last(), k);
        let i = choose|i: int| 0 <= i < r.len() && r[i] == s[j];
        if s.last().0 == k {
            assert(keep_key(s, k)[i] == s[j]);
        }
    }
}

/// The stable sort holds exactly the pairs of its input.
pub proof fn lemma_stable_sort_members(ps: Seq<PairView>, j: int)
    requires
        0 <= j < stable_sort(ps).len(),
    ensures
        ps.contains(stable_sort(ps)[j]),
{
    lemma_stable_sort(ps);
    let t = stable_sort(ps);
    lemma_keep_key_has(t, j);
    assert(keep_key(t, t[j].0) == keep_key(ps, t[j].0));
    lemma_keep_key_member(ps, t[j].0, t[j]);
}

proof fn lemma_join_len(es: Seq<Seq<char>>, sep: char)
    requires
        es.len() >= 1,
    ensures
        join(es, sep).len() >= es.last().len(),
{
}

/// Parsing the canonical text of plain pairs gives back the pairs, in
/// canonical order.
pub proof fn law_parse_canonical(ps: Seq<PairView>)
    requires
        plain_pairs(ps),
    ensures
        parse_pairs(canonical(ps)) == stable_sort(ps),
{
    lemma_stable_sort(ps);
    let t = stable_sort(ps);
    let es = t.map_values(|p: PairView| entry(p));
    if t.len() == 0 {
        assert(es.len() == 0);
        assert(parse_pairs(canonical(ps)) =~= t);
    } else {
        assert forall|i: int| 0 <= i < es.len() implies !(#[trigger] es[i]).contains(',') by {
            lemma_stable_sort_members(ps, i);
            let m = choose|m: int| 0 <= m < ps.len() && ps[m] == t[i];
            assert(!ps[m].0.contains(',') && !ps[m].1.contains(','));
            if es[i].contains(',') {
                let c = choose|c: int| 0 <= c < es[i].len() && es[i][c] == ',';
                if c < t[i].0.len() {
                    assert(t[i].0[c] == ',');
                } else if c > t[i].0.len() {
                    assert(t[i].1[c - t[i].0.len() - 1] == ',');
                }
            }
        }
        lemma_split_join(es, ',');
        lemma_join_len(es, ',');
        assert(es.last() == es[es.len() - 1]);
        assert(canonical(ps).len() > 0);
        assert forall|i: int| 0 <= i < t.len() implies entry_pair(#[trigger] es[i]) == t[i] by {
            lemma_stable_sort_members(ps, i);
            let m = choose|m: int| 0 <= m < ps.len() && ps[m] == t[i];
            assert(!ps[m].0.contains('='));
            lemma_entry_pair(t[i].0, t[i].1);
        }
        assert(parse_pairs(canonical(ps)) =~= t);
    }
}

/// Sorting what is already in canonical order changes nothing.
pub proof fn law_stable_sort_idempotent(ps: Seq<PairView>)
    ensures
        stable_sort(stable_sort(ps)) == stable_sort(ps),
{
    lemma_stable_sort(ps);
    let t = stable_sort(ps);
    lemma_stable_sort(t);
    assert(same_key_groups(t, t));
}

/// Reordering pairs, while pairs that share a key keep their relative order,
/// does not change the canonical text.
pub proof fn law_canonical_order_independent(a: Seq<PairView>, b: Seq<PairView>)
    requires
        same_key_groups(a, b),
    ensures
        canonical(a) == canonical(b),
{
    lemma_stable_sort(a);
    lemma_stable_sort(b);
    let ta = stable_sort(a);
    assert(same_key_groups(ta, b)) by {
        assert forall|k: Seq<char>| #[trigger] keep_key(ta, k) == keep_key(b, k) by {
            assert(keep_key(ta, k) == keep_key(a, k));
            assert(keep_key(a, k) == keep_key(b, k));
        }
    }
}

/// The canonical text is a fixed point: parsing it and rendering the result
/// again gives the same text.
pub proof fn law_canonical_fixed_point(ps: Seq<PairView>)
    requires
        plain_pairs(ps),
    ensures
        canonical(parse_pairs(canonical(ps))) == canonical(ps),
{
    law_parse_canonical(ps);
    law_stable_sort_idempotent(ps);
}

} // verus!
