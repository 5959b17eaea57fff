//! The SQL-callable functions every custom type gets (`TYPE::from_string`,
//! `TYPE::to_string`, `TYPE::compare`, `TYPE::hash`, and for parameterized
//! types `TYPE::int_to_params`, `TYPE::resolve_params`,
//! `TYPE::intrinsic_default`): how each reads its arguments, calls the type's
//! own function, and answers.
use vstd::prelude::*;
use vstd::string::StringExecFns;
use crate::cache::TypeParamsCache;
use crate::pairs::canonical;
use crate::params::{
    canonical_bytes, canonical_key, owned_pairs_view, parse_pairs, write_inferred_params, MaybeParams,
    Params, Resolved, TypeParams,
};
use crate::runtime::{
    result_written, write_result, InValue, InferredParamsSlot, RawValue, ResultKind, ResultSlot,
    TypeId, VdfReturn,
};

verus! {

/// The message a type VDF answers an argument of the wrong kind with:
/// `<type>::<vdf>: expected <KIND> argument`.
pub open spec fn usage_message(sql_type: Seq<char>, suffix: Seq<char>) -> Seq<char> {
    sql_type + suffix
}

fn usage_error(sql_type: &str, suffix: &str) -> (r: VdfReturn)
    ensures
        r matches VdfReturn::Error(m) && m@ == usage_message(sql_type@, suffix@),
{
    let mut m = String::from_str(sql_type);
    m.append(suffix);
    VdfReturn::Error(m)
}

/// What an encoder's outcome is answered with.
pub open spec fn encoded_answer(res: Result<Vec<u8>, String>) -> VdfReturn {
    match res {
        Ok(b) => VdfReturn::Binary(b),
        Err(e) => VdfReturn::Error(e),
    }
}

/// What a text-producing function's outcome is answered with.
pub open spec fn text_answer(res: Result<String, String>) -> VdfReturn {
    match res {
        Ok(s) => VdfReturn::String(s),
        Err(e) => VdfReturn::Error(e),
    }
}

/// `TYPE::from_string(STRING) -> CUSTOM`: encodes a string argument, answers
/// NULL for a NULL or missing argument, and an error for any other kind.
pub fn from_string_vdf<E>(sql_type: &str, args: &[InValue], encode: E) -> (r: VdfReturn) where
    E: Fn(&str) -> Result<Vec<u8>, String>,

    requires
        forall|s: &str| call_requires(encode, (s,)),
    ensures
        args@.len() == 0 ==> r is Null,
        args@.len() > 0 ==> match args@[0] {
            InValue::String(s) => exists|res: Result<Vec<u8>, String>|
                call_ensures(encode, (s,), res) && r == encoded_answer(res),
            InValue::Null => r is Null,
            _ => r matches VdfReturn::Error(m) && m@ == usage_message(
                sql_type@,
                "::from_string: expected STRING argument"@,
            ),
        },
{
    if args.len() == 0 {
        return VdfReturn::Null;
    }
    match &args[0] {
        InValue::String(s) => {
            let res = encode(*s);
            let ghost outcome = res;
            let r = match res {
                Ok(bytes) => VdfReturn::Binary(bytes),
                Err(e) => VdfReturn::Error(e),
            };
            assert(call_ensures(encode, (*s,), outcome) && r == encoded_answer(outcome));
            r
        },
        InValue::Null => VdfReturn::Null,
        _ => usage_error(sql_type, "::from_string: expected STRING argument"),
    }
}

/// `TYPE::to_string(CUSTOM) -> STRING`: decodes a custom argument, answers
/// NULL for a NULL or missing argument, and an error for any other kind.
pub fn to_string_vdf<D>(sql_type: &str, args: &[InValue], decode: D) -> (r: VdfReturn) where
    D: Fn(&[u8]) -> Result<String, String>,

    requires
        forall|b: &[u8]| call_requires(decode, (b,)),
    ensures
        args@.len() == 0 ==> r is Null,
        args@.len() > 0 ==> match args@[0] {
            InValue::Custom(b) => exists|res: Result<String, String>|
                call_ensures(decode, (b,), res) && r == text_answer(res),
            InValue::Null => r is Null,
            _ => r matches VdfReturn::Error(m) && m@ == usage_message(
                sql_type@,
                "::to_string: expected CUSTOM argument"@,
            ),
        },
{
    if args.len() == 0 {
        return VdfReturn::Null;
    }
    match &args[0] {
        InValue::Custom(b) => {
            let res = decode(*b);
            let ghost outcome = res;
            let r = match res {
                Ok(s) => VdfReturn::String(s),
                Err(e) => VdfReturn::Error(e),
            };
            assert(call_ensures(decode, (*b,), outcome) && r == text_answer(outcome));
            r
        },
        InValue::Null => VdfReturn::Null,
        _ => usage_error(sql_type, "::to_string: expected CUSTOM argument"),
    }
}

/// `-1`, `0` or `1` for a three-way comparison.
pub open spec fn ordering_value(o: core::cmp::Ordering) -> int {
    match o {
        core::cmp::Ordering::Less => -1,
        core::cmp::Ordering::Equal => 0,
        core::cmp::Ordering::Greater => 1,
    }
}

fn ordering_to_int(o: core::cmp::Ordering) -> (r: i64)
    ensures
        r == ordering_value(o),
{
    match o {
        core::cmp::Ordering::Less => -1,
        core::cmp::Ordering::Equal => 0,
        core::cmp::Ordering::Greater => 1,
    }
}

/// `TYPE::compare(CUSTOM, CUSTOM) -> INT`: `-1`, `0` or `1` for two custom
/// arguments, NULL otherwise.
pub fn compare_vdf<C>(args: &[InValue], compare: C) -> (r: VdfReturn) where
    C: Fn(&[u8], &[u8]) -> core::cmp::Ordering,

    requires
        forall|a: &[u8], b: &[u8]| call_requires(compare, (a, b)),
    ensures
        (args@.len() >= 2 && args@[0] is Custom && args@[1] is Custom) ==> exists|
            o: core::cmp::Ordering,
        |
            call_ensures(compare, (args@[0]->Custom_0, args@[1]->Custom_0), o) && (r
                matches VdfReturn::Int(v) && v == ordering_value(o)),
        !(args@.len() >= 2 && args@[0] is Custom && args@[1] is Custom) ==> r is Null,
{
    if args.len() < 2 {
        return VdfReturn::Null;
    }
    match (&args[0], &args[1]) {
        (InValue::Custom(a), InValue::Custom(b)) => VdfReturn::Int(ordering_to_int(compare(a, b))),
        _ => VdfReturn::Null,
    }
}

/// `TYPE::hash(CUSTOM) -> INT`: the type's hash of a custom argument, NULL
/// for a NULL or missing argument, an error for any other kind.
pub fn hash_vdf<H>(sql_type: &str, args: &[InValue], hash: H) -> (r: VdfReturn) where
    H: Fn(&[u8]) -> usize,

    requires
        forall|b: &[u8]| call_requires(hash, (b,)),
    ensures
        args@.len() == 0 ==> r is Null,
        args@.len() > 0 ==> match args@[0] {
            InValue::Custom(b) => exists|h: usize| call_ensures(hash, (b,), h) && r == VdfReturn::Int(h as i64),
            InValue::Null => r is Null,
            _ => r matches VdfReturn::Error(m) && m@ == usage_message(
                sql_type@,
                "::hash: expected CUSTOM argument"@,
            ),
        },
{
    if args.len() == 0 {
        return VdfReturn::Null;
    }
    match &args[0] {
        InValue::Custom(b) => {
            let h = hash(*b);
            VdfReturn::Int(h as i64)
        },
        InValue::Null => VdfReturn::Null,
        _ => usage_error(sql_type, "::hash: expected CUSTOM argument"),
    }
}

/// `TYPE::int_to_params(INT) -> STRING`: the params string for an integer
/// argument, NULL for a NULL or missing argument, an error otherwise.
pub fn int_to_params_vdf<I>(sql_type: &str, args: &[InValue], to_params: I) -> (r: VdfReturn) where
    I: Fn(i64) -> Result<String, String>,

    requires
        forall|n: i64| call_requires(to_params, (n,)),
    ensures
        args@.len() == 0 ==> r is Null,
        args@.len() > 0 ==> match args@[0] {
            InValue::Int(n) => exists|res: Result<String, String>|
                call_ensures(to_params, (n,), res) && r == text_answer(res),
            InValue::Null => r is Null,
            _ => r matches VdfReturn::Error(m) && m@ == usage_message(
                sql_type@,
                "::int_to_params: expected INT argument"@,
            ),
        },
{
    if args.len() == 0 {
        return VdfReturn::Null;
    }
    match &args[0] {
        InValue::Int(n) => {
            let res = to_params(*n);
            let ghost outcome = res;
            let r = match res {
                Ok(s) => VdfReturn::String(s),
                Err(e) => VdfReturn::Error(e),
            };
            assert(call_ensures(to_params, (*n,), outcome) && r == text_answer(outcome));
            r
        },
        InValue::Null => VdfReturn::Null,
        _ => usage_error(sql_type, "::int_to_params: expected INT argument"),
    }
}

/// `TYPE::resolve_params(STRING) -> STRING`: parses the params string, hands
/// it to the type's resolver and answers its wire string; NULL for a NULL or
/// missing argument, an error for any other kind.
pub fn resolve_params_vdf<R>(sql_type: &str, args: &[InValue], resolve: R) -> (r: VdfReturn) where
    R: Fn(Params) -> Result<Resolved, String>,

    requires
        forall|p: Params| call_requires(resolve, (p,)),
    ensures
        args@.len() == 0 ==> r is Null,
        args@.len() > 0 ==> match args@[0] {
            InValue::String(s) => exists|p: Params, res: Result<Resolved, String>|
                p@ == parse_pairs(s@) && call_ensures(resolve, (p,), res) && match res {
                    Ok(rv) => r matches VdfReturn::String(w) && w@ == crate::params::wire_text(
                        rv.spec_persisted_length(),
                        rv.spec_max_decode_buffer_length(),
                        rv.spec_rewritten(),
                    ),
                    Err(e) => r == VdfReturn::Error(e),
                },
            InValue::Null => r is Null,
            _ => r matches VdfReturn::Error(m) && m@ == usage_message(
                sql_type@,
                "::resolve_params: expected STRING argument"@,
            ),
        },
{
    if args.len() == 0 {
        return VdfReturn::Null;
    }
    match &args[0] {
        InValue::String(s) => {
            let params = Params::parse(*s);
            let ghost pv = params@;
            let res = resolve(params);
            match res {
                Ok(resolved) => VdfReturn::String(resolved.to_wire_string()),
                Err(e) => VdfReturn::Error(e),
            }
        },
        InValue::Null => VdfReturn::Null,
        _ => usage_error(sql_type, "::resolve_params: expected STRING argument"),
    }
}

/// The cache after looking up the params of a value whose canonical key is
/// `k`: unchanged when `k` was cached, else grown by exactly that key.
pub open spec fn cache_looked_up<P>(old: Map<Seq<char>, P>, k: Seq<char>, new: Map<Seq<char>, P>) -> bool {
    &&& new.contains_key(k)
    &&& old.contains_key(k) ==> new == old
    &&& !old.contains_key(k) ==> new == old.insert(k, new[k])
}

/// Typed `TYPE::to_string(CUSTOM) -> STRING`: decodes a custom argument with
/// the typed params of its column (from `cache`), NULL for a NULL or missing
/// argument, an error for any other kind.
pub fn to_string_typed_vdf<P, Pa, D>(
    sql_type: &str,
    args: &[InValue],
    cache: &mut TypeParamsCache<P>,
    parse: Pa,
    decode: D,
) -> (r: VdfReturn) where Pa: Fn(Params) -> P, D: Fn(&[u8], &P) -> Result<String, String>,

    requires
        old(cache).wf(),
        forall|p: Params| call_requires(parse, (p,)),
        forall|b: &[u8], p: &P| call_requires(decode, (b, p)),
    ensures
        final(cache).wf(),
        args@.len() > 0 && args@[0] is CustomWithParams ==> ({
            let k = canonical(args@[0]->params@);
            &&& cache_looked_up(old(cache)@, k, final(cache)@)
            &&& exists|res: Result<String, String>|
                call_ensures(decode, (args@[0]->bytes, &final(cache)@[k]), res) && r
                    == text_answer(res)
        }),
        !(args@.len() > 0 && args@[0] is CustomWithParams) ==> final(cache)@ == old(cache)@,
        args@.len() == 0 ==> r is Null,
        args@.len() > 0 && args@[0] is Null ==> r is Null,
        args@.len() > 0 && !(args@[0] is Null) && !(args@[0] is CustomWithParams) ==> (r matches VdfReturn::Error(m)
            && m@ == usage_message(sql_type@, "::to_string: expected CUSTOM argument"@)),
{
    if args.len() == 0 {
        return VdfReturn::Null;
    }
    match &args[0] {
        InValue::CustomWithParams { bytes, params } => {
            let p = cache.get(params, parse);
            let res = decode(*bytes, p);
            let ghost outcome = res;
            let r = match res {
                Ok(s) => VdfReturn::String(s),
                Err(e) => VdfReturn::Error(e),
            };
            assert(r == text_answer(outcome));
            r
        },
        InValue::Null => VdfReturn::Null,
        _ => usage_error(sql_type, "::to_string: expected CUSTOM argument"),
    }
}

/// Typed `TYPE::compare(CUSTOM, CUSTOM) -> INT`: compares two custom
/// arguments under the typed params of the first one's column; NULL otherwise.
pub fn compare_typed_vdf<P, Pa, C>(
    args: &[InValue],
    cache: &mut TypeParamsCache<P>,
    parse: Pa,
    compare: C,
) -> (r: VdfReturn) where Pa: Fn(Params) -> P, C: Fn(&[u8], &[u8], &P) -> core::cmp::Ordering,

    requires
        old(cache).wf(),
        forall|p: Params| call_requires(parse, (p,)),
        forall|a: &[u8], b: &[u8], p: &P| call_requires(compare, (a, b, p)),
    ensures
        final(cache).wf(),
        (args@.len() >= 2 && args@[0] is CustomWithParams && args@[1] is CustomWithParams) ==> ({
            let k = canonical(args@[0]->params@);
            &&& cache_looked_up(old(cache)@, k, final(cache)@)
            &&& exists|o: core::cmp::Ordering|
                call_ensures(compare, (args@[0]->bytes, args@[1]->bytes, &final(cache)@[k]), o)
                    && (r matches VdfReturn::Int(v) && v == ordering_value(o))
        }),
        !(args@.len() >= 2 && args@[0] is CustomWithParams && args@[1] is CustomWithParams) ==> r is Null
            && final(cache)@ == old(cache)@,
{
    if args.len() < 2 {
        return VdfReturn::Null;
    }
    match (&args[0], &args[1]) {
        (InValue::CustomWithParams { bytes: a, params }, InValue::CustomWithParams { bytes: b, .. }) => {
            let p = cache.get(params, parse);
            VdfReturn::Int(ordering_to_int(compare(*a, *b, p)))
        },
        _ => VdfReturn::Null,
    }
}

/// Typed `TYPE::hash(CUSTOM) -> INT`: hashes a custom argument under the
/// typed params of its column; NULL for a NULL or missing argument, an error
/// for any other kind.
pub fn hash_typed_vdf<P, Pa, H>(
    sql_type: &str,
    args: &[InValue],
    cache: &mut TypeParamsCache<P>,
    parse: Pa,
    hash: H,
) -> (r: VdfReturn) where Pa: Fn(Params) -> P, H: Fn(&[u8], &P) -> usize,

    requires
        old(cache).wf(),
        forall|p: Params| call_requires(parse, (p,)),
        forall|b: &[u8], p: &P| call_requires(hash, (b, p)),
    ensures
        final(cache).wf(),
        args@.len() > 0 && args@[0] is CustomWithParams ==> ({
            let k = canonical(args@[0]->params@);
            &&& cache_looked_up(old(cache)@, k, final(cache)@)
            &&& exists|h: usize|
                call_ensures(hash, (args@[0]->bytes, &final(cache)@[k]), h) && r == VdfReturn::Int(
                    h as i64,
                )
        }),
        !(args@.len() > 0 && args@[0] is CustomWithParams) ==> final(cache)@ == old(cache)@,
        args@.len() == 0 ==> r is Null,
        args@.len() > 0 && args@[0] is Null ==> r is Null,
        args@.len() > 0 && !(args@[0] is Null) && !(args@[0] is CustomWithParams) ==> (r matches VdfReturn::Error(m)
            && m@ == usage_message(sql_type@, "::hash: expected CUSTOM argument"@)),
{
    if args.len() == 0 {
        return VdfReturn::Null;
    }
    match &args[0] {
        InValue::CustomWithParams { bytes, params } => {
            let p = cache.get(params, parse);
            let h = hash(*bytes, p);
            VdfReturn::Int(h as i64)
        },
        InValue::Null => VdfReturn::Null,
        _ => usage_error(sql_type, "::hash: expected CUSTOM argument"),
    }
}

/// The inferred-params buffer after `pairs` were published into `old`:
/// the canonical bytes, as many as fit, the full length, and whether they
/// did not all fit.
pub open spec fn inferred_published(
    old: (Seq<u8>, usize, bool),
    pairs: Seq<crate::pairs::PairView>,
    new: (Seq<u8>, usize, bool),
) -> bool {
    let b = canonical_bytes(pairs);
    let n = if b.len() > old.0.len() { old.0.len() as int } else { b.len() as int };
    &&& new.1 == b.len()
    &&& new.2 == (b.len() > old.0.len())
    &&& new.0 == b.take(n) + old.0.skip(n)
}

fn publish_inferred(out: &mut InferredParamsSlot, pairs: &[(String, String)])
    ensures
        inferred_published(old(out)@, owned_pairs_view(pairs@), final(out)@),
{
    let (needed, overflow) = write_inferred_params(out.buf.as_mut_slice(), pairs);
    out.actual_len = needed;
    out.overflow = overflow;
}

/// The message `from_string` answers an argument that is not a string with.
pub open spec fn from_string_usage() -> Seq<char> {
    "from_string: expected STRING argument"@
}

/// Parameterized `TYPE::from_string`, including the constant-string inference
/// path. A NULL or missing argument gives NULL; a non-string argument an
/// error. Otherwise the params the server attached to the result (known iff
/// there are any) are parsed through the cache-free `parse`, the encoder runs
/// on the string, its outcome is written, and when it succeeded on unknown
/// params that it inferred, those are published into the inferred-params
/// buffer in canonical form.
pub fn dispatch_from_string_typed<'a, P, E, Pa, Ts>(
    encode: E,
    parse: Pa,
    to_strings: Ts,
    args: &[RawValue<'a>],
    result: &mut ResultSlot,
) where
    E: Fn(&str, &mut MaybeParams<P>) -> Result<Vec<u8>, String>,
    Pa: Fn(Params) -> P,
    Ts: Fn(&P) -> Vec<(String, String)>,

    requires
        old(result).error_msg@.len() >= 1,
        forall|s: &str, m: &mut MaybeParams<P>| call_requires(encode, (s, m)),
        forall|p: Params| call_requires(parse, (p,)),
        forall|p: &P| call_requires(to_strings, (p,)),
    ensures
        (args@.len() == 0 || args@[0].is_null) ==> final(result).kind == ResultKind::Null
            && final(result).error_msg@ == old(result).error_msg@
            && crate::runtime::only_message_changed(*old(result), *final(result)),
        (args@.len() > 0 && !args@[0].is_null && args@[0].type_id != TypeId::String) ==> exists|m: String|
            m@ == from_string_usage() && result_written(
                *old(result),
                VdfReturn::Error(m),
                *final(result),
            ),
        (args@.len() > 0 && !args@[0].is_null && args@[0].type_id == TypeId::String) ==> exists|
            m: &mut MaybeParams<P>,
            res: Result<Vec<u8>, String>,
            mid: ResultSlot,
        |
            {
                &&& old(result).type_params@.len() == 0 ==> (*m)@ is None
                &&& old(result).type_params@.len() > 0 ==> exists|pp: Params, pv: P|
                    pp@ == parse_pairs(canonical(old(result).type_params@)) && call_ensures(parse, (pp,), pv)
                        && (*m)@ == Some(pv)
                &&& call_ensures(encode, (args@[0].str_value, m), res)
                &&& result_written(*old(result), encoded_answer(res), mid)
                &&& final(result).kind == mid.kind
                &&& final(result).str_buf@ == mid.str_buf@
                &&& final(result).bin_buf@ == mid.bin_buf@
                &&& final(result).actual_len == mid.actual_len
                &&& final(result).int_value == mid.int_value
                &&& final(result).real_value == mid.real_value
                &&& final(result).error_msg@ == mid.error_msg@
                &&& final(result).type_params@ == old(result).type_params@
                &&& match (old(result).out_params, final(result).out_params) {
                    (None, None) => true,
                    (Some(o), Some(f)) => if mid.kind == ResultKind::Value && old(result).type_params@.len() == 0
                        && (*final(m))@ is Some {
                        exists|pairs: Vec<(String, String)>|
                            call_ensures(to_strings, (&(*final(m))@->Some_0,), pairs) && inferred_published(
                                o@,
                                owned_pairs_view(pairs@),
                                f@,
                            )
                    } else {
                        f@ == o@
                    },
                    _ => false,
                }
            },
{
    if args.len() == 0 || args[0].is_null {
        result.kind = ResultKind::Null;
        return;
    }
    let arg = &args[0];
    match arg.type_id {
        TypeId::String => {},
        _ => {
            let m = String::from_str("from_string: expected STRING argument");
            let ghost mv = m;
            write_result(VdfReturn::Error(m), result);
            assert(result_written(*old(result), VdfReturn::Error(mv), *result));
            return;
        },
    }
    let s = arg.str_value;
    let known = result.type_params.len() > 0;
    let mut maybe: MaybeParams<P> = if known {
        let key = canonical_key(&result.type_params);
        MaybeParams::present(parse(Params::parse(key.as_str())))
    } else {
        MaybeParams::empty()
    };
    let res = encode(s, &mut maybe);
    let ghost outcome = res;
    let ret = match res {
        Ok(bytes) => VdfReturn::Binary(bytes),
        Err(e) => VdfReturn::Error(e),
    };
    write_result(ret, result);
    let ghost mid = *result;
    assert(result_written(*old(result), encoded_answer(outcome), mid));
    if result.kind == ResultKind::Value && !known {
        match maybe.get() {
            Some(p) => {
                let pairs = to_strings(p);
                let ghost pairs_g = pairs;
                match &mut result.out_params {
                    Some(out) => {
                        publish_inferred(out, pairs.as_slice());
                        assert(call_ensures(to_strings, (p,), pairs_g));
                    },
                    None => {},
                }
            },
            None => {},
        }
    }
}

/// Parameterized `TYPE::intrinsic_default`: parses the params attached to the
/// result slot, asks the type for its default value text and writes it.
pub fn dispatch_intrinsic_default_typed<P, Df, Pa>(default_fn: Df, parse: Pa, result: &mut ResultSlot) where
    Df: Fn(&P) -> Result<String, String>,
    Pa: Fn(Params) -> P,

    requires
        old(result).error_msg@.len() >= 1,
        forall|p: Params| call_requires(parse, (p,)),
        forall|p: &P| call_requires(default_fn, (p,)),
    ensures
        exists|p: Params, pv: P, res: Result<String, String>|
            p@ == parse_pairs(canonical(old(result).type_params@)) && call_ensures(parse, (p,), pv)
                && call_ensures(default_fn, (&pv,), res) && result_written(
                *old(result),
                text_answer(res),
                *final(result),
            ),
{
    let key = canonical_key(&result.type_params);
    let params = Params::parse(key.as_str());
    let ghost pv = params;
    let typed = parse(params);
    let res = default_fn(&typed);
    let ghost outcome = res;
    let ret = match res {
        Ok(s) => VdfReturn::String(s),
        Err(e) => VdfReturn::Error(e),
    };
    write_result(ret, result);
    assert(call_ensures(parse, (pv,), typed));
    assert(result_written(*old(result), text_answer(outcome), *result));
}

} // verus!
