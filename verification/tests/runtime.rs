use std::cell::Cell;
use std::cmp::Ordering;

use villagesql::cache::TypeParamsCache;
use villagesql::runtime::{
    dispatch_accumulate, dispatch_agg_prerun, dispatch_agg_result, dispatch_clear, dispatch_prerun,
    dispatch_vdf_with_state, dispatch_vdf, read_in_values, write_bytes_or_error, write_error_msg, write_result, ArgType, InValue,
    InferredParamsSlot, PrerunArgs, PrerunResult, RawValue, ResultKind, ResultSlot, TypeId, VdfReturn,
};
use villagesql::vdfs::{
    compare_typed_vdf, compare_vdf, dispatch_from_string_typed, dispatch_intrinsic_default_typed, from_string_vdf,
    hash_typed_vdf, hash_vdf, int_to_params_vdf, resolve_params_vdf, to_string_typed_vdf, to_string_vdf,
};
use villagesql::{MaybeParams, Params, Resolved, TypeParams};

fn slot<'a>(str_cap: usize, bin_cap: usize, err_cap: usize, params: TypeParams<'a>) -> ResultSlot<'a> {
    ResultSlot {
        kind: ResultKind::Null,
        str_buf: vec![0u8; str_cap],
        bin_buf: vec![0u8; bin_cap],
        actual_len: 0,
        int_value: 0,
        real_value: 0,
        error_msg: vec![0u8; err_cap],
        type_params: params,
        out_params: None,
    }
}

fn msg(buf: &[u8]) -> &str {
    let end = buf.iter().position(|&b| b == 0).unwrap();
    std::str::from_utf8(&buf[..end]).unwrap()
}

fn raw<'a>(type_id: TypeId, s: &'a str) -> RawValue<'a> {
    RawValue {
        is_null: false,
        type_id,
        str_value: s,
        real_value: 0,
        int_value: 0,
        bin_value: &[],
        type_params: TypeParams::from_pairs(vec![]),
    }
}

#[test]
fn error_message_is_truncated_and_terminated() {
    let mut buf = [b'x'; 6];
    write_error_msg(b"abcdefgh", &mut buf);
    assert_eq!(&buf, b"abcde\0");
    let mut buf = [b'x'; 6];
    write_error_msg(b"ab", &mut buf);
    assert_eq!(&buf, b"ab\0xxx");
    let mut buf = [b'x'; 1];
    write_error_msg(b"ab", &mut buf);
    assert_eq!(&buf, b"\0");
}

#[test]
fn string_result_fits() {
    let mut s = slot(8, 0, 16, TypeParams::from_pairs(vec![]));
    write_result(VdfReturn::string("hello".to_string()), &mut s);
    assert_eq!(s.kind, ResultKind::Value);
    assert_eq!(s.actual_len, 5);
    assert_eq!(&s.str_buf[..5], b"hello");
}

#[test]
fn too_large_result_is_an_error_not_truncated() {
    let mut s = slot(0, 3, 128, TypeParams::from_pairs(vec![]));
    write_result(VdfReturn::binary(vec![1, 2, 3, 4]), &mut s);
    assert_eq!(s.kind, ResultKind::Error);
    assert_eq!(s.bin_buf, vec![0, 0, 0]);
    assert_eq!(
        msg(&s.error_msg),
        "result of 4 bytes exceeds the 3-byte buffer. Declare a larger buffer_size in func!"
    );
}

#[test]
fn bytes_write_into_chosen_buffer() {
    let mut s = slot(4, 4, 8, TypeParams::from_pairs(vec![]));
    write_bytes_or_error(&[9, 9], true, &mut s);
    assert_eq!(s.bin_buf, vec![9, 9, 0, 0]);
    assert_eq!(s.str_buf, vec![0, 0, 0, 0]);
    assert_eq!(s.actual_len, 2);
}

#[test]
fn scalar_warning_error_and_null_results() {
    let mut s = slot(0, 0, 32, TypeParams::from_pairs(vec![]));
    write_result(VdfReturn::int_value(-7), &mut s);
    assert_eq!((s.kind, s.int_value), (ResultKind::Value, -7));
    write_result(VdfReturn::real_value(2.5f64.to_bits()), &mut s);
    assert_eq!(s.real_value, 2.5f64.to_bits());
    write_result(VdfReturn::warning("careful".to_string()), &mut s);
    assert_eq!(s.kind, ResultKind::Warning);
    assert_eq!(msg(&s.error_msg), "careful");
    write_result(VdfReturn::error("boom".to_string()), &mut s);
    assert_eq!(s.kind, ResultKind::Error);
    assert_eq!(msg(&s.error_msg), "boom");
    write_result(VdfReturn::null(), &mut s);
    assert_eq!(s.kind, ResultKind::Null);
}

#[test]
fn raw_values_become_in_values() {
    let with = TypeParams::from_pairs(vec![("n", "2")]);
    let vals = read_in_values(vec![
        RawValue { is_null: true, ..raw(TypeId::String, "ignored") },
        raw(TypeId::String, "s"),
        RawValue { int_value: 5, ..raw(TypeId::Int, "") },
        RawValue { bin_value: &[1, 2], ..raw(TypeId::Custom, "") },
        RawValue { bin_value: &[3], type_params: with, ..raw(TypeId::Custom, "") },
        raw(TypeId::Unknown, ""),
    ]);
    assert!(matches!(vals[0], InValue::Null));
    assert!(matches!(vals[1], InValue::String("s")));
    assert!(matches!(vals[2], InValue::Int(5)));
    assert!(matches!(vals[3], InValue::Custom(&[1, 2])));
    match &vals[4] {
        InValue::CustomWithParams { bytes, params } => {
            assert_eq!(*bytes, &[3u8][..]);
            assert_eq!(params.get("n"), Some("2"));
        }
        _ => panic!("expected a custom value with params"),
    }
    assert!(matches!(vals[5], InValue::Null));
}

#[test]
fn dispatch_upper_cases_a_string() {
    let mut s = slot(16, 0, 16, TypeParams::from_pairs(vec![]));
    dispatch_vdf(
        |args: &[InValue]| match args.first() {
            Some(InValue::String(v)) => VdfReturn::string(v.to_uppercase()),
            _ => VdfReturn::null(),
        },
        vec![raw(TypeId::String, "rot")],
        &mut s,
    );
    assert_eq!(s.kind, ResultKind::Value);
    assert_eq!(&s.str_buf[..s.actual_len], b"ROT");
}

#[test]
fn prerun_args_and_types() {
    let args = PrerunArgs::from_types(vec![
        ArgType::new(TypeId::Int, None),
        ArgType::new(TypeId::Custom, Some("rational".to_string())),
        ArgType::new(TypeId::String, Some("ignored".to_string())),
    ]);
    assert_eq!(args.len(), 3);
    assert!(!args.is_empty());
    assert!(args.type_at(0).unwrap().is_int());
    assert_eq!(args.type_at(1).unwrap().custom_name(), Some("rational"));
    assert!(args.type_at(2).unwrap().is_str());
    assert_eq!(args.type_at(2).unwrap().custom_name(), None);
    assert!(args.type_at(3).is_none());
    assert!(PrerunArgs::from_types(vec![]).is_empty());
}

#[test]
fn prerun_result_records_choices() {
    let mut r: PrerunResult<u32> = PrerunResult::new(0, vec![0u8; 8]);
    r.request_buffer_size(1024);
    r.set_state(5);
    assert_eq!(r.result_buffer_size(), 1024);
    assert!(!r.failed());
    assert_eq!(r.into_state(), Some(5));
    let mut f: PrerunResult<u32> = PrerunResult::new(0, vec![0u8; 8]);
    f.error("bad arity here");
    assert!(f.failed());
}

fn encode_upper(s: &str) -> Result<Vec<u8>, String> {
    if s.is_empty() {
        Err("empty".to_string())
    } else {
        Ok(s.as_bytes().to_vec())
    }
}

#[test]
fn from_string_vdf_answers() {
    assert!(matches!(from_string_vdf("t", &[InValue::String("ab")], encode_upper), VdfReturn::Binary(ref b) if b == b"ab"));
    assert!(matches!(from_string_vdf("t", &[InValue::String("")], encode_upper), VdfReturn::Error(ref e) if e == "empty"));
    assert!(matches!(from_string_vdf("t", &[InValue::Null], encode_upper), VdfReturn::Null));
    assert!(matches!(from_string_vdf("t", &[], encode_upper), VdfReturn::Null));
    assert!(matches!(from_string_vdf("t", &[InValue::Int(1)], encode_upper),
        VdfReturn::Error(ref e) if e == "t::from_string: expected STRING argument"));
}

#[test]
fn to_string_compare_hash_vdfs() {
    let dec = |b: &[u8]| Ok::<String, String>(format!("{}", b.len()));
    assert!(matches!(to_string_vdf("t", &[InValue::Custom(&[1, 2])], dec), VdfReturn::String(ref s) if s == "2"));
    assert!(matches!(to_string_vdf("t", &[InValue::String("x")], dec),
        VdfReturn::Error(ref e) if e == "t::to_string: expected CUSTOM argument"));
    let cmp = |a: &[u8], b: &[u8]| a.cmp(b);
    assert!(matches!(compare_vdf(&[InValue::Custom(&[1]), InValue::Custom(&[2])], cmp), VdfReturn::Int(-1)));
    assert!(matches!(compare_vdf(&[InValue::Custom(&[2]), InValue::Custom(&[2])], cmp), VdfReturn::Int(0)));
    assert!(matches!(compare_vdf(&[InValue::Custom(&[3]), InValue::Custom(&[2])], cmp), VdfReturn::Int(1)));
    assert!(matches!(compare_vdf(&[InValue::Custom(&[3]), InValue::Null], cmp), VdfReturn::Null));
    assert!(matches!(hash_vdf("t", &[InValue::Custom(&[1, 2, 3])], |b: &[u8]| b.len() * 10), VdfReturn::Int(30)));
    assert!(matches!(hash_vdf("t", &[InValue::Int(3)], |b: &[u8]| b.len()),
        VdfReturn::Error(ref e) if e == "t::hash: expected CUSTOM argument"));
}

#[test]
fn params_vdfs() {
    let i2p = |n: i64| if n > 0 { Ok(format!("dimension={n}")) } else { Err("bad".to_string()) };
    assert!(matches!(int_to_params_vdf("v", &[InValue::Int(3)], i2p), VdfReturn::String(ref s) if s == "dimension=3"));
    assert!(matches!(int_to_params_vdf("v", &[InValue::Int(0)], i2p), VdfReturn::Error(ref s) if s == "bad"));
    assert!(matches!(int_to_params_vdf("v", &[InValue::String("3")], i2p),
        VdfReturn::Error(ref e) if e == "v::int_to_params: expected INT argument"));
    let resolve = |p: Params| match p.get("dimension") {
        Some(d) => Ok(Resolved::rewrite(4 * d.parse::<i64>().unwrap(), 64, vec![("dimension".to_string(), d.to_string())])),
        None => Err("dimension required".to_string()),
    };
    assert!(matches!(resolve_params_vdf("v", &[InValue::String("dimension=3")], resolve),
        VdfReturn::String(ref s) if s == "12,64,11,dimension=3"));
    assert!(matches!(resolve_params_vdf("v", &[InValue::String("")], resolve),
        VdfReturn::Error(ref s) if s == "dimension required"));
    assert!(matches!(resolve_params_vdf("v", &[InValue::Null], resolve), VdfReturn::Null));
}

#[test]
fn typed_vdfs_parse_params_once() {
    let parses = Cell::new(0);
    let parse = |p: Params| {
        parses.set(parses.get() + 1);
        p.get("dimension").unwrap().parse::<usize>().unwrap()
    };
    let mut cache: TypeParamsCache<usize> = TypeParamsCache::new();
    let a = [InValue::CustomWithParams { bytes: &[1, 2], params: TypeParams::from_pairs(vec![("dimension", "2")]) }];
    let r = to_string_typed_vdf("v", &a, &mut cache, parse, |b: &[u8], d: &usize| Ok(format!("{}x{}", b.len(), d)));
    assert!(matches!(r, VdfReturn::String(ref s) if s == "2x2"));
    let h = hash_typed_vdf("v", &a, &mut cache, parse, |b: &[u8], d: &usize| b.len() + d);
    assert!(matches!(h, VdfReturn::Int(4)));
    let two = [
        InValue::CustomWithParams { bytes: &[1], params: TypeParams::from_pairs(vec![("dimension", "2")]) },
        InValue::CustomWithParams { bytes: &[2], params: TypeParams::from_pairs(vec![("dimension", "2")]) },
    ];
    let c = compare_typed_vdf(&two, &mut cache, parse, |a: &[u8], b: &[u8], _: &usize| a.cmp(b));
    assert!(matches!(c, VdfReturn::Int(-1)));
    assert_eq!(parses.get(), 1);
    let plain = [InValue::Custom(&[1])];
    let r = to_string_typed_vdf("v", &plain, &mut cache, parse, |_: &[u8], _: &usize| Ok(String::new()));
    assert!(matches!(r, VdfReturn::Error(ref e) if e == "v::to_string: expected CUSTOM argument"));
    let _ = Ordering::Less;
}

fn infer_encode(s: &str, p: &mut MaybeParams<usize>) -> Result<Vec<u8>, String> {
    if !p.is_known() {
        p.set(s.len());
    }
    Ok(s.as_bytes().to_vec())
}

fn dims(p: &usize) -> Vec<(String, String)> {
    vec![("type".to_string(), "float".to_string()), ("dimension".to_string(), p.to_string())]
}

fn parse_dims(p: Params) -> usize {
    p.get("dimension").unwrap().parse().unwrap()
}

#[test]
fn from_string_typed_publishes_inferred_params() {
    let mut s = slot(0, 8, 16, TypeParams::from_pairs(vec![]));
    s.out_params = Some(InferredParamsSlot { buf: vec![0u8; 32], actual_len: 0, overflow: false });
    dispatch_from_string_typed(infer_encode, parse_dims, dims, &[raw(TypeId::String, "abc")], &mut s);
    assert_eq!(s.kind, ResultKind::Value);
    assert_eq!(&s.bin_buf[..3], b"abc");
    let out = s.out_params.as_ref().unwrap();
    assert_eq!(out.actual_len, 22);
    assert!(!out.overflow);
    assert_eq!(&out.buf[..22], b"dimension=3,type=float");
}

#[test]
fn from_string_typed_known_params_publish_nothing() {
    let mut s = slot(0, 8, 16, TypeParams::from_pairs(vec![("dimension", "5")]));
    s.out_params = Some(InferredParamsSlot { buf: vec![0u8; 4], actual_len: 0, overflow: false });
    dispatch_from_string_typed(infer_encode, parse_dims, dims, &[raw(TypeId::String, "abc")], &mut s);
    assert_eq!(s.kind, ResultKind::Value);
    assert_eq!(s.out_params.as_ref().unwrap().actual_len, 0);
}

#[test]
fn from_string_typed_null_and_wrong_kind() {
    let mut s = slot(0, 8, 64, TypeParams::from_pairs(vec![]));
    dispatch_from_string_typed(infer_encode, parse_dims, dims, &[], &mut s);
    assert_eq!(s.kind, ResultKind::Null);
    dispatch_from_string_typed(infer_encode, parse_dims, dims, &[raw(TypeId::Int, "")], &mut s);
    assert_eq!(s.kind, ResultKind::Error);
    assert_eq!(msg(&s.error_msg), "from_string: expected STRING argument");
}

#[test]
fn intrinsic_default_from_params() {
    let mut s = slot(16, 0, 16, TypeParams::from_pairs(vec![("dimension", "2")]));
    dispatch_intrinsic_default_typed(|d: &usize| Ok(format!("[0,{}]", d)), parse_dims, &mut s);
    assert_eq!(s.kind, ResultKind::Value);
    assert_eq!(&s.str_buf[..s.actual_len], b"[0,2]");
}

#[test]
fn stateful_function_runs_over_rows() {
    let mut pre: PrerunResult<Vec<i64>> = PrerunResult::new(0, vec![0u8; 8]);
    dispatch_prerun(
        |a: PrerunArgs, r: &mut PrerunResult<Vec<i64>>| {
            if a.len() == 1 {
                r.set_state(Vec::new());
            } else {
                r.error("one argument");
            }
        },
        PrerunArgs::from_types(vec![ArgType::new(TypeId::Int, None)]),
        &mut pre,
    );
    assert!(!pre.failed());
    let mut state = pre.into_state().unwrap();
    let mut s = slot(0, 0, 16, TypeParams::from_pairs(vec![]));
    let mut row = raw(TypeId::Int, "");
    row.int_value = 4;
    dispatch_vdf_with_state(
        |st: &mut Vec<i64>, vals: &[InValue]| match vals.first() {
            Some(InValue::Int(v)) => {
                st.push(*v);
                VdfReturn::int_value(st.len() as i64)
            }
            _ => VdfReturn::null(),
        },
        &mut state,
        vec![row],
        &mut s,
    );
    assert_eq!(state, vec![4]);
    assert_eq!(s.kind, ResultKind::Value);
    assert_eq!(s.int_value, 1);
}

#[test]
fn aggregate_lifecycle() {
    let mut pre: PrerunResult<i64> = PrerunResult::new(0, vec![0u8; 8]);
    dispatch_agg_prerun(&mut pre);
    let mut acc = pre.into_state().unwrap();
    assert_eq!(acc, 0);
    for v in [3i64, 4, 5] {
        let mut row = raw(TypeId::Int, "");
        row.int_value = v;
        dispatch_accumulate(
            |a: &mut i64, vals: &[InValue]| {
                if let Some(InValue::Int(x)) = vals.first() {
                    *a += *x;
                }
            },
            &mut acc,
            vec![row],
        );
    }
    assert_eq!(acc, 12);
    let mut s = slot(0, 0, 16, TypeParams::from_pairs(vec![]));
    dispatch_agg_result(|a: &i64| VdfReturn::int_value(*a), &acc, &mut s);
    assert_eq!(s.int_value, 12);
    dispatch_clear(|a: &mut i64| *a = 0, &mut acc);
    assert_eq!(acc, 0);
}

#[test]
fn cache_parses_each_key_once_across_other_lookups() {
    let parses = Cell::new(0);
    let parse = |p: Params| {
        parses.set(parses.get() + 1);
        p.len() * 10 + p.get("a").map_or(0, |v| v.len())
    };
    let mut cache: TypeParamsCache<usize> = TypeParamsCache::new();
    let first = *cache.get(&TypeParams::from_pairs(vec![("a", "xy"), ("b", "1")]), parse);
    assert_eq!(first, 22);
    assert_eq!(*cache.get(&TypeParams::from_pairs(vec![("c", "1")]), parse), 10);
    assert_eq!(*cache.get(&TypeParams::from_pairs(vec![("d", "1")]), parse), 10);
    assert_eq!(parses.get(), 3);
    let again = *cache.get(&TypeParams::from_pairs(vec![("b", "1"), ("a", "xy")]), parse);
    assert_eq!(again, first);
    assert_eq!(parses.get(), 3);
}
