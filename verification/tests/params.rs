use villagesql::{canonical_key, canonical_params_string, write_inferred_params, MaybeParams, Params, Resolved, TypeParams};

// -- Params::parse: turns "k=v,k=v" into looked-up pairs ---

#[test]
fn params_parse_empty() {
    // An empty params string means "no parameters".
    let p = Params::parse("");
    assert!(p.is_empty());
    assert_eq!(p.get("anything"), None);
}

#[test]
fn params_parse_single() {
    let p = Params::parse("width=5");
    assert_eq!(p.len(), 1);
    assert_eq!(p.get("width"), Some("5"));
    assert_eq!(p.get("missing"), None);
}

#[test]
fn params_parse_multiple_preserves_order() {
    let p = Params::parse("dimension=3,type=float");
    assert_eq!(p.get("dimension"), Some("3"));
    assert_eq!(p.get("type"), Some("float"));
    // iter() yields pairs in the order they appeared.
    assert_eq!(p.iter(), vec![("dimension", "3"), ("type", "float")]);
}

#[test]
fn params_parse_entry_without_equals_has_empty_value() {
    // A chunk that has no '=' becomes a key with "" value.
    let p = Params::parse("a=1,bad,b=2");
    assert_eq!(p.len(), 3);
    assert_eq!(p.get("a"), Some("1"));
    assert_eq!(p.get("bad"), Some(""));
    assert_eq!(p.get("b"), Some("2"));
}

// -- write_inferred_params: serialize pairs into the server's buffer ---

#[test]
fn write_inferred_params_basic() {
    let mut buf = [0u8; 64];
    let pairs = vec![
        ("dimension".to_string(), "3".to_string()),
        ("type".to_string(), "float".to_string()),
    ];
    let (needed, _) = write_inferred_params(&mut buf, &pairs);
    assert_eq!(&buf[..needed], b"dimension=3,type=float");
}

#[test]
fn write_inferred_params_sorts_keys() {
    // Given out of order, output is sorted by key (canonical form).
    let mut buf = [0u8; 64];
    let pairs = vec![
        ("type".to_string(), "float".to_string()),
        ("dimension".to_string(), "3".to_string()),
    ];
    let (needed, _) = write_inferred_params(&mut buf, &pairs);
    assert_eq!(&buf[..needed], b"dimension=3,type=float");
}

#[test]
fn write_inferred_params_overflow_reports_full_length() {
    // Buffer too small: still report the FULL length needed (snprintf-style),
    // and flag overflow so the server can retry with a bigger buffer.
    let mut buf = [0u8; 5];
    let pairs = vec![
        ("dimension".to_string(), "3".to_string()),
        ("type".to_string(), "float".to_string()),
    ];
    let (needed, overflow) = write_inferred_params(&mut buf, &pairs);
    assert!(overflow);
    assert_eq!(needed, 22); // "dimension=3,type=float" is 22 bytes
}

#[test]
fn write_inferred_params_empty() {
    let mut buf = [0u8; 8];
    let (needed, overflow) = write_inferred_params(&mut buf, &[]);
    assert_eq!(needed, 0);
    assert!(!overflow);
}

// -- further cases ---

#[test]
fn write_inferred_params_overflow_writes_prefix_only() {
    let mut buf = [9u8; 5];
    let pairs = vec![("dimension".to_string(), "3".to_string())];
    let (needed, overflow) = write_inferred_params(&mut buf, &pairs);
    assert_eq!(needed, 11);
    assert!(overflow);
    assert_eq!(&buf, b"dimen");
}

#[test]
fn write_inferred_params_leaves_rest_of_buffer() {
    let mut buf = [7u8; 6];
    let pairs = vec![("a".to_string(), "1".to_string())];
    let (needed, overflow) = write_inferred_params(&mut buf, &pairs);
    assert_eq!((needed, overflow), (3, false));
    assert_eq!(buf, [b'a', b'=', b'1', 7, 7, 7]);
}

#[test]
fn write_inferred_params_exact_fit_is_no_overflow() {
    let mut buf = [0u8; 3];
    let pairs = vec![("a".to_string(), "1".to_string())];
    assert_eq!(write_inferred_params(&mut buf, &pairs), (3, false));
    assert_eq!(&buf, b"a=1");
}

#[test]
fn params_parse_trailing_comma_gives_empty_entry() {
    let p = Params::parse("a=1,");
    assert_eq!(p.iter(), vec![("a", "1"), ("", "")]);
}

#[test]
fn params_parse_value_keeps_later_equals() {
    let p = Params::parse("k=a=b");
    assert_eq!(p.iter(), vec![("k", "a=b")]);
}

#[test]
fn params_get_returns_first_match() {
    let p = Params::parse("k=1,k=2");
    assert_eq!(p.get("k"), Some("1"));
}

#[test]
fn params_parse_non_ascii() {
    let p = Params::parse("größe=5,ключ=значение");
    assert_eq!(p.get("größe"), Some("5"));
    assert_eq!(p.get("ключ"), Some("значение"));
    assert_eq!(p.len(), 2);
}

#[test]
fn canonical_sorts_by_key_bytes_and_is_stable() {
    let pairs = [("b", "1"), ("a", "2"), ("b", "0"), ("B", "x")];
    assert_eq!(canonical_params_string(&pairs), "B=x,a=2,b=1,b=0");
}

#[test]
fn canonical_of_nothing_is_empty() {
    assert_eq!(canonical_params_string(&[]), "");
}

#[test]
fn canonical_ignores_order_of_distinct_keys() {
    let a = [("type", "float"), ("dimension", "3")];
    let b = [("dimension", "3"), ("type", "float")];
    assert_eq!(canonical_params_string(&a), canonical_params_string(&b));
}

#[test]
fn canonical_round_trips_through_parse() {
    let pairs = [("z", "9"), ("m", "a=b"), ("a", "")];
    let text = canonical_params_string(&pairs);
    assert_eq!(text, "a=,m=a=b,z=9");
    let parsed = Params::parse(&text);
    assert_eq!(parsed.iter(), vec![("a", ""), ("m", "a=b"), ("z", "9")]);
    assert_eq!(canonical_params_string(&parsed.iter()), text);
}

#[test]
fn type_params_lookup_and_key() {
    let tp = TypeParams::from_pairs(vec![("type", "float"), ("dimension", "3")]);
    assert_eq!(tp.len(), 2);
    assert!(!tp.is_empty());
    assert_eq!(tp.get("dimension"), Some("3"));
    assert_eq!(tp.get("size"), None);
    assert_eq!(tp.iter(), vec![("type", "float"), ("dimension", "3")]);
    assert_eq!(canonical_key(&tp), "dimension=3,type=float");
}

#[test]
fn type_params_empty() {
    let tp = TypeParams::from_pairs(vec![]);
    assert!(tp.is_empty());
    assert_eq!(canonical_key(&tp), "");
}

#[test]
fn maybe_params_transitions() {
    let mut m: MaybeParams<u32> = MaybeParams::empty();
    assert!(!m.is_known());
    assert_eq!(m.get(), None);
    m.set(7);
    assert!(m.is_known());
    assert_eq!(m.get(), Some(&7));
    let k = MaybeParams::present(3u32);
    assert_eq!(k.get(), Some(&3));
}

#[test]
fn resolved_const_form() {
    assert_eq!(Resolved::new(16, 42).to_wire_string(), "16,42");
    assert_eq!(Resolved::new(-1, 0).to_wire_string(), "-1,0");
    assert_eq!(
        Resolved::new(i64::MIN, i64::MAX).to_wire_string(),
        "-9223372036854775808,9223372036854775807"
    );
}

#[test]
fn resolved_rewrite_form_is_self_delimiting() {
    let r = Resolved::rewrite(
        24,
        80,
        vec![("type".to_string(), "float".to_string()), ("dimension".to_string(), "3".to_string())],
    );
    assert_eq!(r.to_wire_string(), "24,80,22,dimension=3,type=float");
}

#[test]
fn resolved_rewrite_with_no_params() {
    assert_eq!(Resolved::rewrite(8, 9, vec![]).to_wire_string(), "8,9,0");
}

#[test]
fn resolved_rewrite_counts_bytes_not_chars() {
    let r = Resolved::rewrite(1, 2, vec![("é".to_string(), "ü".to_string())]);
    assert_eq!(r.to_wire_string(), "1,2,5,é=ü");
}
