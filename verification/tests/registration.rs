use villagesql::preview::ping::PingCapability;
use villagesql::preview::sys_var::{sys_var_descriptors, SysVarCapability, SysVarSpec, SysVarValue, SysVarVtable};
use villagesql::preview::{Capability, CapabilityConfig, CapabilityName};
use villagesql::registration::{build_registration, custom_type, parameterized_type, FuncDescriptor, Protocol, Signature, Type};
use villagesql::runtime::TypeId;

fn names(fs: &[FuncDescriptor]) -> Vec<String> {
    fs.iter().map(|f| f.sql_name.clone()).collect()
}

#[test]
fn custom_type_gets_its_sql_functions() {
    let t = custom_type("rational", 16, 42, true, Some("0/1".to_string()));
    assert_eq!(
        names(&t.embedded_funcs),
        vec!["rational::from_string", "rational::to_string", "rational::compare", "rational::hash"]
    );
    assert_eq!(t.descriptor.hash_vdf_name.as_deref(), Some("rational::hash"));
    assert_eq!(t.descriptor.intrinsic_default_str.as_deref(), Some("0/1"));
    assert_eq!(t.descriptor.persisted_length, 16);
    assert!(t.embedded_funcs.iter().all(|f| f.deterministic && f.buffer_size == 0));
    assert!(matches!(t.embedded_funcs[0].params[0], Type::String));
    assert!(matches!(t.embedded_funcs[0].returns, Type::Custom(n) if n == "rational"));
    let plain = custom_type("money", 8, 20, false, None);
    assert_eq!(plain.embedded_funcs.len(), 3);
    assert!(plain.descriptor.hash_vdf_name.is_none());
}

#[test]
fn parameterized_type_adds_param_functions() {
    let t = parameterized_type("vector", 4096, 100, false, None, true);
    assert_eq!(
        names(&t.embedded_funcs),
        vec![
            "vector::from_string",
            "vector::to_string",
            "vector::compare",
            "vector::int_to_params",
            "vector::resolve_params",
            "vector::intrinsic_default"
        ]
    );
    assert_eq!(t.descriptor.persisted_length, -1);
    assert_eq!(t.descriptor.max_persisted_length, 4096);
    assert_eq!(t.embedded_funcs[5].buffer_size, 100);
    assert!(t.embedded_funcs[5].params.is_empty());
}

#[test]
fn registration_lists_explicit_then_embedded() {
    let f = FuncDescriptor::scalar("rot13", vec![Type::String], Type::String, 0, true);
    let v = FuncDescriptor::varargs_checked("concat_all", Type::String, 0, false);
    let a = FuncDescriptor::aggregate("my_sum", vec![Type::Int], Type::Int, 0, false);
    let t = custom_type("rational", 16, 42, false, None);
    let reg = build_registration(vec![f, v, a], vec![t], vec![PingCapability::new().request()]);
    assert_eq!(reg.func_count, 6);
    assert_eq!(reg.type_count, 1);
    let ns: Vec<&str> = reg.funcs.iter().map(|e| e.sql_name.as_str()).collect();
    assert_eq!(ns, vec!["rot13", "concat_all", "my_sum", "rational::from_string", "rational::to_string", "rational::compare"]);
    assert!(matches!(reg.funcs[1].signature, Signature::Varargs));
    assert!(matches!(reg.funcs[0].signature, Signature::Fixed(ref p) if p.len() == 1));
    assert!(reg.funcs[1].has_prerun && !reg.funcs[1].has_postrun);
    assert!(reg.funcs[2].has_clear && reg.funcs[2].has_accumulate);
    assert_eq!(reg.types[0].sql_name, "rational");
    assert_eq!(reg.capability_count, 1);
    assert_eq!(reg.capabilities[0].name, CapabilityName::Ping);
}

#[test]
fn function_descriptor_forms() {
    let s = FuncDescriptor::with_state("f", vec![], Type::Int, 64, false);
    assert!(s.has_prerun && s.has_postrun && !s.has_clear && !s.varargs);
    let v = FuncDescriptor::varargs_with_state("g", Type::Int, 0, true);
    assert!(v.varargs && v.has_prerun && v.has_postrun && v.deterministic);
    let b = FuncDescriptor::varargs("h", Type::Int, 0, false);
    assert!(b.varargs && !b.has_prerun);
}

#[test]
fn sys_var_descriptors_start_at_defaults() {
    let (ds, n) = sys_var_descriptors(&[
        SysVarSpec::Bool { name: "on".into(), comment: "c".into(), default: true, has_on_change: false },
        SysVarSpec::Int { name: "n".into(), comment: "c".into(), default: 5, min: 0, max: 9, has_on_change: true },
        SysVarSpec::Str { name: "s".into(), comment: "c".into(), default: "x".into(), has_on_change: false },
    ]);
    assert_eq!(n, 3);
    assert!(matches!(ds[0].value, SysVarValue::Bool { current: true, default: true }));
    assert!(matches!(ds[1].value, SysVarValue::Int { current: 5, default: 5, min: 0, max: 9 }));
    assert!(matches!(ds[2].value, SysVarValue::Str { current: None, ref default } if default == "x"));
    assert!(ds[1].has_on_change);
}

#[test]
fn sys_var_calls_need_a_current_vtable() {
    let mut c = SysVarCapability::new(Vec::new());
    assert_eq!(c.get("ext", "v", |_, _| false), None);
    c.install(SysVarVtable { version: 1, has_get: true, has_set: false });
    let asked = |component: &str, name: &str| !(component == "ext" && name == "v");
    assert_eq!(c.get("ext", "v", asked), Some(false));
    assert_eq!(c.get("ext", "w", asked), Some(true));
    assert_eq!(c.set("ext", "v", None, "1", |_, _, _, _| false), None);
    c.install(SysVarVtable { version: 0, has_get: true, has_set: true });
    assert_eq!(c.get("ext", "v", |_, _| false), None);
    c.install(SysVarVtable { version: 1, has_get: true, has_set: true });
    let set = |_: &str, _: &str, scope: Option<&str>, val: &str| !(scope == Some("PERSIST") && val == "7");
    assert_eq!(c.set("ext", "v", Some("PERSIST"), "7", set), Some(false));
}

#[test]
fn sys_var_request_declares_each_variable() {
    let c = SysVarCapability::new(vec![
        SysVarSpec::Int { name: "limit".into(), comment: "max rows".into(), default: 10, min: 1, max: 100, has_on_change: false },
        SysVarSpec::Str { name: "label".into(), comment: "a label".into(), default: "none".into(), has_on_change: true },
    ]);
    let r = c.request();
    assert_eq!(r.name, CapabilityName::SysVar);
    assert_eq!(r.vtable_hash, "ver-1");
    assert_eq!(r.config_hash.as_deref(), Some("ver-1"));
    match r.config {
        CapabilityConfig::SysVars { vars, var_count } => {
            assert_eq!(var_count, 2);
            assert_eq!(vars[0].name, "limit");
            assert_eq!(vars[0].comment, "max rows");
            assert!(matches!(vars[0].value, SysVarValue::Int { current: 10, default: 10, min: 1, max: 100 }));
            assert!(matches!(vars[1].value, SysVarValue::Str { current: None, ref default } if default == "none"));
            assert!(vars[1].has_on_change);
        }
        _ => panic!("expected system variables"),
    }
}

#[test]
fn types_as_the_server_reads_them() {
    let r = Type::Custom("rational").to_raw();
    assert_eq!(r.id, TypeId::Custom);
    assert_eq!(r.custom_type.as_deref(), Some("rational"));
    let i = Type::Int.to_raw();
    assert_eq!(i.id, TypeId::Int);
    assert!(i.custom_type.is_none());
    assert_eq!(Type::Real.to_raw().id, TypeId::Real);
    assert_eq!(Type::String.to_raw().id, TypeId::String);
    let a: &'static str = "a";
    assert!(Type::Custom(a) == Type::Custom(a));
    assert!(Type::Custom("a") != Type::Custom("b"));
    let copy: &'static str = Box::leak("a".to_string().into_boxed_str());
    assert!(Type::Custom(a) != Type::Custom(copy));
    assert!(Type::Int == Type::Int);
    assert!(Type::Int != Type::Real);
    let t = custom_type("rational", 16, 42, false, None);
    let reg = build_registration(vec![], vec![t], vec![]);
    match &reg.funcs[0].signature {
        Signature::Fixed(ps) => assert_eq!(ps[0].id, TypeId::String),
        Signature::Varargs => panic!("expected fixed parameters"),
    }
    assert_eq!(reg.funcs[0].returns.custom_type.as_deref(), Some("rational"));
    assert_eq!(reg.capability_count, 0);
    assert_eq!(reg.protocol, Protocol::V3);
    assert!(reg.error_msg.is_none());
    assert_eq!((reg.sdk_version.major, reg.sdk_version.minor, reg.sdk_version.patch), (0, 0, 6));
    assert!(reg.sdk_version.extra.is_none());
}
