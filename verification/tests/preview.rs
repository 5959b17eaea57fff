use villagesql::preview::keyring::{interpret, KeyringCapability, KeyringError, KeyringStatus, KeyringVtable};
use villagesql::preview::ping::{PingCapability, PingVtable, PING_ABI_VERSION};
use std::sync::atomic::{AtomicI64, AtomicU64};
use villagesql::preview::sql_query::{Diag, DiagCode, DiagSeverity, Row, SqlQueryCapability, SqlQueryVtable};
use villagesql::preview::status_var::{status_var_descriptors, StatusVarCapability, StatusVarCell, StatusVarSpec, StatusVarType};
use villagesql::preview::thread_worker::{worker_wakeup, NextWakeup, ThreadHandle, ThreadWorkerCapability, WakeupReason};
use villagesql::preview::{Capability, CapabilityConfig, CapabilityName};
use villagesql::text::trim_white;

#[test]
fn keyring_codes() {
    assert_eq!(interpret(KeyringStatus::Found), Ok(true));
    assert_eq!(interpret(KeyringStatus::NotFound), Ok(false));
    assert_eq!(interpret(KeyringStatus::Unavailable), Err(KeyringError::NoComponent));
    assert_eq!(interpret(KeyringStatus::Failed), Err(KeyringError::Other));
    assert_eq!(KeyringError::NoComponent.message(), "no keyring component is installed");
}

#[test]
fn keyring_read_and_write() {
    let mut k = KeyringCapability::new();
    let mut buf = [0u8; 8];
    assert_eq!(
        k.read("key", None, &mut buf, |_, _, _| panic!("must not call")),
        Err(KeyringError::CapabilityUnavailable)
    );
    k.install(KeyringVtable { version: 0, has_read: true, has_write: true });
    assert_eq!(
        k.read("key", None, &mut buf, |_, _, _| panic!("must not call")),
        Err(KeyringError::CapabilityUnavailable)
    );
    k.install(KeyringVtable { version: 1, has_read: true, has_write: false });
    let long = |id: &str, auth: Option<&str>, b: &mut [u8]| {
        assert_eq!(id, "key");
        assert_eq!(auth, Some("me"));
        b.copy_from_slice(b"abcdefgh");
        (KeyringStatus::Found, 20)
    };
    assert_eq!(k.read("key", Some("me"), &mut buf, long), Ok(Some(8)));
    assert_eq!(&buf, b"abcdefgh");
    let short = |_: &str, _: Option<&str>, b: &mut [u8]| {
        b[..3].copy_from_slice(b"xyz");
        (KeyringStatus::Found, 3)
    };
    assert_eq!(k.read("key", None, &mut buf, short), Ok(Some(3)));
    assert_eq!(&buf[..3], b"xyz");
    assert_eq!(k.read("key", None, &mut buf, |_, _, _| (KeyringStatus::NotFound, 3)), Ok(None));
    assert_eq!(
        k.write("key", None, b"secret", |_, _, _| panic!("must not call")),
        Err(KeyringError::CapabilityUnavailable)
    );
    k.install(KeyringVtable { version: 2, has_read: true, has_write: true });
    let stored = |id: &str, _: Option<&str>, data: &[u8]| {
        assert_eq!(id, "key");
        assert_eq!(data, b"secret");
        KeyringStatus::Found
    };
    assert_eq!(k.write("key", None, b"secret", stored), Ok(()));
    assert_eq!(k.write("key", None, b"secret", |_, _, _| KeyringStatus::Unavailable), Err(KeyringError::NoComponent));
}

#[test]
fn ping_needs_a_current_vtable() {
    assert_eq!(PING_ABI_VERSION, 1);
    let mut p = PingCapability::new();
    assert_eq!(p.ping(|| 5), None);
    p.install(PingVtable { version: 1, has_ping: false });
    assert_eq!(p.ping(|| 5), None);
    p.install(PingVtable { version: 1, has_ping: true });
    assert_eq!(p.ping(|| 5), Some(5));
    p.install(PingVtable { version: 0, has_ping: true });
    assert_eq!(p.ping(|| 5), None);
}

#[test]
fn wakeups() {
    let t = ThreadHandle::from_raw(9);
    assert_eq!(t.as_raw(), 9);
    assert_eq!(NextWakeup::unchanged(), NextWakeup { sleep_ms: 0, poll_fd: 0 });
    assert_eq!(NextWakeup::after_ms(250), NextWakeup { sleep_ms: 250, poll_fd: 0 });
    let work = |r: WakeupReason, _t: ThreadHandle| match r {
        WakeupReason::Periodic => NextWakeup::after_ms(10),
        _ => NextWakeup { sleep_ms: 1, poll_fd: -1 },
    };
    assert_eq!(worker_wakeup(Some(WakeupReason::Periodic), t, work), NextWakeup::after_ms(10));
    assert_eq!(worker_wakeup(None, t, work), NextWakeup::unchanged());
}

fn full_vtable() -> SqlQueryVtable {
    SqlQueryVtable {
        version: 1,
        has_open_session: true,
        has_execute: true,
        has_for_each_row: true,
        has_close_session: true,
        has_error: true,
        has_get_error: true,
        has_warning_count: true,
        has_get_warning: true,
        has_num_columns: true,
        has_fetch_row: true,
        has_close_result: true,
    }
}

#[test]
fn sql_sessions_and_results() {
    let t = ThreadHandle::from_raw(3);
    let mut q = SqlQueryCapability::new();
    assert!(q.open(&t, |_| 7).is_none());
    q.install(full_vtable());
    assert!(q.open(&t, |_| 0).is_none());
    let s = q.open(&t, |h| h + 40).unwrap();
    let mut old = full_vtable();
    old.version = 0;
    let mut q_old = SqlQueryCapability::new();
    q_old.install(old);
    assert!(q_old.open(&t, |_| 7).is_none());
    assert_eq!(s.handle(), 43);
    let r = s.execute("SELECT 1", |h, sql| if sql == "SELECT 1" { h + 1 } else { 0 }).unwrap();
    assert_eq!(r.handle(), 44);
    assert!(r.has_error(|_| true));
    assert_eq!(r.num_columns(|_| 4), 4);
    let w = r.warnings(|_| 3, |_, i| if i == 1 { None } else { Some(Diag::from_raw(i, DiagCode::Warning, None, None)) });
    assert_eq!(w.len(), 2);
    assert_eq!(w[1].errno, 2);
    let mut partial = full_vtable();
    partial.has_num_columns = false;
    partial.has_execute = false;
    let mut q2 = SqlQueryCapability::new();
    q2.install(partial);
    let s2 = q2.open(&t, |_| 1).unwrap();
    assert!(s2.execute("SELECT 1", |_, _| 5).is_none());
}

#[test]
fn diagnostics() {
    let d = Diag::from_raw(1146, DiagCode::Unknown, Some(b"42S02"), None);
    assert_eq!(d.severity, DiagSeverity::Error);
    assert_eq!(d.sqlstate, "42S02");
    assert_eq!(d.message, "");
    assert_eq!(Diag::from_raw(0, DiagCode::Note, None, Some(b"hi")).severity, DiagSeverity::Note);
}

#[test]
fn plain_capability_requests() {
    let p = PingCapability::new().request();
    assert_eq!(p.name, CapabilityName::Ping);
    assert_eq!(p.vtable_hash, "ver-1");
    assert!(p.config_hash.is_none());
    assert!(matches!(p.config, CapabilityConfig::Empty));
    assert_eq!(KeyringCapability::new().request().name, CapabilityName::Keyring);
    let q = SqlQueryCapability::new().request();
    assert_eq!(q.name, CapabilityName::SqlQuery);
    assert!(q.config_hash.is_none());
}

#[test]
fn status_var_request_lists_each_counter() {
    let requests: &'static AtomicI64 = Box::leak(Box::new(AtomicI64::new(0)));
    let load: &'static AtomicU64 = Box::leak(Box::new(AtomicU64::new(0.5f64.to_bits())));
    let specs = vec![
        StatusVarSpec::Int { name: "requests".into(), value: requests },
        StatusVarSpec::Double { name: "load".into(), value: load },
    ];
    let (ds, n) = status_var_descriptors(&specs);
    assert_eq!(n, 2);
    assert_eq!(ds[0].name, "requests");
    assert_eq!(ds[0].var_type, StatusVarType::Int);
    assert!(matches!(ds[0].value, StatusVarCell::Int(c) if std::ptr::eq(c, requests)));
    assert_eq!(ds[1].var_type, StatusVarType::Double);
    assert!(matches!(ds[1].value, StatusVarCell::Double(c) if std::ptr::eq(c, load)));
    let r = StatusVarCapability::new(specs).request();
    assert_eq!(r.name, CapabilityName::StatusVar);
    assert_eq!(r.config_hash.as_deref(), Some("ver-1"));
    assert!(matches!(r.config, CapabilityConfig::StatusVars { ref vars, var_count: 2 } if vars[1].name == "load"));
}

#[test]
fn thread_worker_request_carries_its_schedule() {
    let w = ThreadWorkerCapability::new("ticker".to_string(), 500, None);
    let r = w.request();
    assert_eq!(r.name, CapabilityName::ThreadWorker);
    assert_eq!(r.vtable_hash, "ver-1");
    match r.config {
        CapabilityConfig::ThreadWorker(d) => {
            assert_eq!(d.sleep_ms, 500);
            assert_eq!(d.suffix, "ticker");
            assert!(d.var_name.is_none());
        }
        _ => panic!("expected a worker descriptor"),
    }
    let named = ThreadWorkerCapability::new("t".to_string(), 0, Some("t_on".to_string())).request();
    assert!(matches!(named.config, CapabilityConfig::ThreadWorker(ref d) if d.var_name.as_deref() == Some("t_on")));
}

#[test]
fn streaming_and_fetching_rows() {
    let t = ThreadHandle::from_raw(3);
    let mut q = SqlQueryCapability::new();
    q.install(full_vtable());
    let s = q.open(&t, |_| 10).unwrap();
    let mut seen = Vec::new();
    let r = s
        .for_each("SELECT a FROM t", |row: Row| seen.push(row.get_int(0)), |h, sql, mut f| {
            assert_eq!(sql, "SELECT a FROM t");
            f(Row::new(vec![Some(b"1".to_vec())], 1));
            f(Row::new(vec![Some(b" 22 ".to_vec())], 1));
            h + 5
        })
        .unwrap();
    assert_eq!(r.handle(), 15);
    assert_eq!(seen, vec![Some(1), Some(22)]);
    assert!(r.error(|_| None).is_none());
    let e = r.error(|_| Some(Diag::from_raw(1146, DiagCode::Error, Some(b"42S02"), Some(b"no table"))));
    assert_eq!(e.unwrap().errno, 1146);
    let row = r.next_row(|_| Some(vec![Some(b"x".to_vec()), None]), |_| 2).unwrap();
    assert_eq!(row.num_columns(), 2);
    assert_eq!(row.get_bytes(0), Some(&b"x"[..]));
    assert_eq!(row.get_bytes(1), None);
    assert_eq!(row.get_bytes(2), None);
    assert!(r.next_row(|_| None, |_| 2).is_none());
    let mut partial = full_vtable();
    partial.has_for_each_row = false;
    partial.has_get_error = false;
    partial.has_fetch_row = false;
    let mut q2 = SqlQueryCapability::new();
    q2.install(partial);
    let s2 = q2.open(&t, |_| 1).unwrap();
    assert!(s2.for_each("SELECT 1", (), |_, _, _| 9).is_none());
    let r2 = s2.execute("SELECT 1", |_, _| 9).unwrap();
    assert!(r2.error(|_| panic!("must not call")).is_none());
    assert!(r2.next_row(|_| panic!("must not call"), |_| 1).is_none());
    let mut no_width = full_vtable();
    no_width.has_num_columns = false;
    let mut q3 = SqlQueryCapability::new();
    q3.install(no_width);
    let r3 = q3.open(&t, |_| 1).unwrap().execute("SELECT 1", |_, _| 2).unwrap();
    let narrow = r3.next_row(|_| Some(vec![Some(b"7".to_vec())]), |_| panic!("must not call")).unwrap();
    assert_eq!(narrow.num_columns(), 0);
    assert_eq!(narrow.get_int(0), None);
}

#[test]
fn row_columns_as_text_and_integers() {
    let row = Row::new(
        vec![
            Some(b"42".to_vec()),
            Some(b"  -17\t".to_vec()),
            Some(b"+5".to_vec()),
            Some(b"-9223372036854775808".to_vec()),
            Some(b"9223372036854775808".to_vec()),
            Some(b"12a".to_vec()),
            Some(b"-".to_vec()),
            Some(vec![0xff, 0xfe]),
            None,
            Some("caf\u{e9}".as_bytes().to_vec()),
        ],
        10,
    );
    assert_eq!(row.get_int(0), Some(42));
    assert_eq!(row.get_int(1), Some(-17));
    assert_eq!(row.get_int(2), Some(5));
    assert_eq!(row.get_int(3), Some(i64::MIN));
    assert_eq!(row.get_int(4), None);
    assert_eq!(row.get_int(5), None);
    assert_eq!(row.get_int(6), None);
    assert_eq!(row.get_str(7), None);
    assert_eq!(row.get_int(7), None);
    assert_eq!(row.get_str(8), None);
    assert_eq!(row.get_str(9), Some("caf\u{e9}"));
    assert_eq!(row.get_str(10), None);
    assert_eq!(row.get_str(1), Some("  -17\t"));
}

#[test]
fn closing_sessions_and_results() {
    let t = ThreadHandle::from_raw(3);
    let mut q = SqlQueryCapability::new();
    q.install(full_vtable());
    let s = q.open(&t, |_| 8).unwrap();
    let r = s.execute("SELECT 1", |_, _| 9).unwrap();
    let closed = std::cell::Cell::new(0usize);
    assert!(r.close(|h| closed.set(h)));
    assert_eq!(closed.get(), 9);
    assert!(s.close(|h| closed.set(h)));
    assert_eq!(closed.get(), 8);
    let mut partial = full_vtable();
    partial.has_close_session = false;
    partial.has_close_result = false;
    let mut q2 = SqlQueryCapability::new();
    q2.install(partial);
    let s2 = q2.open(&t, |_| 4).unwrap();
    let r2 = s2.execute("SELECT 1", |_, _| 5).unwrap();
    assert!(!r2.close(|_| panic!("must not call")));
    assert!(!s2.close(|_| panic!("must not call")));
}

#[test]
fn lossy_diagnostic_text() {
    let d = Diag::from_raw(1, DiagCode::Warning, Some(b"01000"), Some(&[b'o', b'k', 0xff]));
    assert_eq!(d.sqlstate, "01000");
    assert_eq!(d.message, "ok\u{fffd}");
    assert_eq!(d.severity, DiagSeverity::Warning);
}

#[test]
fn trimming_removes_unicode_white_space() {
    assert_eq!(trim_white("\u{3000} a b \t\n"), "a b");
    assert_eq!(trim_white("   "), "");
    assert_eq!(trim_white("x"), "x");
    assert_eq!(trim_white("\u{a0}x\u{2028}"), "x");
}
