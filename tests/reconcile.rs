use dyndns::host::{valid_hostname, Host, StoreError};
use dyndns::reconcile::{Action, Change, Event, Phase, ReconcileError, Reconciled, Reconciler};
use std::collections::HashMap;

struct Table {
    rows: HashMap<String, Host>,
    now: u64,
    fail_writes: bool,
}

struct Provider {
    ok: bool,
    pushes: Vec<(String, String)>,
}

fn copy(h: &Host) -> Host {
    Host { name: h.name.clone(), ip: h.ip.clone(), last_updated: h.last_updated, last_touched: h.last_touched }
}

fn run(t: &mut Table, p: &mut Provider, host: &str, ip: &str) -> Result<Reconciled, ReconcileError> {
    let mut m = Reconciler::new(host.to_string(), ip.to_string())?;
    let mut ev = Event::Begin;
    loop {
        assert!(m.accepts(&ev));
        let h = m.hostname().to_string();
        let a = m.address().to_string();
        ev = match m.step(ev) {
            Action::Read => Event::Read(t.rows.get(&h).map(copy)),
            Action::Insert => Event::Stored(if t.fail_writes {
                Err(StoreError::Failed)
            } else if t.rows.contains_key(&h) {
                Err(StoreError::AlreadyExists)
            } else {
                t.rows.insert(h.clone(), Host { name: h, ip: a, last_updated: t.now, last_touched: t.now });
                Ok(())
            }),
            Action::Push => {
                p.pushes.push((h, a));
                Event::Pushed(p.ok)
            },
            Action::SetAddress => Event::Stored(match t.rows.get_mut(&h) {
                _ if t.fail_writes => Err(StoreError::Failed),
                Some(r) => {
                    r.ip = a;
                    r.last_updated = t.now;
                    r.last_touched = t.now;
                    Ok(())
                },
                None => Err(StoreError::NotFound),
            }),
            Action::Touch => Event::Stored(match t.rows.get_mut(&h) {
                _ if t.fail_writes => Err(StoreError::Failed),
                Some(r) => {
                    r.last_touched = t.now;
                    Ok(())
                },
                None => Err(StoreError::NotFound),
            }),
            Action::Done(r) => return r,
        };
    }
}

fn fresh() -> (Table, Provider) {
    (Table { rows: HashMap::new(), now: 100, fail_writes: false }, Provider { ok: true, pushes: Vec::new() })
}

#[test]
fn first_reconcile_creates_without_push() {
    let (mut t, mut p) = fresh();
    let r = run(&mut t, &mut p, "test", "192.168.100.1").unwrap();
    assert_eq!(Change::Created, r.change);
    assert_eq!("test", r.host.name);
    assert_eq!("192.168.100.1", r.host.ip);
    assert_eq!((100, 100), (r.host.last_updated, r.host.last_touched));
    assert!(p.pushes.is_empty());
}

#[test]
fn changed_address_pushes_once() {
    let (mut t, mut p) = fresh();
    run(&mut t, &mut p, "test", "10.0.0.1").unwrap();
    t.now = 200;
    let r = run(&mut t, &mut p, "test", "fc00::1").unwrap();
    assert_eq!(Change::Updated, r.change);
    assert_eq!(vec![("test".to_string(), "fc00::1".to_string())], p.pushes);
    assert_eq!("fc00::1", r.host.ip);
    assert_eq!((200, 200), (r.host.last_updated, r.host.last_touched));
}

#[test]
fn repeat_only_touches() {
    let (mut t, mut p) = fresh();
    run(&mut t, &mut p, "test", "10.0.0.1").unwrap();
    t.now = 300;
    let r = run(&mut t, &mut p, "test", "10.0.0.1").unwrap();
    assert_eq!(Change::Touched, r.change);
    assert!(p.pushes.is_empty());
    assert_eq!("10.0.0.1", r.host.ip);
    assert_eq!((100, 300), (r.host.last_updated, r.host.last_touched));
}

#[test]
fn failed_push_leaves_record() {
    let (mut t, mut p) = fresh();
    run(&mut t, &mut p, "test", "10.0.0.1").unwrap();
    p.ok = false;
    t.now = 400;
    let r = run(&mut t, &mut p, "test", "10.0.0.2");
    assert_eq!(ReconcileError::Gateway, r.unwrap_err());
    assert_eq!(1, p.pushes.len());
    let h = &t.rows["test"];
    assert_eq!(("10.0.0.1", 100, 100), (h.ip.as_str(), h.last_updated, h.last_touched));
}

#[test]
fn failed_store_after_push_is_inconsistency() {
    let (mut t, mut p) = fresh();
    run(&mut t, &mut p, "test", "10.0.0.1").unwrap();
    t.fail_writes = true;
    let r = run(&mut t, &mut p, "test", "10.0.0.2");
    assert_eq!(ReconcileError::Inconsistency, r.unwrap_err());
    assert_eq!(1, p.pushes.len());
}

#[test]
fn failed_touch_still_returns_record() {
    let (mut t, mut p) = fresh();
    run(&mut t, &mut p, "test", "10.0.0.1").unwrap();
    t.fail_writes = true;
    t.now = 500;
    let r = run(&mut t, &mut p, "test", "10.0.0.1").unwrap();
    assert_eq!(Change::TouchFailed, r.change);
    assert_eq!(100, r.host.last_touched);
}

#[test]
fn failed_insert_is_storage_error() {
    let (mut t, mut p) = fresh();
    t.fail_writes = true;
    assert_eq!(ReconcileError::Storage, run(&mut t, &mut p, "test", "10.0.0.1").unwrap_err());
}

#[test]
fn lost_creation_race_falls_through() {
    let mut m = Reconciler::new("test".to_string(), "10.0.0.2".to_string()).unwrap();
    assert!(matches!(m.step(Event::Begin), Action::Read));
    assert!(matches!(m.step(Event::Read(None)), Action::Insert));
    assert!(matches!(m.step(Event::Stored(Err(StoreError::AlreadyExists))), Action::Read));
    assert_eq!(Phase::Relookup, m.phase());
    let other = Host { name: "test".to_string(), ip: "10.0.0.1".to_string(), last_updated: 1, last_touched: 1 };
    assert!(matches!(m.step(Event::Read(Some(other))), Action::Push));
}

#[test]
fn record_vanishing_is_storage_error() {
    let mut m = Reconciler::new("test".to_string(), "10.0.0.2".to_string()).unwrap();
    m.step(Event::Begin);
    m.step(Event::Read(None));
    m.step(Event::Stored(Ok(())));
    assert!(matches!(m.step(Event::Read(None)), Action::Done(Err(ReconcileError::Storage))));
    assert_eq!(Phase::Finished, m.phase());
    assert!(!m.accepts(&Event::Begin));
}

#[test]
fn invalid_inputs_are_rejected() {
    assert_eq!(ReconcileError::Validation, Reconciler::new(String::new(), "10.0.0.1".to_string()).unwrap_err());
    assert_eq!(ReconcileError::Validation, Reconciler::new("test".to_string(), String::new()).unwrap_err());
    assert_eq!(ReconcileError::Validation, Reconciler::new("a.b".to_string(), "10.0.0.1".to_string()).unwrap_err());
    assert_eq!(ReconcileError::Validation, Reconciler::new("test".to_string(), "999.0.0.1".to_string()).unwrap_err());
}

#[test]
fn hostname_syntax() {
    assert!(valid_hostname("test_1"));
    assert!(valid_hostname(&"x".repeat(63)));
    assert!(!valid_hostname(&"x".repeat(64)));
    assert!(!valid_hostname(""));
    assert!(!valid_hostname("a-b"));
}

#[test]
fn accepts_only_expected_events() {
    let m = Reconciler::new("test".to_string(), "10.0.0.1".to_string()).unwrap();
    assert_eq!(Phase::Start, m.phase());
    assert!(m.accepts(&Event::Begin));
    assert!(!m.accepts(&Event::Pushed(true)));
}

#[test]
fn unicode_hostname_is_valid() {
    assert!(valid_hostname("münchen"));
    assert!(Reconciler::new("münchen".to_string(), "10.0.0.1".to_string()).is_ok());
}
