//! Whole reconciliations: the reconciler's transitions run against the
//! store's semantics and a provider that either takes or refuses pushes,
//! and the laws that every such run obeys.
use vstd::prelude::*;
use crate::host::{store_get, store_insert, store_set_address, store_touch, table_wf, record_wf, is_valid_hostname, HostTable, HostView};
use crate::ip::is_ip_literal;
use crate::reconcile::{next, ActionModel, Change, EventModel, Phase, ReconcileError};

verus! {

/// What a reconciliation did: the table it left, the pushes it made to the
/// provider (hostname, address), and its result.
pub struct Outcome {
    pub table: HostTable,
    pub pushes: Seq<(Seq<char>, Seq<char>)>,
    pub result: Option<Result<(HostView, Change), ReconcileError>>,
}

/// The store's or the provider's answer to `act`, at time `now`.
pub open spec fn respond(
    db: HostTable,
    h: Seq<char>,
    a: Seq<char>,
    now: int,
    gateway_ok: bool,
    act: ActionModel,
) -> (HostTable, EventModel) {
    match act {
        ActionModel::Read => (db, EventModel::Read(store_get(db, h))),
        ActionModel::Insert => {
            let (d, r) = store_insert(db, h, a, now);
            (d, EventModel::Stored(r))
        },
        ActionModel::Push => (db, EventModel::Pushed(gateway_ok)),
        ActionModel::SetAddress => {
            let (d, r) = store_set_address(db, h, a, now);
            (d, EventModel::Stored(r))
        },
        ActionModel::Touch => {
            let (d, r) = store_touch(db, h, now);
            (d, EventModel::Stored(r))
        },
        ActionModel::Done(_) => (db, EventModel::Begin),
    }
}

/// The machine in phase `p`, handed `ev`, run for at most `fuel` more
/// actions.
pub open spec fn run_from(
    p: Phase,
    ev: EventModel,
    db: HostTable,
    h: Seq<char>,
    a: Seq<char>,
    now: int,
    gateway_ok: bool,
    fuel: nat,
) -> Outcome
    decreases fuel,
{
    let (p2, act) = next(p, a, ev);
    if let ActionModel::Done(res) = act {
        Outcome { table: db, pushes: Seq::empty(), result: Some(res) }
    } else if fuel == 0 {
        Outcome { table: db, pushes: Seq::empty(), result: None }
    } else {
        let (db2, ev2) = respond(db, h, a, now, gateway_ok, act);
        let o = run_from(p2, ev2, db2, h, a, now, gateway_ok, (fuel - 1) as nat);
        Outcome {
            pushes: if act is Push {
                seq![(h, a)] + o.pushes
            } else {
                o.pushes
            },
            ..o
        }
    }
}

/// Reconciling `h` with `a` at time `now` against the table `db`.
pub open spec fn reconcile_run(db: HostTable, h: Seq<char>, a: Seq<char>, now: int, gateway_ok: bool) -> Outcome {
    run_from(Phase::Start, EventModel::Begin, db, h, a, now, gateway_ok, 8)
}

/// The record that a successful reconciliation returned.
pub open spec fn record_of(o: Outcome) -> HostView {
    o.result->Some_0->Ok_0.0
}

/// A run with a working provider succeeds and leaves the record of `h`
/// with address `a`, touched at `now`.
pub proof fn lemma_run_succeeds(db: HostTable, h: Seq<char>, a: Seq<char>, now: int)
    ensures
        ({
            let o = reconcile_run(db, h, a, now, true);
            &&& o.result matches Some(Ok((r, _)))
            &&& o.table.contains_key(h)
            &&& o.table[h] == record_of(o)
            &&& record_of(o).ip == a
            &&& record_of(o).last_touched == now
            &&& record_of(o).name == (if db.contains_key(h) { db[h].name } else { h })
            &&& record_of(o).last_updated == if db.contains_key(h) && db[h].ip == a {
                db[h].last_updated
            } else {
                now
            }
        }),
{
    reveal_with_fuel(run_from, 8);
}

/// The first reconciliation of a name the table does not hold creates its
/// record locally and calls the provider not at all.
pub proof fn lemma_first_reconcile_is_local(db: HostTable, h: Seq<char>, a: Seq<char>, now: int, gateway_ok: bool)
    requires
        !db.contains_key(h),
    ensures
        ({
            let o = reconcile_run(db, h, a, now, gateway_ok);
            let r = HostView { name: h, ip: a, last_updated: now, last_touched: now };
            &&& o.pushes.len() == 0
            &&& o.result == Some(Ok::<(HostView, Change), ReconcileError>((r, Change::Created)))
            &&& o.table == db.insert(h, r)
        }),
{
    reveal_with_fuel(run_from, 8);
}

/// A reconciliation calls the provider at most once, and only when the
/// table holds `h` with an address other than `a`.
pub proof fn lemma_at_most_one_push(db: HostTable, h: Seq<char>, a: Seq<char>, now: int, gateway_ok: bool)
    ensures
        ({
            let o = reconcile_run(db, h, a, now, gateway_ok);
            &&& o.pushes.len() <= 1
            &&& o.pushes.len() == 1 <==> db.contains_key(h) && db[h].ip != a
            &&& o.pushes.len() == 1 ==> o.pushes[0] == (h, a)
        }),
{
    reveal_with_fuel(run_from, 8);
}

/// When the provider refuses the push, the table is left exactly as it was
/// and the run fails with a gateway error.
pub proof fn lemma_failed_push_changes_nothing(db: HostTable, h: Seq<char>, a: Seq<char>, now: int)
    ensures
        ({
            let o = reconcile_run(db, h, a, now, false);
            o.pushes.len() > 0 ==> o.table == db && o.result == Some(
                Err::<(HostView, Change), ReconcileError>(ReconcileError::Gateway),
            )
        }),
{
    reveal_with_fuel(run_from, 8);
}

/// Reconciling `h` with `a1` and later with another address `a2` calls the
/// provider exactly once in the second run, with `a2`, and leaves the record
/// with address `a2`, updated at the second run's time.
pub proof fn lemma_changed_address_pushes_once(
    db: HostTable,
    h: Seq<char>,
    a1: Seq<char>,
    a2: Seq<char>,
    t1: int,
    t2: int,
)
    requires
        table_wf(db, t1),
        a1 != a2,
        t1 < t2,
    ensures
        ({
            let o1 = reconcile_run(db, h, a1, t1, true);
            let o2 = reconcile_run(o1.table, h, a2, t2, true);
            &&& o2.pushes == seq![(h, a2)]
            &&& o2.result matches Some(Ok((_, Change::Updated)))
            &&& record_of(o2).ip == a2
            &&& record_of(o2).last_updated == t2
            &&& record_of(o1).last_updated < record_of(o2).last_updated
            &&& o2.table[h] == record_of(o2)
        }),
{
    lemma_run_succeeds(db, h, a1, t1);
    if db.contains_key(h) {
        assert(db[h].last_updated <= t1);
    }
    let o1 = reconcile_run(db, h, a1, t1, true);
    lemma_run_succeeds(o1.table, h, a2, t2);
    lemma_at_most_one_push(o1.table, h, a2, t2, true);
    reveal_with_fuel(run_from, 8);
}

/// Reconciling `h` with `a` twice in a row makes no provider call the
/// second time; the record keeps its address and update time, and its touch
/// time moves on to the second run's.
pub proof fn lemma_repeat_is_touch_only(
    db: HostTable,
    h: Seq<char>,
    a: Seq<char>,
    t1: int,
    t2: int,
    gateway_ok: bool,
)
    requires
        t1 < t2,
    ensures
        ({
            let o1 = reconcile_run(db, h, a, t1, true);
            let o2 = reconcile_run(o1.table, h, a, t2, gateway_ok);
            &&& o2.pushes.len() == 0
            &&& o2.result matches Some(Ok((_, Change::Touched)))
            &&& record_of(o2).ip == record_of(o1).ip
            &&& record_of(o2).last_updated == record_of(o1).last_updated
            &&& record_of(o2).last_touched == t2
            &&& record_of(o1).last_touched < record_of(o2).last_touched
        }),
{
    lemma_run_succeeds(db, h, a, t1);
    reveal_with_fuel(run_from, 8);
}

/// A run leaves the table as it was, or holds in it the record it returns:
/// with address `a`, touched at `now`, updated at `now` or when it was
/// before.
proof fn lemma_run_table(db: HostTable, h: Seq<char>, a: Seq<char>, now: int, gateway_ok: bool)
    ensures
        ({
            let o = reconcile_run(db, h, a, now, gateway_ok);
            let r = record_of(o);
            ||| o.table == db
            ||| {
                &&& o.result matches Some(Ok(_))
                &&& o.table == db.insert(h, r)
                &&& r.ip == a
                &&& r.last_touched == now
                &&& r.name == (if db.contains_key(h) { db[h].name } else { h })
                &&& (r.last_updated == now || (db.contains_key(h) && r.last_updated == db[h].last_updated))
            }
        }),
{
    reveal_with_fuel(run_from, 8);
}

/// A run keeps the table well formed: one record per name, each with a
/// valid name and address, touched no earlier than updated and no later
/// than `now`.
pub proof fn lemma_run_keeps_table_wf(
    db: HostTable,
    h: Seq<char>,
    a: Seq<char>,
    now: int,
    gateway_ok: bool,
)
    requires
        0 <= now,
        table_wf(db, now),
        is_valid_hostname(h),
        is_ip_literal(a),
    ensures
        table_wf(reconcile_run(db, h, a, now, gateway_ok).table, now),
{
    lemma_run_table(db, h, a, now, gateway_ok);
    let o = reconcile_run(db, h, a, now, gateway_ok);
    assert forall|k: Seq<char>| #[trigger] o.table.contains_key(k) implies record_wf(k, o.table[k], now) by {
        if db.contains_key(h) {
            assert(record_wf(h, db[h], now));
        }
        if o.table == db {
            assert(record_wf(k, db[k], now));
        } else if k != h {
            assert(db.contains_key(k) && o.table[k] == db[k]);
            assert(record_wf(k, db[k], now));
        }
    }
}

} // verus!
