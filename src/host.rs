//! The host record and the semantics of the host record store.
use vstd::prelude::*;
use crate::ip::is_ip_literal;
use crate::request::{in_class, word_char, TokenClass, MAX_HOST_LEN};

verus! {

/// The last-known state of one dynamic-DNS name. Times are seconds since
/// the Unix epoch.
#[derive(Debug)]
pub struct Host {
    pub name: String,
    pub ip: String,
    /// When the address last changed.
    pub last_updated: u64,
    /// When the name was last reconciled, changed or not.
    pub last_touched: u64,
}

/// A host record as mathematical values.
pub struct HostView {
    pub name: Seq<char>,
    pub ip: Seq<char>,
    pub last_updated: int,
    pub last_touched: int,
}

impl View for Host {
    type V = HostView;

    open spec fn view(&self) -> HostView {
        HostView {
            name: self.name@,
            ip: self.ip@,
            last_updated: self.last_updated as int,
            last_touched: self.last_touched as int,
        }
    }
}

/// A hostname the reconciler takes: one to 63 Unicode word characters.
pub open spec fn is_valid_hostname(h: Seq<char>) -> bool {
    &&& 1 <= h.len() <= MAX_HOST_LEN
    &&& forall|i: int| 0 <= i < h.len() ==> in_class(#[trigger] h[i], TokenClass::Word)
}

/// A stored record keyed by `h` and consistent with the clock `now`.
pub open spec fn record_wf(h: Seq<char>, r: HostView, now: int) -> bool {
    &&& r.name == h
    &&& is_valid_hostname(h)
    &&& is_ip_literal(r.ip)
    &&& 0 <= r.last_updated <= r.last_touched <= now
}

/// The host table: hostname to record.
pub type HostTable = Map<Seq<char>, HostView>;

/// Every record of the table is well formed, none stamped after `now`.
pub open spec fn table_wf(db: HostTable, now: int) -> bool {
    forall|h: Seq<char>| #[trigger] db.contains_key(h) ==> record_wf(h, db[h], now)
}

/// Errors of the host record store.
#[derive(Debug, Clone, Copy, PartialEq, Eq, Structural)]
pub enum StoreError {
    /// The record is absent.
    NotFound,
    /// A record of that name exists already.
    AlreadyExists,
    /// Any other failure of the storage layer.
    Failed,
}

/// `Get`: the record of `h`, if any.
pub open spec fn store_get(db: HostTable, h: Seq<char>) -> Option<HostView> {
    if db.contains_key(h) {
        Some(db[h])
    } else {
        None
    }
}

/// `Insert`: a new record stamped `now` on both times; refused when `h`
/// exists.
pub open spec fn store_insert(db: HostTable, h: Seq<char>, a: Seq<char>, now: int) -> (HostTable, Result<(), StoreError>) {
    if db.contains_key(h) {
        (db, Err(StoreError::AlreadyExists))
    } else {
        (db.insert(h, HostView { name: h, ip: a, last_updated: now, last_touched: now }), Ok(()))
    }
}

/// `UpdateAddress`: a new address, both times set to `now`.
pub open spec fn store_set_address(db: HostTable, h: Seq<char>, a: Seq<char>, now: int) -> (HostTable, Result<(), StoreError>) {
    if db.contains_key(h) {
        (db.insert(h, HostView { ip: a, last_updated: now, last_touched: now, ..db[h] }), Ok(()))
    } else {
        (db, Err(StoreError::NotFound))
    }
}

/// `Touch`: only the touch time is set to `now`.
pub open spec fn store_touch(db: HostTable, h: Seq<char>, now: int) -> (HostTable, Result<(), StoreError>) {
    if db.contains_key(h) {
        (db.insert(h, HostView { last_touched: now, ..db[h] }), Ok(()))
    } else {
        (db, Err(StoreError::NotFound))
    }
}

/// Whether `h` is a hostname the reconciler takes.
pub fn valid_hostname(h: &str) -> (r: bool)
    ensures
        r == is_valid_hostname(h@),
{
    let n = h.unicode_len();
    if n < 1 || n > MAX_HOST_LEN {
        return false;
    }
    let mut i: usize = 0;
    while i < n
        invariant
            n == h@.len(),
            i <= n,
            forall|j: int| 0 <= j < i ==> in_class(#[trigger] h@[j], TokenClass::Word),
        decreases n - i,
    {
        let c = h.get_char(i);
        if !word_char(c) {
            return false;
        }
        i += 1;
    }
    true
}

} // verus!
