//! The reconciler: decides, for one request, whether a record is created,
//! its address pushed to the DNS provider and updated, or only touched.
//!
//! It is a state machine. The caller performs each action it asks for
//! against the host record store or the DNS provider and hands back what
//! came of it as the next event, until the machine is done.
use vstd::prelude::*;
use crate::chars::chars_of;
use crate::host::{is_valid_hostname, valid_hostname, Host, HostView, StoreError};
use crate::ip::{ip_literal, is_ip_literal};

verus! {

/// How a successful reconciliation left the record.
#[derive(Debug, Clone, Copy, PartialEq, Eq, Structural)]
pub enum Change {
    /// The name was new: the record was created locally.
    Created,
    /// The address changed: pushed to the provider, then stored.
    Updated,
    /// The address was unchanged: the record was touched.
    Touched,
    /// The address was unchanged, and touching the record failed.
    TouchFailed,
}

/// Why a reconciliation failed.
#[derive(Debug, Clone, Copy, PartialEq, Eq, Structural)]
pub enum ReconcileError {
    /// The hostname or the address is malformed.
    Validation,
    /// The store failed, or lost the record.
    Storage,
    /// The provider refused the push; the store was not changed.
    Gateway,
    /// The provider took the push, but storing the new address failed.
    Inconsistency,
}

/// A successful reconciliation: the record as the store now holds it.
#[derive(Debug)]
pub struct Reconciled {
    pub host: Host,
    pub change: Change,
}

/// Where the machine stands.
#[derive(Debug, Clone, Copy, PartialEq, Eq, Structural)]
pub enum Phase {
    Start,
    Lookup,
    Inserting,
    Relookup,
    Pushing,
    Updating,
    Touching,
    Rereading(Change),
    Finished,
}

/// What came of the last action.
#[derive(Debug)]
pub enum Event {
    /// Nothing has been done yet.
    Begin,
    /// The store's record of the hostname, if any.
    Read(Option<Host>),
    /// The outcome of a store mutation.
    Stored(Result<(), StoreError>),
    /// Whether the provider took the address change.
    Pushed(bool),
}

/// What the caller is to do next.
#[derive(Debug)]
pub enum Action {
    /// Read the hostname's record.
    Read,
    /// Insert a record for the hostname with the address.
    Insert,
    /// Push the address change for the hostname to the provider.
    Push,
    /// Store the new address of the hostname.
    SetAddress,
    /// Touch the hostname's record.
    Touch,
    /// Reconciliation is over.
    Done(Result<Reconciled, ReconcileError>),
}

pub enum EventModel {
    Begin,
    Read(Option<HostView>),
    Stored(Result<(), StoreError>),
    Pushed(bool),
}

pub enum ActionModel {
    Read,
    Insert,
    Push,
    SetAddress,
    Touch,
    Done(Result<(HostView, Change), ReconcileError>),
}

impl View for Event {
    type V = EventModel;

    open spec fn view(&self) -> EventModel {
        match self {
            Event::Begin => EventModel::Begin,
            Event::Read(r) => EventModel::Read(
                match r {
                    Some(h) => Some(h@),
                    None => None,
                },
            ),
            Event::Stored(r) => EventModel::Stored(*r),
            Event::Pushed(b) => EventModel::Pushed(*b),
        }
    }
}

impl View for Action {
    type V = ActionModel;

    open spec fn view(&self) -> ActionModel {
        match self {
            Action::Read => ActionModel::Read,
            Action::Insert => ActionModel::Insert,
            Action::Push => ActionModel::Push,
            Action::SetAddress => ActionModel::SetAddress,
            Action::Touch => ActionModel::Touch,
            Action::Done(r) => ActionModel::Done(
                match r {
                    Ok(x) => Ok((x.host@, x.change)),
                    Err(e) => Err(*e),
                },
            ),
        }
    }
}

/// The events the machine takes in phase `p`.
pub open spec fn accepts(p: Phase, ev: EventModel) -> bool {
    match p {
        Phase::Start => ev is Begin,
        Phase::Lookup | Phase::Relookup | Phase::Rereading(_) => ev is Read,
        Phase::Inserting | Phase::Updating | Phase::Touching => ev is Stored,
        Phase::Pushing => ev is Pushed,
        Phase::Finished => false,
    }
}

/// After a record is found: touch it when its address is `addr`, else push.
pub open spec fn on_found(r: HostView, addr: Seq<char>) -> (Phase, ActionModel) {
    if r.ip == addr {
        (Phase::Touching, ActionModel::Touch)
    } else {
        (Phase::Pushing, ActionModel::Push)
    }
}

/// The machine's transition, for the address `addr`.
pub open spec fn next(p: Phase, addr: Seq<char>, ev: EventModel) -> (Phase, ActionModel) {
    let fail = |e: ReconcileError| (Phase::Finished, ActionModel::Done(Err(e)));
    match (p, ev) {
        (Phase::Start, _) => (Phase::Lookup, ActionModel::Read),
        (Phase::Lookup, EventModel::Read(Some(r))) => on_found(r, addr),
        (Phase::Lookup, EventModel::Read(None)) => (Phase::Inserting, ActionModel::Insert),
        (Phase::Relookup, EventModel::Read(Some(r))) => on_found(r, addr),
        (Phase::Inserting, EventModel::Stored(Ok(()))) => (Phase::Rereading(Change::Created), ActionModel::Read),
        (Phase::Inserting, EventModel::Stored(Err(StoreError::AlreadyExists))) => (Phase::Relookup, ActionModel::Read),
        (Phase::Pushing, EventModel::Pushed(true)) => (Phase::Updating, ActionModel::SetAddress),
        (Phase::Pushing, EventModel::Pushed(false)) => fail(ReconcileError::Gateway),
        (Phase::Updating, EventModel::Stored(Ok(()))) => (Phase::Rereading(Change::Updated), ActionModel::Read),
        (Phase::Updating, EventModel::Stored(Err(_))) => fail(ReconcileError::Inconsistency),
        (Phase::Touching, EventModel::Stored(Ok(()))) => (Phase::Rereading(Change::Touched), ActionModel::Read),
        (Phase::Touching, EventModel::Stored(Err(_))) => (Phase::Rereading(Change::TouchFailed), ActionModel::Read),
        (Phase::Rereading(c), EventModel::Read(Some(r))) => (Phase::Finished, ActionModel::Done(Ok((r, c)))),
        _ => fail(ReconcileError::Storage),
    }
}

/// The reconciliation of one hostname with one address.
#[derive(Debug)]
pub struct Reconciler {
    hostname: String,
    address: String,
    phase: Phase,
}

impl Reconciler {
    pub closed spec fn spec_hostname(&self) -> Seq<char> {
        self.hostname@
    }

    pub closed spec fn spec_address(&self) -> Seq<char> {
        self.address@
    }

    pub closed spec fn spec_phase(&self) -> Phase {
        self.phase
    }

    /// Starts reconciling `hostname` with `address`; both must be valid.
    pub fn new(hostname: String, address: String) -> (r: Result<Reconciler, ReconcileError>)
        ensures
            match r {
                Ok(m) => is_valid_hostname(hostname@) && is_ip_literal(address@) && m.spec_hostname() == hostname@
                    && m.spec_address() == address@ && m.spec_phase() == Phase::Start,
                Err(e) => e == ReconcileError::Validation && !(is_valid_hostname(hostname@) && is_ip_literal(
                    address@,
                )),
            },
    {
        if !valid_hostname(hostname.as_str()) {
            return Err(ReconcileError::Validation);
        }
        let a = chars_of(address.as_str());
        if !ip_literal(&a) {
            return Err(ReconcileError::Validation);
        }
        Ok(Reconciler { hostname, address, phase: Phase::Start })
    }

    pub fn hostname(&self) -> (r: &str)
        ensures
            r@ == self.spec_hostname(),
    {
        self.hostname.as_str()
    }

    pub fn address(&self) -> (r: &str)
        ensures
            r@ == self.spec_address(),
    {
        self.address.as_str()
    }

    pub fn phase(&self) -> (r: Phase)
        ensures
            r == self.spec_phase(),
    {
        self.phase
    }

    /// Whether the machine takes `event` now.
    pub fn accepts(&self, event: &Event) -> (r: bool)
        ensures
            r == accepts(self.spec_phase(), event@),
    {
        match (self.phase, event) {
            (Phase::Start, Event::Begin) => true,
            (Phase::Lookup, Event::Read(_)) | (Phase::Relookup, Event::Read(_)) | (Phase::Rereading(_), Event::Read(_)) => true,
            (Phase::Inserting, Event::Stored(_)) | (Phase::Updating, Event::Stored(_)) | (Phase::Touching, Event::Stored(_)) => true,
            (Phase::Pushing, Event::Pushed(_)) => true,
            _ => false,
        }
    }

    fn found(&mut self, r: &Host) -> (a: Action)
        ensures
            (final(self).phase, a@) == on_found(r@, old(self).address@),
            final(self).hostname == old(self).hostname,
            final(self).address == old(self).address,
    {
        if r.ip.eq(&self.address) {
            self.phase = Phase::Touching;
            Action::Touch
        } else {
            self.phase = Phase::Pushing;
            Action::Push
        }
    }

    fn fail(&mut self, e: ReconcileError) -> (a: Action)
        ensures
            final(self).phase == Phase::Finished,
            a@ == ActionModel::Done(Err(e)),
            final(self).hostname == old(self).hostname,
            final(self).address == old(self).address,
    {
        self.phase = Phase::Finished;
        Action::Done(Err(e))
    }

    /// Takes what came of the last action and says what to do next.
    pub fn step(&mut self, event: Event) -> (a: Action)
        requires
            accepts(old(self).spec_phase(), event@),
        ensures
            (final(self).spec_phase(), a@) == next(old(self).spec_phase(), old(self).spec_address(), event@),
            final(self).spec_hostname() == old(self).spec_hostname(),
            final(self).spec_address() == old(self).spec_address(),
    {
        match (self.phase, event) {
            (Phase::Start, _) => {
                self.phase = Phase::Lookup;
                Action::Read
            },
            (Phase::Lookup, Event::Read(Some(r))) => self.found(&r),
            (Phase::Lookup, Event::Read(None)) => {
                self.phase = Phase::Inserting;
                Action::Insert
            },
            (Phase::Relookup, Event::Read(Some(r))) => self.found(&r),
            (Phase::Inserting, Event::Stored(Ok(()))) => {
                self.phase = Phase::Rereading(Change::Created);
                Action::Read
            },
            (Phase::Inserting, Event::Stored(Err(StoreError::AlreadyExists))) => {
                self.phase = Phase::Relookup;
                Action::Read
            },
            (Phase::Pushing, Event::Pushed(true)) => {
                self.phase = Phase::Updating;
                Action::SetAddress
            },
            (Phase::Pushing, Event::Pushed(false)) => self.fail(ReconcileError::Gateway),
            (Phase::Updating, Event::Stored(Ok(()))) => {
                self.phase = Phase::Rereading(Change::Updated);
                Action::Read
            },
            (Phase::Updating, Event::Stored(Err(_))) => self.fail(ReconcileError::Inconsistency),
            (Phase::Touching, Event::Stored(Ok(()))) => {
                self.phase = Phase::Rereading(Change::Touched);
                Action::Read
            },
            (Phase::Touching, Event::Stored(Err(_))) => {
                self.phase = Phase::Rereading(Change::TouchFailed);
                Action::Read
            },
            (Phase::Rereading(c), Event::Read(Some(r))) => {
                self.phase = Phase::Finished;
                Action::Done(Ok(Reconciled { host: r, change: c }))
            },
            _ => self.fail(ReconcileError::Storage),
        }
    }
}

} // verus!
