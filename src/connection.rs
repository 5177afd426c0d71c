//! The exchange slot of a leased connection: at most one request is outstanding.
use vstd::prelude::*;

verus! {

/// A connection leased to one transaction. It carries at most one outstanding
/// exchange, tagged with the party that started it; a failed terminal exchange
/// poisons it.
pub struct ManagedConnection {
    in_flight: Option<u64>,
    poisoned: bool,
}

impl ManagedConnection {
    pub closed spec fn outstanding(&self) -> Option<u64> {
        self.in_flight
    }

    pub closed spec fn is_poisoned(&self) -> bool {
        self.poisoned
    }

    pub open spec fn idle(&self) -> bool {
        self.outstanding() is None
    }

    /// A freshly leased connection with nothing outstanding.
    pub fn new() -> (r: Self)
        ensures
            r.idle(),
            !r.is_poisoned(),
    {
        ManagedConnection { in_flight: None, poisoned: false }
    }

    /// Nothing is outstanding.
    pub fn is_idle(&self) -> (r: bool)
        ensures
            r == self.idle(),
    {
        self.in_flight.is_none()
    }

    /// Whether a failed terminal exchange left the connection unusable.
    pub fn poisoned(&self) -> (r: bool)
        ensures
            r == self.is_poisoned(),
    {
        self.poisoned
    }

    /// Starts an exchange on behalf of `owner`; only one may be outstanding.
    pub fn start(&mut self, owner: u64)
        requires
            old(self).idle(),
        ensures
            final(self).outstanding() == Some(owner),
            final(self).is_poisoned() == old(self).is_poisoned(),
    {
        self.in_flight = Some(owner);
    }

    /// Ends the outstanding exchange of `owner`.
    pub fn finish(&mut self, owner: u64)
        requires
            old(self).outstanding() == Some(owner),
        ensures
            final(self).idle(),
            final(self).is_poisoned() == old(self).is_poisoned(),
    {
        self.in_flight = None;
    }

    /// Marks the connection as not to be reused.
    pub fn poison(&mut self)
        ensures
            final(self).outstanding() == old(self).outstanding(),
            final(self).is_poisoned(),
    {
        self.poisoned = true;
    }
}

} // verus!
