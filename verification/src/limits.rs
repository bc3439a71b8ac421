//! Admission control: a capacity-limited permit counter, and the policy
//! that decides which of the configured limiters an operation draws from.

use vstd::prelude::*;

verus! {

/// A counting limiter: at most `capacity` permits are out at a time.
pub struct Limiter {
    pub capacity: u32,
    pub available: u32,
    pub closed: bool,
}

impl Limiter {
    /// Permits out never exceed the capacity.
    pub open spec fn wf(&self) -> bool {
        self.available <= self.capacity
    }

    pub open spec fn spec_capacity(&self) -> u32 {
        self.capacity
    }

    pub open spec fn spec_available(&self) -> u32 {
        self.available
    }

    pub open spec fn is_closed(&self) -> bool {
        self.closed
    }

    /// A permit can be had exactly when the limiter is open and a slot is
    /// free.
    pub open spec fn can_grant(&self) -> bool {
        !self.is_closed() && self.spec_available() > 0
    }

    /// An open limiter with all permits free.
    pub fn new(capacity: u32) -> (r: Limiter)
        ensures
            r.wf(),
            r.spec_capacity() == capacity,
            r.spec_available() == capacity,
            !r.is_closed(),
    {
        Limiter { capacity, available: capacity, closed: false }
    }

    /// Takes one permit if the limiter is open and a slot is free.
    pub fn try_acquire(&mut self) -> (r: bool)
        requires
            old(self).wf(),
        ensures
            final(self).wf(),
            r == old(self).can_grant(),
            final(self).spec_capacity() == old(self).spec_capacity(),
            final(self).is_closed() == old(self).is_closed(),
            r ==> final(self).spec_available() == old(self).spec_available() - 1,
            !r ==> *final(self) == *old(self),
    {
        if !self.closed && self.available > 0 {
            self.available = self.available - 1;
            true
        } else {
            false
        }
    }

    /// Hands a permit back; callers release exactly what they acquired.
    pub fn release(&mut self)
        requires
            old(self).wf(),
            old(self).spec_available() < old(self).spec_capacity(),
        ensures
            final(self).wf(),
            final(self).spec_capacity() == old(self).spec_capacity(),
            final(self).is_closed() == old(self).is_closed(),
            final(self).spec_available() == old(self).spec_available() + 1,
    {
        self.available = self.available + 1;
    }

    /// Closes the limiter: later acquisitions fail.
    pub fn close(&mut self)
        requires
            old(self).wf(),
        ensures
            final(self).wf(),
            final(self).is_closed(),
            final(self).spec_capacity() == old(self).spec_capacity(),
            final(self).spec_available() == old(self).spec_available(),
    {
        self.closed = true;
    }
}

/// A limiter of capacity one serializes its callers: after one permit
/// has been granted and not yet released, no further permit can be had.
pub proof fn lemma_capacity_one_serializes(before: Limiter, held: Limiter)
    requires
        before.wf(),
        before.spec_capacity() == 1,
        before.can_grant(),
        held.spec_available() == before.spec_available() - 1,
        held.is_closed() == before.is_closed(),
    ensures
        !held.can_grant(),
{
}

/// Which limiter an operation must draw its permit from: the global
/// limiter when one is configured — the local one is then ignored
/// entirely — else the local one, else none.
#[derive(Clone, Copy, Debug, PartialEq, Eq, Structural)]
pub enum LimiterChoice {
    Global,
    Local,
    Unlimited,
}

/// The admission policy over the two optional limiters.
pub open spec fn spec_limiter_choice(has_global: bool, has_local: bool) -> LimiterChoice {
    if has_global {
        LimiterChoice::Global
    } else if has_local {
        LimiterChoice::Local
    } else {
        LimiterChoice::Unlimited
    }
}

/// Decides which limiter to acquire: global strictly precedes local, and
/// the two are never combined.
pub fn resolve_limiter(has_global: bool, has_local: bool) -> (r: LimiterChoice)
    ensures
        r == spec_limiter_choice(has_global, has_local),
        has_global ==> r == LimiterChoice::Global,
        !has_global && has_local ==> r == LimiterChoice::Local,
        !has_global && !has_local ==> r == LimiterChoice::Unlimited,
{
    if has_global {
        LimiterChoice::Global
    } else if has_local {
        LimiterChoice::Local
    } else {
        LimiterChoice::Unlimited
    }
}

} // verus!
