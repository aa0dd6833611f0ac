//! A slot holding a resource that one user at a time may claim.

use vstd::prelude::*;

verus! {

pub struct Slot<T> {
    is_claimed: bool,
    inner: T,
}

impl<T> Slot<T> {
    /// Whether someone holds the slot.
    pub closed spec fn claimed(&self) -> bool {
        self.is_claimed
    }

    /// The resource in the slot.
    pub closed spec fn content(&self) -> T {
        self.inner
    }

    /// An unclaimed slot holding `inner`.
    pub fn new(inner: T) -> (s: Slot<T>)
        ensures
            !s.claimed(),
            s.content() == inner,
    {
        Slot { inner, is_claimed: false }
    }

    /// Claims the slot; `None` if it was claimed already.
    pub fn claim(&mut self) -> (r: Option<&T>)
        ensures
            final(self).claimed(),
            final(self).content() == old(self).content(),
            old(self).claimed() ==> r is None,
            !old(self).claimed() ==> r == Some(&final(self).content()),
    {
        if self.is_claimed {
            None
        } else {
            self.is_claimed = true;
            Some(&self.inner)
        }
    }

    /// Looks at the resource without claiming the slot.
    pub fn peek(&self) -> (r: &T)
        ensures
            *r == self.content(),
    {
        &self.inner
    }

    /// The resource, to change in place; the claim stays as it is.
    pub fn peek_mut(&mut self) -> (r: &mut T)
        ensures
            *r == old(self).content(),
            final(self).content() == *final(r),
            final(self).claimed() == old(self).claimed(),
    {
        &mut self.inner
    }

    /// Gives the claim up; the slot may be claimed again.
    pub fn release(&mut self)
        ensures
            !final(self).claimed(),
            final(self).content() == old(self).content(),
    {
        self.is_claimed = false;
    }

    /// Whether the slot is claimed.
    pub fn is_claimed(&self) -> (r: bool)
        ensures
            r == self.claimed(),
    {
        self.is_claimed
    }
}

} // verus!
