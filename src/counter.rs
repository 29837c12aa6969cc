use vstd::prelude::*;

verus! {

/// A small unsigned counter whose arithmetic never wraps.
#[derive(Debug, Clone, Copy)]
pub struct Counter(pub u32);

impl Counter {
    pub fn zero() -> (r: Self)
        ensures
            r.0 == 0,
    {
        Self(0)
    }

    pub fn one() -> (r: Self)
        ensures
            r.0 == 1,
    {
        Self(1)
    }

    pub fn is_one(&self) -> (r: bool)
        ensures
            r == (self.0 == 1),
    {
        self.0 == 1
    }

    pub fn is_zero(&self) -> (r: bool)
        ensures
            r == (self.0 == 0),
    {
        self.0 == 0
    }

    pub fn current(&self) -> (r: u32)
        ensures
            r == self.0,
    {
        self.0
    }

    #[must_use]
    pub fn increment(self) -> (r: Self)
        requires
            self.0 < u32::MAX,
        ensures
            r.0 == self.0 + 1,
    {
        Self(self.0 + 1)
    }

    #[must_use]
    pub fn decrement(self) -> (r: Self)
        requires
            self.0 > 0,
        ensures
            r.0 == self.0 - 1,
    {
        Self(self.0 - 1)
    }

    pub fn increment_self(&mut self)
        requires
            old(self).0 < u32::MAX,
        ensures
            final(self).0 == old(self).0 + 1,
    {
        *self = self.increment()
    }

    pub fn decrement_self(&mut self)
        requires
            old(self).0 > 0,
        ensures
            final(self).0 == old(self).0 - 1,
    {
        *self = self.decrement()
    }
}

} // verus!
