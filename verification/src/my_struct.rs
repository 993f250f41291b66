//! The example counter type whose implementation block drives the
//! generator, together with the companion trait the generator emits for
//! it and an implementation of that trait for the identity-wrapped
//! counter: the wrapped form redefines `increment_by` while every other
//! method still reaches the plain counter.

use vstd::prelude::*;
use crate::with_id::WithId;

verus! {

/// A counter.
#[derive(Clone, Debug)]
pub struct MyStruct {
    pub count: usize,
}

impl MyStruct {
    /// Adds one to the counter.
    pub fn increment(&mut self)
        requires
            old(self).count < usize::MAX,
        ensures
            final(self).count == old(self).count + 1,
    {
        self.count = self.count + 1;
    }

    /// Adds `amount` to the counter.
    pub fn increment_by(&mut self, amount: usize)
        requires
            old(self).count + amount <= usize::MAX,
        ensures
            final(self).count == old(self).count + amount,
    {
        self.count = self.count + amount;
    }
}

/// The companion trait that the generator derives for `MyStruct` under
/// the default policy with `increment` marked `skip`: it holds the
/// signature of `increment_by` alone. Nothing checks that a trait method
/// corresponds to a method of the wrapped type; keeping the names in
/// step is left to the implementor.
pub trait MyStructOverwrites {
    /// The counter reached through the implementor.
    spec fn count_of(&self) -> int;

    fn increment_by(&mut self, amount: usize)
        requires
            old(self).count_of() + amount <= usize::MAX,
        ensures
            final(self).count_of() == old(self).count_of() + amount,
    ;
}

impl MyStructOverwrites for WithId<MyStruct> {
    open spec fn count_of(&self) -> int {
        self.inner.count as int
    }

    /// The redefined `increment_by`: it forwards to the wrapped counter,
    /// leaving the identifier untouched.
    fn increment_by(&mut self, amount: usize)
        ensures
            final(self).id_view() == old(self).id_view(),
    {
        self.inner.increment_by(amount);
    }
}

} // verus!
