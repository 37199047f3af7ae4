//! A value together with the cleanup that it is owed.

use vstd::prelude::*;

verus! {

/// Holds a value and the action that cleans it up. The holder either takes the
/// value out, which cancels the cleanup, or runs the cleanup on it. Both consume
/// the guard, so neither can happen twice.
pub struct OnDropDefer<T, F: FnOnce(T)> {
    value: T,
    on_drop: F,
}

impl<T, F: FnOnce(T)> OnDropDefer<T, F> {
    /// The value that is guarded.
    pub closed spec fn value(&self) -> T {
        self.value
    }

    /// The cleanup that the value is owed.
    pub closed spec fn cleanup(&self) -> F {
        self.on_drop
    }

    /// Guards `v` with the cleanup `on_drop`.
    pub fn new(v: T, on_drop: F) -> (guard: Self)
        ensures
            guard.value() == v,
            guard.cleanup() == on_drop,
    {
        OnDropDefer { value: v, on_drop }
    }

    /// Takes the value out. The cleanup is not run.
    pub fn take(self) -> (v: T)
        ensures
            v == self.value(),
    {
        self.value
    }

    /// The value that is guarded.
    pub fn as_ref(&self) -> (v: &T)
        ensures
            *v == self.value(),
    {
        &self.value
    }

    /// The value that is guarded, for changing it. The cleanup stays the same.
    pub fn as_mut(&mut self) -> (v: &mut T)
        ensures
            *v == old(self).value(),
            final(self).value() == *final(v),
            final(self).cleanup() == old(self).cleanup(),
    {
        &mut self.value
    }

    /// Runs the cleanup on the value.
    pub fn run(self)
        requires
            call_requires(self.cleanup(), (self.value(),)),
        ensures
            call_ensures(self.cleanup(), (self.value(),), ()),
    {
        let OnDropDefer { value, on_drop } = self;
        on_drop(value)
    }
}

} // verus!
