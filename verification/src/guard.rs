//! A guard that runs a closing action once.

use vstd::prelude::*;

verus! {

/// An action that is still to be run, if it has not been run yet.
pub struct ScopeGuard<F: FnOnce()> {
    pub f: Option<F>,
}

/// A guard with the action `f`.
pub fn scopeguard<F: FnOnce()>(f: F) -> (g: ScopeGuard<F>)
    ensures
        g.f == Some(f),
{
    ScopeGuard { f: Some(f) }
}

impl<F: FnOnce()> ScopeGuard<F> {
    /// Runs the action, unless that has been done before.
    pub fn close(&mut self)
        requires
            old(self).f matches Some(f) ==> call_requires(f, ()),
        ensures
            final(self).f is None,
            old(self).f matches Some(f) ==> call_ensures(f, (), ()),
    {
        if let Some(f) = self.f.take() {
            f();
        }
    }
}

} // verus!
