//! Readiness and wake-ups.

use vstd::prelude::*;

verus! {

/// The outcome of asking an operation to make progress.
#[derive(Debug, PartialEq, Eq)]
pub enum Poll<T> {
    /// The operation is over and yielded this value.
    Ready(T),
    /// The operation has to wait; the task that asked has been registered.
    Pending,
}

/// Room for the waker of the one task that waits for an event.
///
/// Waking does not run anything here: the registered waker is moved to a list of wakers that are
/// due, and whoever owns the list wakes them once the state is consistent again.
pub struct WakerRegistration<W> {
    waker: Option<W>,
}

impl<W> View for WakerRegistration<W> {
    type V = Option<W>;

    /// The registered waker.
    closed spec fn view(&self) -> Option<W> {
        self.waker
    }
}

/// The list of due wakers after waking a registration that held `registered`.
pub open spec fn after_wake<W>(due: Seq<W>, registered: Option<W>) -> Seq<W> {
    match registered {
        Some(w) => due.push(w),
        None => due,
    }
}

impl<W> WakerRegistration<W> {
    /// Creates a registration without a waker.
    pub fn new() -> (r: Self)
        ensures
            r@ is None,
    {
        WakerRegistration { waker: None }
    }

    /// Registers a waker, in place of the one registered before.
    pub fn register(&mut self, waker: W)
        ensures
            final(self)@ == Some(waker),
    {
        self.waker = Some(waker);
    }

    /// Moves the registered waker, if any, to the end of `due`.
    pub fn wake(&mut self, due: &mut Vec<W>)
        ensures
            final(self)@ is None,
            final(due)@ == after_wake(old(due)@, old(self)@),
    {
        if let Some(w) = self.waker.take() {
            due.push(w);
        }
    }
}

/// Waking a registration puts its waker behind those that are due already, and nothing else.
pub proof fn lemma_woken_in_turn<W>(due: Seq<W>, registered: Option<W>)
    ensures
        due.is_prefix_of(after_wake(due, registered)),
        registered matches Some(w) ==> after_wake(due, registered).len() == due.len() + 1
            && after_wake(due, registered).last() == w,
        registered is None ==> after_wake(due, registered) == due,
{
}

} // verus!
