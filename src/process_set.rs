//! The engine's set of auxiliary child processes, each terminated exactly
//! once at teardown.
use vstd::prelude::*;

verus! {

/// Handles of spawned auxiliary processes, in spawn order.
pub struct ProcessSet<T> {
    handles: Vec<T>,
}

impl<T> View for ProcessSet<T> {
    type V = Seq<T>;

    closed spec fn view(&self) -> Seq<T> {
        self.handles@
    }
}

impl<T> ProcessSet<T> {
    /// A set with no tracked process.
    pub fn new() -> (r: ProcessSet<T>)
        ensures
            r@ == Seq::<T>::empty(),
    {
        ProcessSet { handles: Vec::new() }
    }

    /// Tracks the handle of a process that was just spawned.
    pub fn track(&mut self, handle: T)
        ensures
            final(self)@ == old(self)@.push(handle),
    {
        self.handles.push(handle);
    }

    /// How many processes are tracked.
    pub fn len(&self) -> (r: usize)
        ensures
            r == self@.len(),
    {
        self.handles.len()
    }

    /// Hands over every tracked handle, in spawn order, for termination and
    /// leaves the set empty, so that a handle is given out exactly once.
    pub fn shutdown(&mut self) -> (r: Vec<T>)
        ensures
            r@ == old(self)@,
            final(self)@ == Seq::<T>::empty(),
    {
        let mut out: Vec<T> = Vec::new();
        std::mem::swap(&mut out, &mut self.handles);
        out
    }
}

} // verus!
