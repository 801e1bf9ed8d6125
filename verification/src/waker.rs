//! The hand-off between the threads that read a child's output and the task
//! that sends it on: the task leaves its waker here, a reader wakes it.

use vstd::prelude::*;
use std::task::Waker;

verus! {

#[verifier::external_type_specification]
#[verifier::external_body]
pub struct ExWaker(Waker);

/// `Waker::clone` of the standard library: a second handle for the same
/// task. Nothing is claimed of it.
#[verifier::external_body]
fn second_handle(waker: &Waker) -> Waker {
    waker.clone()
}

/// `Waker::wake` of the standard library: wakes the task and uses the handle
/// up. Nothing is claimed of it.
#[verifier::external_body]
fn wake_task(waker: Waker) {
    waker.wake()
}

/// A slot for at most one waker.
#[derive(Debug)]
pub struct RedarrowWaker {
    waker: Option<Waker>,
}

impl RedarrowWaker {
    /// Whether a waker is waiting in the slot.
    pub closed spec fn armed(&self) -> bool {
        self.waker is Some
    }

    /// An empty slot.
    pub fn new() -> (r: Self)
        ensures
            !r.armed(),
    {
        RedarrowWaker { waker: None }
    }

    /// Leaves a handle of `waker` in the slot if the slot is empty. A slot
    /// that holds one already keeps it.
    pub fn register(&mut self, waker: &Waker)
        ensures
            final(self).armed(),
            old(self).armed() ==> *final(self) == *old(self),
    {
        match self.waker {
            None => {
                self.waker = Some(second_handle(waker));
            },
            Some(_) => {},
        }
    }

    /// Wakes the task whose waker is in the slot and empties the slot. Says
    /// whether there was one.
    pub fn wake(&mut self) -> (woke: bool)
        ensures
            woke == old(self).armed(),
            !final(self).armed(),
    {
        match self.waker.take() {
            Some(waker) => {
                wake_task(waker);
                true
            },
            None => false,
        }
    }
}

} // verus!
