//! The cross-context spawn queue: code that has no scheduler handle appends
//! entry points here, and the scheduler drains the queue into fresh slots at
//! the first safe switch point after each context switch.

use vstd::prelude::*;

verus! {

/// A process-wide list of fiber entry points waiting to be spawned.
///
/// An entry point is carried as the numeric resume address that the primed
/// stack of the new fiber will return into.
pub struct ThreadQueue {
    pub contents: Vec<u64>,
}

impl ThreadQueue {
    pub fn new() -> (q: ThreadQueue)
        ensures
            q.contents@ == Seq::<u64>::empty(),
    {
        ThreadQueue { contents: Vec::new() }
    }

    /// Removes and returns the most recently pushed entry, if any.
    pub fn pop(&mut self) -> (r: Option<u64>)
        ensures
            old(self).contents@.len() == 0 ==> r is None && final(self).contents@
                == old(self).contents@,
            old(self).contents@.len() > 0 ==> r == Some(
                old(self).contents@[old(self).contents@.len() - 1],
            ) && final(self).contents@ == old(self).contents@.drop_last(),
    {
        self.contents.pop()
    }

    /// Appends an entry point to the queue.
    pub fn push(&mut self, thread: u64)
        ensures
            final(self).contents@ == old(self).contents@.push(thread),
    {
        self.contents.push(thread);
    }

    pub fn is_empty(&self) -> (r: bool)
        ensures
            r == (self.contents@.len() == 0),
    {
        self.contents.len() == 0
    }

    pub fn len(&self) -> (r: usize)
        ensures
            r == self.contents@.len(),
    {
        self.contents.len()
    }
}

/// Requests a new fiber without a scheduler handle; the scheduler picks the
/// request up when it next drains the queue.
pub fn spawn_thread(queue: &mut ThreadQueue, thread: u64)
    ensures
        final(queue).contents@ == old(queue).contents@.push(thread),
{
    queue.push(thread);
}

} // verus!
