//! The queue of servers that the workers share.

use crate::servers::DnsEntry;
use std::collections::VecDeque;
use vstd::prelude::*;

verus! {

/// The servers still to be benchmarked, in the order they will be handed
/// out. A server leaves the queue when a worker takes it and never comes
/// back.
pub struct TargetQueue {
    entries: VecDeque<DnsEntry>,
}

impl View for TargetQueue {
    type V = Seq<DnsEntry>;

    closed spec fn view(&self) -> Seq<DnsEntry> {
        self.entries@
    }
}

impl TargetQueue {
    /// A queue with nothing in it.
    pub fn new() -> (q: TargetQueue)
        ensures
            q@ == Seq::<DnsEntry>::empty(),
    {
        TargetQueue { entries: VecDeque::new() }
    }

    /// Puts `entries` at the back of the queue, in their order.
    pub fn extend(&mut self, entries: Vec<DnsEntry>)
        ensures
            final(self)@ == old(self)@ + entries@,
    {
        for e in it: entries
            invariant
                self@ == old(self)@ + it.seq().take(it.index() as int),
                it.seq() == entries@,
        {
            self.entries.push_back(e);
        }
    }

    /// How many servers are waiting.
    pub fn len(&self) -> (n: usize)
        ensures
            n == self@.len(),
    {
        self.entries.len()
    }

    /// Takes the server at the front of the queue, if there is one.
    pub fn try_take_next(&mut self) -> (next: Option<DnsEntry>)
        ensures
            old(self)@.len() == 0 ==> next is None && final(self)@ == old(self)@,
            old(self)@.len() > 0 ==> next == Some(old(self)@[0]) && final(self)@ == old(
                self,
            )@.drop_first(),
    {
        let next = self.entries.pop_front();
        assert(old(self)@.len() > 0 ==> self@ =~= old(self)@.drop_first());
        next
    }
}

} // verus!
