//! A fixed-capacity FIFO of in-flight lines. The capacity bound is a type
//! invariant: no reachable queue value ever holds more items than its
//! configured capacity. Blocking is modeled by the caller: `push` demands a
//! non-full queue, as a producer blocked on a full channel pushes nothing.

use vstd::prelude::*;

verus! {

/// A capacity-limited FIFO transporting lines from a producer to workers.
pub struct BoundedLineQueue {
    items: Vec<String>,
    capacity: usize,
}

impl BoundedLineQueue {
    #[verifier::type_invariant]
    spec fn wf(self) -> bool {
        self.items@.len() <= self.capacity
    }

    /// The in-flight items, oldest first, as character sequences.
    pub closed spec fn view(self) -> Seq<Seq<char>> {
        self.items@.map_values(|l: String| l@)
    }

    /// The configured capacity.
    pub closed spec fn spec_capacity(self) -> nat {
        self.capacity as nat
    }

    /// Create an empty queue with the given capacity.
    pub fn new(capacity: usize) -> (q: Self)
        ensures
            q.view() == Seq::<Seq<char>>::empty(),
            q.spec_capacity() == capacity,
    {
        let q = BoundedLineQueue { items: Vec::new(), capacity };
        proof {
            assert(q.view() =~= Seq::<Seq<char>>::empty());
        }
        q
    }

    /// Number of in-flight items.
    pub fn len(&self) -> (n: usize)
        ensures
            n as nat == self.view().len(),
    {
        self.items.len()
    }

    /// Whether the queue is at capacity; a producer must not push then.
    pub fn is_full(&self) -> (r: bool)
        ensures
            r == (self.view().len() == self.spec_capacity()),
    {
        self.items.len() == self.capacity
    }

    /// Whether no item is in flight.
    pub fn is_empty(&self) -> (r: bool)
        ensures
            r == (self.view().len() == 0),
    {
        self.items.len() == 0
    }

    /// The configured capacity.
    pub fn capacity(&self) -> (c: usize)
        ensures
            c as nat == self.spec_capacity(),
    {
        self.capacity
    }

    /// Enqueue a line at the back. Only a queue below capacity accepts a
    /// push; a full one makes the producer wait instead.
    pub fn push(&mut self, line: String)
        requires
            old(self).view().len() < old(self).spec_capacity(),
        ensures
            final(self).view() == old(self).view().push(line@),
            final(self).spec_capacity() == old(self).spec_capacity(),
    {
        proof {
            use_type_invariant(&*self);
        }
        let ghost before = self.items@;
        let ghost lv = line@;
        let mut taken: Vec<String> = Vec::new();
        core::mem::swap(&mut taken, &mut self.items);
        taken.push(line);
        self.items = taken;
        proof {
            assert(self.items@.map_values(|l: String| l@) =~= before.map_values(
                |l: String| l@,
            ).push(lv));
        }
    }

    /// Dequeue the oldest in-flight line, or `None` if the queue is empty.
    pub fn pop(&mut self) -> (r: Option<String>)
        ensures
            final(self).spec_capacity() == old(self).spec_capacity(),
            old(self).view().len() > 0 ==> (r matches Some(line) && line@ == old(self).view()[0]
                && final(self).view() == old(self).view().drop_first()),
            old(self).view().len() == 0 ==> (r is None && final(self).view() == old(self).view()),
    {
        proof {
            use_type_invariant(&*self);
        }
        if self.items.len() == 0 {
            return None;
        }
        let ghost before = self.items@;
        let mut taken: Vec<String> = Vec::new();
        core::mem::swap(&mut taken, &mut self.items);
        let line = taken.remove(0);
        self.items = taken;
        proof {
            assert(self.items@ =~= before.drop_first());
            assert(self.items@.map_values(|l: String| l@) =~= before.map_values(
                |l: String| l@,
            ).drop_first());
        }
        Some(line)
    }
}

/// The backpressure invariant: every reachable queue holds at most its
/// configured capacity of in-flight items, at every instant. The bound is a
/// type invariant, so observing any queue establishes it.
pub fn queue_within_capacity(q: &BoundedLineQueue) -> (r: bool)
    ensures
        r,
        q.view().len() <= q.spec_capacity(),
{
    proof {
        use_type_invariant(q);
    }
    true
}

} // verus!
