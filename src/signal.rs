//! The two ways tasks hand each other commands: a single-slot mailbox in
//! which the latest command wins, and a bounded FIFO queue whose sender has to
//! wait while it is full. The waiting and waking belong to the executor; these
//! types decide what is stored and what comes out.
use vstd::prelude::*;

verus! {

/// The slot after a post: the new value replaces whatever was pending.
pub open spec fn spec_post<T>(pending: Option<T>, value: T) -> Option<T> {
    Some(value)
}

/// A take: what was pending comes out, and the slot is empty.
pub open spec fn spec_take<T>(pending: Option<T>) -> (Option<T>, Option<T>) {
    (pending, None)
}

/// A one-deep slot: posting never waits and overwrites a value not yet taken.
pub struct Mailbox<T> {
    slot: Option<T>,
}

impl<T> Mailbox<T> {
    /// The value waiting to be taken, if any.
    pub closed spec fn pending(&self) -> Option<T> {
        self.slot
    }

    /// An empty slot.
    pub fn new() -> (r: Mailbox<T>)
        ensures
            r.pending() is None,
    {
        Mailbox { slot: None }
    }

    /// Posts a value, replacing any value still pending.
    pub fn post(&mut self, value: T)
        ensures
            final(self).pending() == spec_post(old(self).pending(), value),
    {
        self.slot = Some(value);
    }

    /// Takes the pending value, leaving the slot empty.
    pub fn take(&mut self) -> (r: Option<T>)
        ensures
            (r, final(self).pending()) == spec_take(old(self).pending()),
    {
        let mut out: Option<T> = None;
        std::mem::swap(&mut out, &mut self.slot);
        out
    }

    /// Whether a value is waiting.
    pub fn is_pending(&self) -> (r: bool)
        ensures
            r == self.pending() is Some,
    {
        self.slot.is_some()
    }
}

/// Two posts before a take leave only the second: the take gives it, and a
/// second take gives nothing.
pub proof fn latest_post_wins<T>(pending: Option<T>, first: T, second: T)
    ensures
        spec_take(spec_post(spec_post(pending, first), second)).0 == Some(second),
        spec_take(spec_take(spec_post(spec_post(pending, first), second)).1).0 is None,
{
}

/// A send: accepted at the back while there is room, refused otherwise.
pub open spec fn spec_try_send<T>(items: Seq<T>, capacity: nat, value: T) -> Option<Seq<T>> {
    if items.len() < capacity {
        Some(items.push(value))
    } else {
        None
    }
}

/// A receive: the oldest item and what remains, or nothing from an empty queue.
pub open spec fn spec_try_receive<T>(items: Seq<T>) -> Option<(T, Seq<T>)> {
    if items.len() == 0 {
        None
    } else {
        Some((items[0], items.drop_first()))
    }
}

/// A FIFO queue of fixed capacity. A send into a full queue is refused and
/// hands the item back: the sender waits and tries again, nothing is dropped.
pub struct BoundedQueue<T> {
    items: Vec<T>,
    capacity: usize,
}

impl<T> BoundedQueue<T> {
    /// The queued items, oldest first.
    pub closed spec fn contents(&self) -> Seq<T> {
        self.items@
    }

    pub closed spec fn spec_capacity(&self) -> nat {
        self.capacity as nat
    }

    pub closed spec fn wf(&self) -> bool {
        self.items@.len() <= self.capacity
    }

    /// An empty queue holding at most `capacity` items.
    pub fn new(capacity: usize) -> (r: BoundedQueue<T>)
        ensures
            r.wf(),
            r.contents() == Seq::<T>::empty(),
            r.spec_capacity() == capacity,
    {
        BoundedQueue { items: Vec::new(), capacity }
    }

    /// Queues `value` at the back if there is room; otherwise gives it back unchanged.
    pub fn try_send(&mut self, value: T) -> (r: Result<(), T>)
        requires
            old(self).wf(),
        ensures
            final(self).wf(),
            final(self).spec_capacity() == old(self).spec_capacity(),
            spec_try_send(old(self).contents(), old(self).spec_capacity(), value) matches Some(next) ==> r is Ok && final(self).contents() == next,
            spec_try_send(old(self).contents(), old(self).spec_capacity(), value) is None ==> r == Err::<(), T>(value) && final(self).contents() == old(self).contents(),
    {
        if self.items.len() < self.capacity {
            self.items.push(value);
            Ok(())
        } else {
            Err(value)
        }
    }

    /// Takes the oldest item, if there is one.
    pub fn try_receive(&mut self) -> (r: Option<T>)
        requires
            old(self).wf(),
        ensures
            final(self).wf(),
            final(self).spec_capacity() == old(self).spec_capacity(),
            spec_try_receive(old(self).contents()) is None ==> r is None && final(self).contents() == old(self).contents(),
            spec_try_receive(old(self).contents()) matches Some((item, rest)) ==> r == Some(item) && final(self).contents() == rest,
    {
        if self.items.len() == 0 {
            None
        } else {
            let item = self.items.remove(0);
            assert(old(self).contents().remove(0) =~= old(self).contents().drop_first());
            Some(item)
        }
    }

    /// The number of queued items.
    pub fn len(&self) -> (r: usize)
        ensures
            r == self.contents().len(),
    {
        self.items.len()
    }

    /// Whether a send would be refused.
    pub fn is_full(&self) -> (r: bool)
        ensures
            r == (self.contents().len() >= self.spec_capacity()),
    {
        self.items.len() >= self.capacity
    }
}

/// A full queue refuses a send and keeps its items; once the receiver has
/// taken the oldest item, the same send is accepted behind the rest.
pub proof fn full_queue_holds_sender<T>(items: Seq<T>, capacity: nat, value: T)
    requires
        items.len() == capacity,
        capacity > 0,
    ensures
        spec_try_send(items, capacity, value) is None,
        spec_try_receive(items) == Some((items[0], items.drop_first())),
        spec_try_send(items.drop_first(), capacity, value) == Some(items.drop_first().push(value)),
{
}

/// Items come out in the order they were sent.
pub proof fn queue_is_fifo<T>(capacity: nat, first: T, second: T)
    requires
        capacity >= 2,
    ensures
        ({
            let one = spec_try_send(Seq::<T>::empty(), capacity, first).unwrap();
            let two = spec_try_send(one, capacity, second).unwrap();
            &&& spec_try_receive(two) == Some((first, seq![second]))
            &&& spec_try_receive(seq![second]) == Some((second, Seq::<T>::empty()))
        }),
{
    let one = Seq::<T>::empty().push(first);
    let two = one.push(second);
    assert(two.drop_first() =~= seq![second]);
    assert(seq![second].drop_first() =~= Seq::<T>::empty());
}

} // verus!
