use vstd::prelude::*;

use std::collections::VecDeque;

verus! {

/// How many encoded records may wait between the reader and the shipper.
pub const DELIVERY_CAPACITY: usize = 300;

/// How many acknowledged cursors may wait for the checkpoint store.
pub const ACK_CAPACITY: usize = 300;

/// A first-in first-out queue that holds at most `capacity` items. An offer
/// to a full queue hands the item back instead of dropping it, so the
/// producer waits and retries: nothing is ever lost or reordered.
pub struct BoundedQueue<T> {
    items: VecDeque<T>,
    capacity: usize,
}

impl<T> View for BoundedQueue<T> {
    type V = Seq<T>;

    closed spec fn view(&self) -> Seq<T> {
        self.items@
    }
}

impl<T> BoundedQueue<T> {
    /// The most items that the queue holds.
    pub closed spec fn cap(&self) -> nat {
        self.capacity as nat
    }

    pub open spec fn wf(&self) -> bool {
        &&& self.cap() > 0
        &&& self@.len() <= self.cap()
    }

    pub fn new(capacity: usize) -> (r: BoundedQueue<T>)
        requires
            capacity > 0,
        ensures
            r.wf(),
            r@ == Seq::<T>::empty(),
            r.cap() == capacity,
    {
        BoundedQueue { items: VecDeque::new(), capacity }
    }

    pub fn capacity(&self) -> (r: usize)
        ensures
            r == self.cap(),
    {
        self.capacity
    }

    pub fn len(&self) -> (r: usize)
        ensures
            r == self@.len(),
    {
        self.items.len()
    }

    pub fn is_empty(&self) -> (r: bool)
        ensures
            r == (self@.len() == 0),
    {
        self.items.len() == 0
    }

    pub fn is_full(&self) -> (r: bool)
        ensures
            r == (self@.len() >= self.cap()),
    {
        self.items.len() >= self.capacity
    }

    /// Offers `item`: a queue with room takes it last; a full queue keeps
    /// what it holds and hands `item` back.
    pub fn try_push(&mut self, item: T) -> (r: Result<(), T>)
        requires
            old(self).wf(),
        ensures
            final(self).wf(),
            final(self).cap() == old(self).cap(),
            offer_one(old(self)@, item, old(self).cap()) == (final(self)@, match r {
                Ok(_) => None,
                Err(x) => Some(x),
            }),
            old(self)@.len() < old(self).cap() ==> r is Ok && final(self)@ == old(self)@.push(item),
            old(self)@.len() >= old(self).cap() ==> r == Err::<(), T>(item) && final(self)@
                == old(self)@,
    {
        if self.items.len() >= self.capacity {
            Err(item)
        } else {
            self.items.push_back(item);
            Ok(())
        }
    }

    /// Takes the oldest item, if any.
    pub fn pop(&mut self) -> (r: Option<T>)
        requires
            old(self).wf(),
        ensures
            final(self).wf(),
            final(self).cap() == old(self).cap(),
            old(self)@.len() == 0 ==> r is None && final(self)@ == old(self)@,
            old(self)@.len() > 0 ==> r == Some(old(self)@[0]) && final(self)@ == old(self)@.skip(1),
    {
        let r = self.items.pop_front();
        proof {
            if old(self)@.len() > 0 {
                assert(old(self)@.subrange(1, old(self)@.len() as int) =~= old(self)@.skip(1));
            }
        }
        r
    }
}

/// Offering items one by one to a queue that nobody drains fills it up to
/// its capacity, in order, and hands back every item beyond that: the queue
/// ends full and no offered item is lost.
pub proof fn offers_fill_without_loss<T>(held: Seq<T>, offered: Seq<T>, cap: nat)
    requires
        held.len() <= cap,
    ensures
        ({
            let taken = if held.len() + offered.len() <= cap {
                offered.len() as int
            } else {
                cap - held.len()
            };
            &&& offer_all(held, offered, cap).0 == held + offered.take(taken)
            &&& offer_all(held, offered, cap).1 == offered.skip(taken)
            &&& held.len() + offered.len() >= cap ==> offer_all(held, offered, cap).0.len() == cap
        }),
    decreases offered.len(),
{
    if offered.len() > 0 {
        offers_fill_without_loss(held, offered.drop_last(), cap);
        let prev = offer_all(held, offered.drop_last(), cap);
        let n = offered.len() - 1;
        let taken_prev = if held.len() + n <= cap {
            n as int
        } else {
            cap - held.len()
        };
        if prev.0.len() < cap {
            assert(held + offered.take(taken_prev + 1) =~= (held + offered.drop_last().take(
                taken_prev,
            )).push(offered.last()));
            assert(offered.skip(taken_prev + 1) =~= Seq::<T>::empty());
            assert(offered.drop_last().skip(taken_prev) =~= Seq::<T>::empty());
        } else {
            assert(offered.take(taken_prev) =~= offered.drop_last().take(taken_prev));
            assert(offered.skip(taken_prev) =~= offered.drop_last().skip(taken_prev).push(
                offered.last(),
            ));
        }
    } else {
        assert(held + offered.take(0) =~= held);
        assert(offered.skip(0) =~= offered);
    }
}

/// One offer of `item` to a queue holding `held` with room for `cap` items:
/// what the queue then holds, and the item handed back if it was full.
pub open spec fn offer_one<T>(held: Seq<T>, item: T, cap: nat) -> (Seq<T>, Option<T>) {
    if held.len() < cap {
        (held.push(item), None)
    } else {
        (held, Some(item))
    }
}

/// What a queue holding `held` with room for `cap` items holds after each of
/// `offered` is offered once, in order, and the items that were handed back.
pub open spec fn offer_all<T>(held: Seq<T>, offered: Seq<T>, cap: nat) -> (Seq<T>, Seq<T>)
    decreases offered.len(),
{
    if offered.len() == 0 {
        (held, Seq::empty())
    } else {
        let prev = offer_all(held, offered.drop_last(), cap);
        let (q, back) = offer_one(prev.0, offered.last(), cap);
        match back {
            Some(x) => (q, prev.1.push(x)),
            None => (q, prev.1),
        }
    }
}

} // verus!
