//! The bounded byte FIFO shared between the interrupt producer and the
//! polling consumer, backed by a fixed-capacity `heapless` deque.

use vstd::prelude::*;

verus! {

/// Fixed capacity of the receive queue, in bytes.
pub const CAPACITY: usize = 50;

#[verifier::external_type_specification]
#[verifier::external_body]
#[verifier::reject_recursive_types(T)]
pub struct ExDeque<T, const N: usize>(heapless::Deque<T, N>);

/// The bytes a deque holds, front to back.
pub uninterp spec fn deque_contents(q: heapless::Deque<u8, 50>) -> Seq<u8>;

/// Relies on heapless::Deque::new: a freshly constructed deque is empty.
#[verifier::external_body]
fn deque_new() -> (q: heapless::Deque<u8, 50>)
    ensures
        deque_contents(q) == Seq::<u8>::empty(),
{
    heapless::Deque::new()
}

/// Relies on heapless::Deque::len: the number of elements currently held.
#[verifier::external_body]
fn deque_len(q: &heapless::Deque<u8, 50>) -> (n: usize)
    ensures
        n == deque_contents(*q).len(),
{
    q.len()
}

/// Relies on heapless::Deque::push_back: appends at the back when the deque
/// holds fewer elements than its capacity, and returns the item back
/// unstored exactly when the deque is full.
#[verifier::external_body]
fn deque_push_back(q: &mut heapless::Deque<u8, 50>, b: u8) -> (r: Result<(), u8>)
    ensures
        deque_contents(*old(q)).len() < 50 ==> r is Ok && deque_contents(*final(q))
            == deque_contents(*old(q)).push(b),
        deque_contents(*old(q)).len() >= 50 ==> r is Err && r->Err_0 == b && deque_contents(
            *final(q),
        ) == deque_contents(*old(q)),
{
    q.push_back(b)
}

/// Relies on heapless::Deque::pop_front: removes and returns the front
/// element, or returns None exactly when the deque is empty.
#[verifier::external_body]
fn deque_pop_front(q: &mut heapless::Deque<u8, 50>) -> (r: Option<u8>)
    ensures
        deque_contents(*old(q)).len() == 0 ==> r is None && deque_contents(*final(q))
            == deque_contents(*old(q)),
        deque_contents(*old(q)).len() > 0 ==> r == Some(deque_contents(*old(q))[0])
            && deque_contents(*final(q)) == deque_contents(*old(q)).drop_first(),
{
    q.pop_front()
}

/// One producer push as the model sees it: append when below capacity,
/// silently drop the incoming byte when the queue is full.
pub open spec fn enqueue(q: Seq<u8>, b: u8) -> Seq<u8> {
    if q.len() < CAPACITY {
        q.push(b)
    } else {
        q
    }
}

/// A whole burst of pushes, each byte in arrival order through `enqueue`.
pub open spec fn enqueue_all(q: Seq<u8>, bs: Seq<u8>) -> Seq<u8>
    decreases bs.len(),
{
    if bs.len() == 0 {
        q
    } else {
        enqueue_all(enqueue(q, bs[0]), bs.drop_first())
    }
}

/// A bounded FIFO of bytes with fixed capacity `CAPACITY`.  Its view is the
/// sequence of bytes it holds, front (oldest) first.
pub struct ByteQueue {
    inner: heapless::Deque<u8, 50>,
}

impl View for ByteQueue {
    type V = Seq<u8>;

    closed spec fn view(&self) -> Seq<u8> {
        deque_contents(self.inner)
    }
}

impl ByteQueue {
    /// The queue never holds more than `CAPACITY` bytes.
    pub open spec fn wf(&self) -> bool {
        self@.len() <= CAPACITY
    }

    pub fn new() -> (q: ByteQueue)
        ensures
            q@ == Seq::<u8>::empty(),
            q.wf(),
    {
        ByteQueue { inner: deque_new() }
    }

    pub fn len(&self) -> (n: usize)
        ensures
            n == self@.len(),
    {
        deque_len(&self.inner)
    }

    pub fn is_empty(&self) -> (e: bool)
        ensures
            e == (self@.len() == 0),
    {
        self.len() == 0
    }

    /// Push one byte at the back.  On a full queue the byte is dropped and
    /// the queue is unchanged; the result reports whether the byte was kept.
    pub fn push(&mut self, b: u8) -> (accepted: bool)
        requires
            old(self).wf(),
        ensures
            final(self).wf(),
            final(self)@ == enqueue(old(self)@, b),
            accepted == (old(self)@.len() < CAPACITY),
    {
        match deque_push_back(&mut self.inner, b) {
            Ok(()) => true,
            Err(_) => false,
        }
    }

    /// Pop the oldest byte, or None when the queue is empty.
    pub fn pop(&mut self) -> (r: Option<u8>)
        requires
            old(self).wf(),
        ensures
            final(self).wf(),
            old(self)@.len() == 0 ==> r is None && final(self)@ == old(self)@,
            old(self)@.len() > 0 ==> r == Some(old(self)@[0]) && final(self)@ == old(
                self,
            )@.drop_first(),
    {
        deque_pop_front(&mut self.inner)
    }
}

/// A burst into a queue already at or below capacity lands as the first
/// `CAPACITY` bytes of queue-then-burst; everything past that is dropped.
pub proof fn lemma_enqueue_all_prefix(q: Seq<u8>, bs: Seq<u8>)
    requires
        q.len() <= CAPACITY,
    ensures
        enqueue_all(q, bs) == if q.len() + bs.len() <= CAPACITY {
            q + bs
        } else {
            (q + bs).take(CAPACITY as int)
        },
    decreases bs.len(),
{
    if bs.len() == 0 {
        assert(q + bs =~= q);
        if q.len() == CAPACITY {
            assert((q + bs).take(CAPACITY as int) =~= q);
        }
    } else if q.len() < CAPACITY {
        lemma_enqueue_all_prefix(q.push(bs[0]), bs.drop_first());
        assert(q.push(bs[0]) + bs.drop_first() =~= q + bs);
    } else {
        lemma_enqueue_all_prefix(q, bs.drop_first());
        assert((q + bs).take(CAPACITY as int) =~= q);
        if q.len() + bs.drop_first().len() <= CAPACITY {
            assert(q + bs.drop_first() =~= q);
        } else {
            assert((q + bs.drop_first()).take(CAPACITY as int) =~= q);
        }
    }
}

/// FIFO order: a burst of at most `CAPACITY` bytes into an empty queue is
/// retained whole, in arrival order, so popping it back out yields exactly
/// the burst, byte for byte.
pub proof fn lemma_fifo_order(bs: Seq<u8>)
    requires
        bs.len() <= CAPACITY,
    ensures
        enqueue_all(Seq::<u8>::empty(), bs) == bs,
{
    lemma_enqueue_all_prefix(Seq::<u8>::empty(), bs);
    assert(Seq::<u8>::empty() + bs =~= bs);
}

/// Bounded drop: a burst longer than `CAPACITY` into an empty queue retains
/// exactly the first `CAPACITY` bytes, in arrival order; the rest drop.
pub proof fn lemma_bounded_drop(bs: Seq<u8>)
    requires
        bs.len() > CAPACITY,
    ensures
        enqueue_all(Seq::<u8>::empty(), bs) == bs.take(CAPACITY as int),
        enqueue_all(Seq::<u8>::empty(), bs).len() == CAPACITY,
{
    lemma_enqueue_all_prefix(Seq::<u8>::empty(), bs);
    assert((Seq::<u8>::empty() + bs).take(CAPACITY as int) =~= bs.take(CAPACITY as int));
}

/// Pushing into a queue within capacity never grows it past `CAPACITY`.
pub proof fn lemma_enqueue_all_bounded(q: Seq<u8>, bs: Seq<u8>)
    requires
        q.len() <= CAPACITY,
    ensures
        enqueue_all(q, bs).len() <= CAPACITY,
{
    lemma_enqueue_all_prefix(q, bs);
}

} // verus!
