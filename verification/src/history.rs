//! Interleaved pushes and pops, linearized.
//!
//! The critical section makes every queue operation atomic with respect to
//! the other context, so any concurrent execution of the interrupt producer
//! and the polling consumer is some interleaving of whole pushes and whole
//! pops.  This module runs an arbitrary such interleaving over a model
//! state that also records which bytes the queue accepted and which bytes
//! the consumer popped, and proves that no interleaving can reorder bytes
//! or drive the queue's length out of bounds.

use vstd::prelude::*;

use crate::queue::ByteQueue;
use crate::queue::CAPACITY;

verus! {

/// One linearized queue operation: a producer push of a byte, or a
/// consumer pop.
#[derive(Clone, Copy, PartialEq, Eq, Structural, Debug)]
pub enum QueueOp {
    Push(u8),
    Pop,
}

/// The linearized model state: the queue's contents, every byte the queue
/// has accepted (pushes that landed on a full queue are dropped and never
/// accepted), and every byte popped so far.
#[verifier::ext_equal]
pub struct TraceState {
    pub queue: Seq<u8>,
    pub accepted: Seq<u8>,
    pub popped: Seq<u8>,
}

/// The state at initialization: everything empty.
pub open spec fn initial_trace() -> TraceState {
    TraceState { queue: Seq::<u8>::empty(), accepted: Seq::<u8>::empty(), popped: Seq::<u8>::empty() }
}

/// One atomic operation on the model state.
pub open spec fn op_step(s: TraceState, op: QueueOp) -> TraceState {
    match op {
        QueueOp::Push(b) => if s.queue.len() < CAPACITY {
            TraceState { queue: s.queue.push(b), accepted: s.accepted.push(b), popped: s.popped }
        } else {
            s
        },
        QueueOp::Pop => if s.queue.len() > 0 {
            TraceState {
                queue: s.queue.drop_first(),
                accepted: s.accepted,
                popped: s.popped.push(s.queue[0]),
            }
        } else {
            s
        },
    }
}

/// A whole interleaving, one atomic operation at a time.
pub open spec fn run_ops(s: TraceState, ops: Seq<QueueOp>) -> TraceState
    decreases ops.len(),
{
    if ops.len() == 0 {
        s
    } else {
        run_ops(op_step(s, ops[0]), ops.drop_first())
    }
}

/// Order coherence: the bytes popped so far, followed by the bytes still
/// pending in the queue, are exactly the accepted bytes in arrival order.
pub open spec fn coherent(s: TraceState) -> bool {
    s.accepted == s.popped + s.queue
}

proof fn lemma_op_step_coherent(s: TraceState, op: QueueOp)
    requires
        coherent(s),
    ensures
        coherent(op_step(s, op)),
{
    match op {
        QueueOp::Push(b) => {
            if s.queue.len() < CAPACITY {
                assert(s.accepted.push(b) =~= s.popped + s.queue.push(b));
            }
        },
        QueueOp::Pop => {
            if s.queue.len() > 0 {
                assert(s.accepted =~= s.popped.push(s.queue[0]) + s.queue.drop_first());
            }
        },
    }
}

/// No reordering under interleaving: however producer pushes and consumer
/// pops interleave, order coherence is preserved, so a pop never yields a
/// byte that was enqueued after a byte still pending in the queue.
pub proof fn lemma_no_reordering(s: TraceState, ops: Seq<QueueOp>)
    requires
        coherent(s),
    ensures
        coherent(run_ops(s, ops)),
    decreases ops.len(),
{
    if ops.len() > 0 {
        lemma_op_step_coherent(s, ops[0]);
        lemma_no_reordering(op_step(s, ops[0]), ops.drop_first());
    }
}

/// Atomicity of the linearized history: from a length within bounds, no
/// interleaving of pushes and pops ever drives the queue's length outside
/// [0, CAPACITY].
pub proof fn lemma_length_bounded(s: TraceState, ops: Seq<QueueOp>)
    requires
        s.queue.len() <= CAPACITY,
    ensures
        run_ops(s, ops).queue.len() <= CAPACITY,
    decreases ops.len(),
{
    if ops.len() > 0 {
        lemma_length_bounded(op_step(s, ops[0]), ops.drop_first());
    }
}

/// A schedule of nothing but pushes, one per byte, in arrival order.
pub open spec fn pushes(bs: Seq<u8>) -> Seq<QueueOp> {
    bs.map_values(|b: u8| QueueOp::Push(b))
}

/// A schedule of nothing but pops.
pub open spec fn pops(n: nat) -> Seq<QueueOp> {
    Seq::new(n, |i: int| QueueOp::Pop)
}

proof fn lemma_run_ops_concat(s: TraceState, a: Seq<QueueOp>, b: Seq<QueueOp>)
    ensures
        run_ops(s, a + b) == run_ops(run_ops(s, a), b),
    decreases a.len(),
{
    if a.len() == 0 {
        assert(a + b =~= b);
    } else {
        assert((a + b)[0] == a[0]);
        assert((a + b).drop_first() =~= a.drop_first() + b);
        lemma_run_ops_concat(op_step(s, a[0]), a.drop_first(), b);
    }
}

proof fn lemma_run_pushes(s: TraceState, bs: Seq<u8>)
    requires
        s.queue.len() + bs.len() <= CAPACITY,
    ensures
        run_ops(s, pushes(bs)).queue == s.queue + bs,
        run_ops(s, pushes(bs)).popped == s.popped,
        run_ops(s, pushes(bs)).accepted == s.accepted + bs,
    decreases bs.len(),
{
    if bs.len() == 0 {
        assert(s.queue + bs =~= s.queue);
        assert(s.accepted + bs =~= s.accepted);
    } else {
        assert(pushes(bs)[0] == QueueOp::Push(bs[0]));
        assert(pushes(bs).drop_first() =~= pushes(bs.drop_first()));
        let s1 = op_step(s, QueueOp::Push(bs[0]));
        lemma_run_pushes(s1, bs.drop_first());
        assert(s.queue.push(bs[0]) + bs.drop_first() =~= s.queue + bs);
        assert(s.accepted.push(bs[0]) + bs.drop_first() =~= s.accepted + bs);
    }
}

proof fn lemma_run_pops(s: TraceState)
    ensures
        run_ops(s, pops(s.queue.len())).queue == Seq::<u8>::empty(),
        run_ops(s, pops(s.queue.len())).popped == s.popped + s.queue,
        run_ops(s, pops(s.queue.len())).accepted == s.accepted,
    decreases s.queue.len(),
{
    if s.queue.len() == 0 {
        assert(pops(0) =~= Seq::<QueueOp>::empty());
        assert(s.popped + s.queue =~= s.popped);
    } else {
        assert(pops(s.queue.len())[0] == QueueOp::Pop);
        let s1 = op_step(s, QueueOp::Pop);
        assert(pops(s.queue.len()).drop_first() =~= pops(s1.queue.len()));
        lemma_run_pops(s1);
        assert(s.popped.push(s.queue[0]) + s.queue.drop_first() =~= s.popped + s.queue);
    }
}

/// FIFO round trip, linearized: pushing N bytes (N at most CAPACITY) into
/// an empty queue with no intervening pops, then popping N times, yields
/// exactly those bytes in the same order and leaves the queue empty.
pub proof fn lemma_fifo_roundtrip(bs: Seq<u8>)
    requires
        bs.len() <= CAPACITY,
    ensures
        run_ops(initial_trace(), pushes(bs) + pops(bs.len())).popped == bs,
        run_ops(initial_trace(), pushes(bs) + pops(bs.len())).queue.len() == 0,
{
    lemma_run_ops_concat(initial_trace(), pushes(bs), pops(bs.len()));
    lemma_run_pushes(initial_trace(), bs);
    let s1 = run_ops(initial_trace(), pushes(bs));
    assert(s1.queue =~= bs);
    lemma_run_pops(s1);
    assert(Seq::<u8>::empty() + bs =~= bs);
}

/// A fairness-controlled interleaving harness: run an arbitrary schedule of
/// pushes and pops against the real queue, returning the bytes popped, and
/// land exactly on the linearized model's state.
pub fn run_queue_ops(q: &mut ByteQueue, ops: &Vec<QueueOp>) -> (popped: Vec<u8>)
    requires
        old(q)@ == Seq::<u8>::empty(),
    ensures
        final(q).wf(),
        final(q)@ == run_ops(initial_trace(), ops@).queue,
        popped@ == run_ops(initial_trace(), ops@).popped,
{
    let mut popped: Vec<u8> = Vec::new();
    let ghost mut st: TraceState = initial_trace();
    let n = ops.len();
    let mut idx: usize = 0;
    proof {
        assert(ops@.skip(0) =~= ops@);
    }
    while idx < n
        invariant
            idx <= n,
            n == ops@.len(),
            q.wf(),
            st.queue == q@,
            st.popped == popped@,
            run_ops(st, ops@.skip(idx as int)) == run_ops(initial_trace(), ops@),
        decreases n - idx,
    {
        proof {
            assert(ops@.skip(idx as int)[0] == ops@[idx as int]);
            assert(ops@.skip(idx as int).drop_first() =~= ops@.skip(idx as int + 1));
            assert(run_ops(st, ops@.skip(idx as int)) == run_ops(
                op_step(st, ops@[idx as int]),
                ops@.skip(idx as int + 1),
            ));
        }
        let ghost sprev = st;
        match ops[idx] {
            QueueOp::Push(b) => {
                q.push(b);
                proof {
                    st = op_step(sprev, QueueOp::Push(b));
                }
            },
            QueueOp::Pop => {
                match q.pop() {
                    None => {},
                    Some(b) => {
                        popped.push(b);
                    },
                }
                proof {
                    st = op_step(sprev, QueueOp::Pop);
                }
            },
        }
        idx = idx + 1;
    }
    proof {
        assert(ops@.skip(n as int) =~= Seq::<QueueOp>::empty());
    }
    popped
}

} // verus!
