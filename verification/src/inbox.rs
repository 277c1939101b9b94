//! The shared inbox and the two critical-section steps that touch it: the
//! interrupt producer's drain of freshly received bytes, and the consumer's
//! single-byte poll.
//!
//! The inbox is a process-wide singleton in the running system: absent until
//! peripherals are initialized, present ever after.  The caller owns the
//! slot (behind its critical-section primitive) and the receive handle; this
//! module owns every decision taken on the slot's contents, so both steps
//! are total functions of the slot and of what the hardware delivered.

use vstd::prelude::*;

use crate::queue::ByteQueue;
use crate::queue::enqueue;
use crate::queue::enqueue_all;

verus! {

/// The outcome of one hardware read of the receiver, as handed to the
/// producer: a byte read successfully, or a transient receive error
/// (framing, overrun) whose byte is lost.  An error is skipped, never
/// propagated: a halted interrupt handler would starve all future bytes.
#[derive(Clone, Copy, PartialEq, Eq, Structural, Debug)]
pub enum RxRead {
    Byte(u8),
    ReadError,
}

/// The bytes a run of reads actually delivered, in order.
pub open spec fn delivered(reads: Seq<RxRead>) -> Seq<u8>
    decreases reads.len(),
{
    if reads.len() == 0 {
        Seq::<u8>::empty()
    } else {
        match reads[0] {
            RxRead::Byte(b) => seq![b] + delivered(reads.drop_first()),
            RxRead::ReadError => delivered(reads.drop_first()),
        }
    }
}

/// The shared inbox.  In the running system it also owns the receive
/// handle; that handle is hardware and stays with the caller, which reads
/// it inside the same critical section and hands the outcomes here.
pub struct Inbox {
    pub queue: ByteQueue,
}

impl Inbox {
    pub open spec fn wf(&self) -> bool {
        self.queue.wf()
    }

    /// Drain one interrupt's worth of reads into the queue: delivered bytes
    /// are pushed in arrival order, bytes arriving on a full queue are
    /// dropped, read errors are skipped.
    pub fn absorb(&mut self, reads: &Vec<RxRead>)
        requires
            old(self).wf(),
        ensures
            final(self).wf(),
            final(self).queue@ == enqueue_all(old(self).queue@, delivered(reads@)),
    {
        let ghost q0 = self.queue@;
        let n = reads.len();
        let mut idx: usize = 0;
        proof {
            assert(reads@.skip(0) =~= reads@);
        }
        while idx < n
            invariant
                idx <= n,
                n == reads@.len(),
                self.queue.wf(),
                enqueue_all(self.queue@, delivered(reads@.skip(idx as int))) == enqueue_all(
                    q0,
                    delivered(reads@),
                ),
            decreases n - idx,
        {
            proof {
                assert(reads@.skip(idx as int)[0] == reads@[idx as int]);
                assert(reads@.skip(idx as int).drop_first() =~= reads@.skip(idx as int + 1));
            }
            let ghost qs = self.queue@;
            match reads[idx] {
                RxRead::Byte(b) => {
                    self.queue.push(b);
                    proof {
                        assert((seq![b] + delivered(reads@.skip(idx as int + 1))).drop_first()
                            =~= delivered(reads@.skip(idx as int + 1)));
                        assert(enqueue_all(qs, delivered(reads@.skip(idx as int))) == enqueue_all(
                            enqueue(qs, b),
                            delivered(reads@.skip(idx as int + 1)),
                        ));
                    }
                },
                RxRead::ReadError => {},
            }
            idx = idx + 1;
        }
        proof {
            assert(reads@.skip(n as int) =~= Seq::<RxRead>::empty());
        }
    }
}

/// Install a fresh inbox, with an empty queue, into the shared slot.  Run
/// once after the receive handle is configured and before the interrupt is
/// unmasked; this single initialization point overwrites whatever was
/// there.
pub fn initialize(slot: &mut Option<Inbox>)
    ensures
        (*final(slot)) matches Some(i) && i.queue@ == Seq::<u8>::empty() && i.wf(),
{
    *slot = Some(Inbox { queue: ByteQueue::new() });
}

/// The interrupt producer's one firing: drain the reads the receiver
/// reported into the queue.  A defensive no-op while the inbox is not yet
/// installed — the interrupt is unmasked only after `initialize`, but the
/// guard is a required invariant, not an assumption.
pub fn produce(slot: &mut Option<Inbox>, reads: &Vec<RxRead>)
    requires
        (*old(slot)) matches Some(i) ==> i.wf(),
    ensures
        (*old(slot)) is None ==> (*final(slot)) is None,
        (*old(slot)) matches Some(i) ==> (*final(slot)) matches Some(j) && j.wf() && j.queue@
            == enqueue_all(i.queue@, delivered(reads@)),
{
    match slot {
        None => {},
        Some(inbox) => inbox.absorb(reads),
    }
}

/// The consumer's one poll: pop at most one byte inside the critical
/// section.  None both when the queue is empty and, defensively, when the
/// inbox is not yet installed.
pub fn try_pop(slot: &mut Option<Inbox>) -> (r: Option<u8>)
    requires
        (*old(slot)) matches Some(i) ==> i.wf(),
    ensures
        (*old(slot)) is None ==> r is None && (*final(slot)) is None,
        (*old(slot)) matches Some(i) ==> (*final(slot)) matches Some(j) && j.wf() && (i.queue@.len() == 0
            ==> r is None && j.queue@ == i.queue@) && (i.queue@.len() > 0 ==> r == Some(
            i.queue@[0],
        ) && j.queue@ == i.queue@.drop_first()),
{
    match slot {
        None => None,
        Some(inbox) => inbox.queue.pop(),
    }
}

} // verus!
