//! The single-item double-buffer cell through which the acquisition loop
//! hands the freshest raw frame to the control loop. The writer swaps its
//! just-filled buffer into the slot; the reader copies the buffer out only
//! while the freshness flag is set, so it never decodes stale or torn data.
//! The adapter wraps one slot in a mutex whose critical section is exactly
//! one call here — never a device fetch.
use vstd::prelude::*;

use crate::asi::ASI_ERROR;

verus! {

/// The hand-off cell: the most recently published frame and its freshness.
/// Both buffers involved in the exchange are preallocated at the configured
/// frame length and keep that length forever.
pub struct FrameSlot {
    buffer: Vec<u8>,
    fresh: bool,
    frame_len: usize,
}

impl FrameSlot {
    /// The bytes currently held in the slot.
    pub closed spec fn frame(&self) -> Seq<u8> {
        self.buffer@
    }

    /// Whether the held frame has been published since the last take.
    pub closed spec fn is_fresh(&self) -> bool {
        self.fresh
    }

    /// The configured frame length (width x height x bytes per pixel).
    pub closed spec fn spec_frame_len(&self) -> usize {
        self.frame_len
    }

    /// The slot's invariant: the held buffer always has the configured length.
    pub open spec fn wf(&self) -> bool {
        self.frame().len() == self.spec_frame_len()
    }

    pub fn frame_len(&self) -> (r: usize)
        ensures
            r == self.spec_frame_len(),
    {
        self.frame_len
    }

    pub fn fresh(&self) -> (r: bool)
        ensures
            r == self.is_fresh(),
    {
        self.fresh
    }

    /// Builds a slot for frames of `frame_len` bytes, primed with a zeroed
    /// buffer and not fresh, together with the writer's zeroed working
    /// buffer of the same length.
    pub fn new(frame_len: usize) -> (r: (FrameSlot, Vec<u8>))
        ensures
            r.0.wf(),
            r.0.spec_frame_len() == frame_len,
            !r.0.is_fresh(),
            r.0.frame() == Seq::new(frame_len as nat, |i: int| 0u8),
            r.1@ == Seq::new(frame_len as nat, |i: int| 0u8),
    {
        let slot_buf: Vec<u8> = vec![0u8; frame_len];
        let work_buf: Vec<u8> = vec![0u8; frame_len];
        proof {
            assert(slot_buf@ =~= Seq::new(frame_len as nat, |i: int| 0u8));
            assert(work_buf@ =~= Seq::new(frame_len as nat, |i: int| 0u8));
        }
        (FrameSlot { buffer: slot_buf, fresh: false, frame_len }, work_buf)
    }

    /// The writer's hand-off: exchanges the caller's freshly filled buffer
    /// with the one in the slot and marks the slot fresh. Only this swap
    /// runs under the adapter's lock; the device fetch that filled
    /// `current` happened outside it. The freshness flag moves false->true
    /// only here.
    pub fn publish(&mut self, current: &mut Vec<u8>)
        requires
            old(self).wf(),
            old(current)@.len() == old(self).spec_frame_len(),
        ensures
            final(self).wf(),
            final(self).spec_frame_len() == old(self).spec_frame_len(),
            final(self).frame() == old(current)@,
            final(self).is_fresh(),
            final(current)@ == old(self).frame(),
    {
        core::mem::swap(&mut self.buffer, current);
        self.fresh = true;
    }

    /// The reader's poll: if a fresh frame is available, clears the flag
    /// and returns a copy of the frame; otherwise leaves the slot alone so
    /// the reader waits rather than render stale data. The flag moves
    /// true->false only here. Any buffer yielded has exactly the
    /// configured frame length.
    pub fn take_if_fresh(&mut self) -> (r: Option<Vec<u8>>)
        requires
            old(self).wf(),
        ensures
            final(self).wf(),
            final(self).spec_frame_len() == old(self).spec_frame_len(),
            final(self).frame() == old(self).frame(),
            old(self).is_fresh() ==> {
                &&& !final(self).is_fresh()
                &&& r matches Some(b) && b@ == old(self).frame()
                    && b@.len() == old(self).spec_frame_len()
            },
            !old(self).is_fresh() ==> *final(self) == *old(self) && r is None,
    {
        if self.fresh {
            self.fresh = false;
            let copy = self.buffer.clone();
            proof {
                assert(copy@ =~= self.buffer@);
            }
            Some(copy)
        } else {
            None
        }
    }
}

/// One iteration of the acquisition loop, after the adapter's blocking
/// device fetch into `current` has returned `fetch` and the stop signal has
/// been sampled once. On success the frame is published; a timeout is
/// transient and retried next iteration; any other device error aborts the
/// loop and must not disturb the previously published frame. The result
/// says whether the loop continues.
pub fn acquisition_step(
    slot: &mut FrameSlot,
    current: &mut Vec<u8>,
    fetch: Result<(), ASI_ERROR>,
    stop_requested: bool,
) -> (r: Result<bool, ASI_ERROR>)
    requires
        old(slot).wf(),
        old(current)@.len() == old(slot).spec_frame_len(),
    ensures
        final(slot).wf(),
        final(slot).spec_frame_len() == old(slot).spec_frame_len(),
        final(current)@.len() == old(slot).spec_frame_len(),
        fetch is Ok ==> {
            &&& final(slot).frame() == old(current)@
            &&& final(slot).is_fresh()
            &&& final(current)@ == old(slot).frame()
            &&& r == Ok::<bool, ASI_ERROR>(!stop_requested)
        },
        fetch matches Err(e) ==> {
            &&& *final(slot) == *old(slot)
            &&& *final(current) == *old(current)
            &&& r == (if e == ASI_ERROR::TIMEOUT {
                Ok::<bool, ASI_ERROR>(!stop_requested)
            } else {
                Err::<bool, ASI_ERROR>(e)
            })
        },
{
    match fetch {
        Ok(()) => {
            slot.publish(current);
            Ok(!stop_requested)
        }
        Err(ASI_ERROR::TIMEOUT) => Ok(!stop_requested),
        Err(e) => Err(e),
    }
}

/// A ghost-level reader/writer step against the slot, used to state that
/// the hand-off is safe under any interleaving of the two owners.
pub enum SlotOp {
    Publish(Seq<u8>),
    Take,
}

/// The slot as the model sees it.
pub struct SlotModel {
    pub frame: Seq<u8>,
    pub fresh: bool,
    pub frame_len: nat,
}

impl SlotModel {
    pub open spec fn wf(self) -> bool {
        self.frame.len() == self.frame_len
    }

    /// The writer only ever publishes a buffer of the configured length.
    pub open spec fn op_allowed(self, op: SlotOp) -> bool {
        match op {
            SlotOp::Publish(b) => b.len() == self.frame_len,
            SlotOp::Take => true,
        }
    }

    /// What one step does: mirrors `publish` and `take_if_fresh`.
    pub open spec fn step(self, op: SlotOp) -> (SlotModel, Option<Seq<u8>>) {
        match op {
            SlotOp::Publish(b) => (
                SlotModel { frame: b, fresh: true, frame_len: self.frame_len },
                None,
            ),
            SlotOp::Take => {
                if self.fresh {
                    (SlotModel { fresh: false, ..self }, Some(self.frame))
                } else {
                    (self, None)
                }
            },
        }
    }

    /// Runs a whole interleaving and collects every buffer the reader got.
    pub open spec fn run(self, ops: Seq<SlotOp>) -> (SlotModel, Seq<Seq<u8>>)
        decreases ops.len(),
    {
        if ops.len() == 0 {
            (self, Seq::empty())
        } else {
            let (mid, yielded) = self.step(ops[0]);
            let (end, rest) = mid.run(ops.skip(1));
            match yielded {
                Some(b) => (end, seq![b] + rest),
                None => (end, rest),
            }
        }
    }

    pub open spec fn ops_allowed(self, ops: Seq<SlotOp>) -> bool
        decreases ops.len(),
    {
        ops.len() == 0 || (self.op_allowed(ops[0]) && self.step(ops[0]).0.ops_allowed(ops.skip(1)))
    }
}

/// No matter how publishes and takes interleave — however fast the writer
/// runs relative to the reader's polling — the slot keeps its configured
/// length and every buffer the reader is handed has exactly that length.
pub proof fn lemma_slot_never_yields_wrong_length(m: SlotModel, ops: Seq<SlotOp>)
    requires
        m.wf(),
        m.ops_allowed(ops),
    ensures
        m.run(ops).0.wf(),
        m.run(ops).0.frame_len == m.frame_len,
        forall|i: int| 0 <= i < m.run(ops).1.len() ==> (#[trigger] m.run(ops).1[i]).len() == m.frame_len,
    decreases ops.len(),
{
    if ops.len() > 0 {
        let (mid, _) = m.step(ops[0]);
        lemma_slot_never_yields_wrong_length(mid, ops.skip(1));
    }
}

} // verus!
