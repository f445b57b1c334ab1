//! Submissions of command streams.
use crate::ctrl::Budget;
use crate::enqueue::AddResult;
use crate::error::VirtioError;
use crate::gpu::{GpuState, VirtioGpu};
use crate::hal::DmaBuffer;
use crate::inflight::{Action, ScanoutNotify, SCANOUT_RING_IDX};
use crate::owner::{DeviceOwner, OwnedCtx};
use crate::promises::memory::law_context_answers_to_its_owner;
use crate::promises::wire::{field32, has_header, law_submission_on_the_wire};
use crate::protocol::{encode_submit, submit_bytes};
use crate::seqs::some;
use crate::tables::ContextSlot;
use vstd::prelude::*;

verus! {

/// Bytes of a submission's command buffer: header and response.
pub const SUBMIT_META_BYTES: usize = 56;

/// The header of a submission with a waiter. It carries no fence of its own; an
/// empty stream is refused.
pub fn submit_3d_sync(ctx_id: u32, stream_len: usize) -> (r: Result<Vec<u8>, VirtioError>)
    ensures
        if stream_len == 0 {
            r matches Err(e) && e == VirtioError::DeviceError
        } else {
            r matches Ok(header) && header@ == submit_bytes(0, ctx_id, 0, stream_len as u32)
        },
        r matches Ok(header) ==> has_header(header@, 0x207, 1, 0, ctx_id as int, 0) && field32(
            header@,
            24,
        ) == stream_len as u32,
{
    proof {
        law_submission_on_the_wire(0, ctx_id, 0, stream_len as u32);
    }
    if stream_len == 0 {
        return Err(VirtioError::DeviceError);
    }
    Ok(encode_submit(0, ctx_id, 0, stream_len as u32))
}

/// The header of a submission of the driver's own client, with a waiter.
pub fn submit_venus_sync(ctx_id: u32, stream_len: usize) -> (r: Result<Vec<u8>, VirtioError>)
    ensures
        if stream_len == 0 {
            r matches Err(e) && e == VirtioError::DeviceError
        } else {
            r matches Ok(header) && header@ == submit_bytes(0, ctx_id, 0, stream_len as u32)
        },
        r matches Ok(header) ==> has_header(header@, 0x207, 1, 0, ctx_id as int, 0) && field32(
            header@,
            24,
        ) == stream_len as u32,
{
    proof {
        law_submission_on_the_wire(0, ctx_id, 0, stream_len as u32);
    }
    submit_3d_sync(ctx_id, stream_len)
}

/// Whether `owner` may submit to a context; the context if so. Only the context
/// that comes back is ever named to the host.
pub fn submit_venus_async(
    gpu: &VirtioGpu,
    owner: Option<DeviceOwner>,
    ctx_id: u32,
    stream_len: usize,
) -> (r: Result<OwnedCtx, VirtioError>)
    ensures
        if stream_len == 0 {
            r matches Err(e) && e == VirtioError::DeviceError
        } else if !some(gpu@.tables.contexts, ContextSlot::named(owner, ctx_id)) {
            r matches Err(e) && e == VirtioError::NotOwned
        } else {
            r matches Ok(ctx) && ctx.spec_id() == ctx_id
        },
        r is Ok <==> stream_len > 0 && exists|i: int|
            0 <= i < gpu@.tables.contexts.len() && (#[trigger] gpu@.tables.contexts[i]).owner
                == owner && gpu@.tables.contexts[i].ctx_id == ctx_id,
{
    proof {
        law_context_answers_to_its_owner(gpu@.tables, owner, ctx_id);
    }
    if stream_len == 0 {
        return Err(VirtioError::DeviceError);
    }
    match gpu.resolve_owned_ctx(owner, ctx_id) {
        Some(ctx) => Ok(ctx),
        None => Err(VirtioError::NotOwned),
    }
}

/// What follows an attempt to queue a submission.
#[derive(Clone, Copy, Debug, PartialEq, Eq)]
pub enum SubmitStep {
    /// Reap, sleep one slice, drain and try again.
    Retry,
    Done(Result<u64, VirtioError>),
}

pub open spec fn judged(budget: Budget, outcome: Result<u64, VirtioError>) -> (SubmitStep, Budget) {
    match outcome {
        Err(VirtioError::QueueFull) => (
            if budget.charged().is_expired() {
                SubmitStep::Done(Err(VirtioError::QueueFull))
            } else {
                SubmitStep::Retry
            },
            budget.charged(),
        ),
        _ => (SubmitStep::Done(outcome), budget),
    }
}

/// Judge an attempt to queue a submission: only a full queue is retried, and only
/// within the budget.
pub fn judge_submit(budget: &mut Budget, outcome: Result<u64, VirtioError>) -> (r: SubmitStep)
    ensures
        r == judged(*old(budget), outcome).0,
        *final(budget) == judged(*old(budget), outcome).1,
{
    match outcome {
        Err(VirtioError::QueueFull) => {
            if budget.charge_slice() {
                return SubmitStep::Done(Err(VirtioError::QueueFull));
            }
            SubmitStep::Retry
        },
        _ => SubmitStep::Done(outcome),
    }
}

impl GpuState {
    /// The outcome of a scan-out copy; an empty stream is refused.
    pub open spec fn scanout_copy_sent(
        self,
        meta: DmaBuffer,
        venus: DmaBuffer,
        stream_len: usize,
        notify: ScanoutNotify,
        added: AddResult,
    ) -> (Result<u64, VirtioError>, GpuState, Seq<Action>) {
        if stream_len == 0 {
            (Err(VirtioError::DeviceError), self, Seq::empty())
        } else {
            self.scanout_submitted(meta, venus, stream_len, notify, added)
        }
    }

    /// The outcome of a present copy; an empty stream is refused.
    pub open spec fn present_copy_sent(
        self,
        meta: DmaBuffer,
        venus: DmaBuffer,
        stream_len: usize,
        added: AddResult,
    ) -> (Result<u64, VirtioError>, GpuState, Seq<Action>) {
        if stream_len == 0 {
            (Err(VirtioError::DeviceError), self, Seq::empty())
        } else {
            self.plain_submitted(SCANOUT_RING_IDX, meta, venus, stream_len, added)
        }
    }
}

/// Queue a scan-out copy; one attempt, without a retry.
pub fn submit_venus_async_scanout(
    gpu: &mut VirtioGpu,
    meta: DmaBuffer,
    venus: DmaBuffer,
    stream_len: usize,
    notify: ScanoutNotify,
    added: AddResult,
    out: &mut Vec<Action>,
) -> (r: Result<u64, (DmaBuffer, DmaBuffer, VirtioError)>)
    requires
        old(gpu)@.wf(),
        old(gpu)@.queue.hands_out(added),
        old(gpu)@.fences.next_wire_fence < u64::MAX,
        meta.wf(),
        venus.wf(),
    ensures
        ({
            let s = old(gpu)@.scanout_copy_sent(meta, venus, stream_len, notify, added);
            &&& match (r, s.0) {
                (Ok(f), Ok(fence)) => f == fence,
                (Err((m, v, e)), Err(why)) => m == meta && v == venus && e == why,
                _ => false,
            }
            &&& final(gpu)@ == s.1
            &&& final(out)@ == old(out)@ + s.2
        }),
        final(gpu)@.wf(),
        final(gpu)@.follows(old(gpu)@),
{
    if stream_len == 0 {
        return Err((meta, venus, VirtioError::DeviceError));
    }
    gpu.enqueue_scanout_submit(meta, venus, stream_len, notify, added, out)
}

/// Queue a present copy on the scan-out ring; one attempt, without a retry. Its
/// end notifies nobody.
pub fn submit_venus_async_present(
    gpu: &mut VirtioGpu,
    meta: DmaBuffer,
    venus: DmaBuffer,
    stream_len: usize,
    added: AddResult,
    out: &mut Vec<Action>,
) -> (r: Result<u64, (DmaBuffer, DmaBuffer, VirtioError)>)
    requires
        old(gpu)@.wf(),
        old(gpu)@.queue.hands_out(added),
        old(gpu)@.fences.next_wire_fence < u64::MAX,
        meta.wf(),
        venus.wf(),
    ensures
        ({
            let s = old(gpu)@.present_copy_sent(meta, venus, stream_len, added);
            &&& match (r, s.0) {
                (Ok(f), Ok(fence)) => f == fence,
                (Err((m, v, e)), Err(why)) => m == meta && v == venus && e == why,
                _ => false,
            }
            &&& final(gpu)@ == s.1
            &&& final(out)@ == old(out)@ + s.2
        }),
        final(gpu)@.wf(),
        final(gpu)@.follows(old(gpu)@),
{
    if stream_len == 0 {
        return Err((meta, venus, VirtioError::DeviceError));
    }
    gpu.enqueue_async_submit(SCANOUT_RING_IDX, meta, venus, stream_len, added, out)
}

} // verus!
