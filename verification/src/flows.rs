//! Lifecycles of contexts, resources and blobs, each a sequence of host commands
//! with the bookkeeping between them.
//!
//! A flow is advanced with the verdict on the command it sent last, and answers
//! with the next step. The verdict that starts a flow is not looked at.
use crate::ctrl::{Budget, MAP_BUSY_MAX_MS};
use crate::error::VirtioError;
use crate::gpu::{GpuState, VirtioGpu};
use crate::inflight::ControlCells;
use crate::owner::{DeviceOwner, OwnerFilter};
use crate::promises::wire::{field32, has_header, law_context_command_on_the_wire,
    law_flush_command_on_the_wire, law_resource_command_on_the_wire, law_set_command_on_the_wire};
use crate::protocol::{create_blob_bytes, ctx_create_bytes, encode_create_blob, encode_ctx_create,
    encode_ctx_destroy, encode_flush, encode_map_blob, encode_resource, encode_set_scanout_blob,
    flush_bytes, map_blob_bytes, plain_hdr, resource_bytes, set_scanout_blob_bytes, BlobSpec,
    CMD_CTX_ATTACH_RESOURCE, CMD_CTX_DESTROY, CMD_CTX_DETACH_RESOURCE, CMD_RESOURCE_UNMAP_BLOB,
    CMD_RESOURCE_UNREF};
use crate::seqs::{first_index, lemma_first_index, lemma_first_index_exists, lemma_tally_none,
    lemma_tally_swap_removed, some, swap_removed, tally};
use crate::tables::{is_id, BlobMapBegin, BlobMapFinish, BlobMapPrep, BlobRemapBegin, BlobSlot,
    ContextSlot, TablesState};
use crate::counters::TableCounters;
use crate::window::{law_free_keeps_reserve, page_ceiling, round_up_page};
use vstd::prelude::*;

verus! {

/// The name that contexts carry in the host's logs.
pub const CTX_NAME: [u8; 6] = [104, 101, 108, 105, 111, 115];

/// Most stale mappings that one placement evicts.
pub const MAX_STALE: usize = 8;

/// What a flow asks for.
#[derive(Debug)]
pub enum FlowStep<T> {
    /// Send this command and hand back the verdict on it.
    Send(Vec<u8>),
    /// Sleep one retry slice.
    Sleep,
    /// Go on at once.
    Again,
    Done(Result<T, VirtioError>),
}

/// What a flow asks for, as a value.
pub enum Next<T> {
    Send(Seq<u8>),
    Sleep,
    Again,
    Done(Result<T, VirtioError>),
}

impl<T> View for FlowStep<T> {
    type V = Next<T>;

    open spec fn view(&self) -> Next<T> {
        match *self {
            FlowStep::Send(bytes) => Next::Send(bytes@),
            FlowStep::Sleep => Next::Sleep,
            FlowStep::Again => Next::Again,
            FlowStep::Done(r) => Next::Done(r),
        }
    }
}

/// The command that attaches a resource to a context.
pub fn ctx_attach_resource(ctx_id: u32, resource_id: u32) -> (r: Vec<u8>)
    ensures
        r@ == resource_bytes(CMD_CTX_ATTACH_RESOURCE, ctx_id, resource_id),
        has_header(r@, 0x202, 0, 0, ctx_id as int, 0) && field32(r@, 24) == resource_id,
{
    proof {
        law_resource_command_on_the_wire(0x202, ctx_id, resource_id);
    }
    encode_resource(CMD_CTX_ATTACH_RESOURCE, ctx_id, resource_id)
}

/// The command that detaches a resource from a context.
pub fn ctx_detach_resource(ctx_id: u32, resource_id: u32) -> (r: Vec<u8>)
    ensures
        r@ == resource_bytes(CMD_CTX_DETACH_RESOURCE, ctx_id, resource_id),
        has_header(r@, 0x203, 0, 0, ctx_id as int, 0) && field32(r@, 24) == resource_id,
{
    proof {
        law_resource_command_on_the_wire(0x203, ctx_id, resource_id);
    }
    encode_resource(CMD_CTX_DETACH_RESOURCE, ctx_id, resource_id)
}

/// The command that drops the host's reference to a resource.
pub fn resource_unref(resource_id: u32) -> (r: Vec<u8>)
    ensures
        r@ == resource_bytes(CMD_RESOURCE_UNREF, 0, resource_id),
        has_header(r@, 0x102, 0, 0, 0, 0) && field32(r@, 24) == resource_id,
{
    proof {
        law_resource_command_on_the_wire(0x102, 0, resource_id);
    }
    encode_resource(CMD_RESOURCE_UNREF, 0, resource_id)
}

/// The command that undoes a blob's mapping.
pub fn resource_unmap_blob(resource_id: u32) -> (r: Vec<u8>)
    ensures
        r@ == resource_bytes(CMD_RESOURCE_UNMAP_BLOB, 0, resource_id),
        has_header(r@, 0x209, 0, 0, 0, 0) && field32(r@, 24) == resource_id,
{
    proof {
        law_resource_command_on_the_wire(0x209, 0, resource_id);
    }
    encode_resource(CMD_RESOURCE_UNMAP_BLOB, 0, resource_id)
}

/// The command that shows a blob on scan-out 0.
pub fn set_scanout_blob(
    resource_id: u32,
    width: u32,
    height: u32,
    format: u32,
    stride: u32,
    offset: u32,
) -> (r: Vec<u8>)
    ensures
        r@ == set_scanout_blob_bytes(resource_id, width, height, format, stride, offset),
        has_header(r@, 0x10d, 0, 0, 0, 0),
        field32(r@, 32) == width && field32(r@, 36) == height,
        field32(r@, 44) == resource_id,
        field32(r@, 48) == width && field32(r@, 52) == height,
        field32(r@, 56) == format && field32(r@, 64) == stride && field32(r@, 80) == offset,
{
    proof {
        law_set_command_on_the_wire(resource_id, width, height, format, stride, offset);
    }
    encode_set_scanout_blob(resource_id, width, height, format, stride, offset)
}

/// The cells of a flush: success stores nothing.
pub open spec fn flush_cells(completion: u64, completion_errors: u64, wake_event: u64) -> ControlCells {
    ControlCells {
        completion,
        completion_errors,
        wake_event,
        success_cell: None,
        success_value: 0,
        resubmit: None,
    }
}

/// The cells of a SET: success stores the resource and asks for a refresh.
pub open spec fn set_cells(
    resource_id: u32,
    completion: u64,
    completion_errors: u64,
    host_bound: u64,
    refresh_pending: u64,
    wake_event: u64,
) -> ControlCells {
    ControlCells {
        completion,
        completion_errors,
        wake_event,
        success_cell: Some(host_bound),
        success_value: resource_id,
        resubmit: Some(refresh_pending),
    }
}

/// The command that has the host read a resource, and the cells for sending it
/// without a waiter.
pub fn resource_flush_async(
    resource_id: u32,
    width: u32,
    height: u32,
    completion: u64,
    completion_errors: u64,
    wake_event: u64,
) -> (r: (Vec<u8>, ControlCells))
    ensures
        r.0@ == flush_bytes(resource_id, width, height),
        r.1 == flush_cells(completion, completion_errors, wake_event),
        has_header(r.0@, 0x104, 0, 0, 0, 0),
        field32(r.0@, 32) == width && field32(r.0@, 36) == height,
        field32(r.0@, 40) == resource_id,
{
    proof {
        law_flush_command_on_the_wire(resource_id, width, height);
    }
    (
        encode_flush(resource_id, width, height),
        ControlCells {
            completion,
            completion_errors,
            wake_event,
            success_cell: None,
            success_value: 0,
            resubmit: None,
        },
    )
}

/// The command that shows a blob on scan-out 0, and the cells for sending it
/// without a waiter: success stores the resource and asks for a refresh.
pub fn set_scanout_blob_async(
    resource_id: u32,
    width: u32,
    height: u32,
    format: u32,
    stride: u32,
    offset: u32,
    completion: u64,
    completion_errors: u64,
    host_bound: u64,
    refresh_pending: u64,
    wake_event: u64,
) -> (r: (Vec<u8>, ControlCells))
    ensures
        r.0@ == set_scanout_blob_bytes(resource_id, width, height, format, stride, offset),
        r.1 == set_cells(
            resource_id,
            completion,
            completion_errors,
            host_bound,
            refresh_pending,
            wake_event,
        ),
        has_header(r.0@, 0x10d, 0, 0, 0, 0),
        field32(r.0@, 32) == width && field32(r.0@, 36) == height,
        field32(r.0@, 44) == resource_id,
        field32(r.0@, 48) == width && field32(r.0@, 52) == height,
        field32(r.0@, 56) == format && field32(r.0@, 64) == stride && field32(r.0@, 80) == offset,
{
    proof {
        law_set_command_on_the_wire(resource_id, width, height, format, stride, offset);
    }
    (
        encode_set_scanout_blob(resource_id, width, height, format, stride, offset),
        ControlCells {
            completion,
            completion_errors,
            wake_event,
            success_cell: Some(host_bound),
            success_value: resource_id,
            resubmit: Some(refresh_pending),
        },
    )
}

/// Begin to create a context: its id and the command. A context that cannot be
/// tracked is not created.
pub fn ctx_create(gpu: &mut VirtioGpu, capset_id: u32) -> (r: Result<(u32, Vec<u8>), VirtioError>)
    requires
        old(gpu)@.wf(),
    ensures
        ({
            let (begun, t) = old(gpu)@.tables.context_begun();
            &&& final(gpu)@ == (GpuState { tables: t, ..old(gpu)@ })
            &&& match begun {
                Ok(id) => r matches Ok((ctx_id, cmd)) && ctx_id == id && cmd@ == ctx_create_bytes(
                    id,
                    capset_id,
                    CTX_NAME@,
                ),
                Err(why) => r matches Err(e) && e == why,
            }
        }),
        r matches Ok((ctx_id, cmd)) ==> has_header(cmd@, 0x200, 0, 0, ctx_id as int, 0) && field32(
            cmd@,
            28,
        ) == capset_id,
        final(gpu)@.wf(),
        final(gpu)@.follows(old(gpu)@),
{
    let ctx_id: u32 = gpu.alloc_ctx_id();
    proof {
        law_context_command_on_the_wire(ctx_id, capset_id, CTX_NAME@);
    }
    if !gpu.reserve_context_slot() {
        return Err(VirtioError::OutOfMemory);
    }
    Ok((ctx_id, encode_ctx_create(ctx_id, capset_id, &CTX_NAME)))
}

/// Finish the creation of a context with the host's verdict.
pub fn ctx_create_finish(
    gpu: &mut VirtioGpu,
    owner: Option<DeviceOwner>,
    ctx_id: u32,
    verdict: Result<(), VirtioError>,
) -> (r: Result<u32, VirtioError>)
    requires
        old(gpu)@.wf(),
    ensures
        r == old(gpu)@.tables.context_finished(owner, ctx_id, verdict).0,
        final(gpu)@ == (GpuState {
            tables: old(gpu)@.tables.context_finished(owner, ctx_id, verdict).1,
            ..old(gpu)@
        }),
        final(gpu)@.wf(),
        final(gpu)@.follows(old(gpu)@),
{
    match verdict {
        Ok(_) => {
            gpu.commit_context(owner, ctx_id);
            Ok(ctx_id)
        },
        Err(e) => {
            gpu.cancel_context_reservation();
            Err(e)
        },
    }
}

/// Destroy a context: stop tracking it and return the command. A context that is
/// not the owner's is refused and never named to the host.
pub fn ctx_destroy(gpu: &mut VirtioGpu, owner: Option<DeviceOwner>, ctx_id: u32) -> (r: Result<
    Vec<u8>,
    VirtioError,
>)
    requires
        old(gpu)@.wf(),
    ensures
        ({
            let (found, t) = old(gpu)@.tables.context_untracked(owner, ctx_id);
            &&& final(gpu)@ == (GpuState { tables: t, ..old(gpu)@ })
            &&& match found {
                Some(id) => r matches Ok(cmd) && cmd@ == plain_hdr(CMD_CTX_DESTROY, id),
                None => r matches Err(e) && e == VirtioError::NotOwned,
            }
        }),
        r matches Ok(cmd) ==> has_header(cmd@, 0x201, 0, 0, ctx_id as int, 0),
        final(gpu)@.wf(),
        final(gpu)@.follows(old(gpu)@),
{
    proof {
        law_context_command_on_the_wire(ctx_id, 0, Seq::empty());
    }
    match gpu.untrack_owned_context(owner, ctx_id) {
        Some(id) => Ok(encode_ctx_destroy(id)),
        None => Err(VirtioError::NotOwned),
    }
}

/// Destroy a context that the driver created for itself.
pub fn ctx_destroy_kmd(gpu: &mut VirtioGpu, ctx_id: u32) -> (r: Result<Vec<u8>, VirtioError>)
    requires
        old(gpu)@.wf(),
    ensures
        ({
            let (found, t) = old(gpu)@.tables.context_untracked(None, ctx_id);
            &&& final(gpu)@ == (GpuState { tables: t, ..old(gpu)@ })
            &&& match found {
                Some(id) => r matches Ok(cmd) && cmd@ == plain_hdr(CMD_CTX_DESTROY, id),
                None => r matches Err(e) && e == VirtioError::NotOwned,
            }
        }),
        r matches Ok(cmd) ==> has_header(cmd@, 0x201, 0, 0, ctx_id as int, 0),
        final(gpu)@.wf(),
        final(gpu)@.follows(old(gpu)@),
{
    ctx_destroy(gpu, None, ctx_id)
}

/// Destroy the next context of an owner; `None` when none is left. The verdict on
/// the command does not matter. `destroyed` counts.
pub fn destroy_contexts_for_owner(
    gpu: &mut VirtioGpu,
    owner: Option<DeviceOwner>,
    destroyed: &mut u32,
) -> (r: Option<Vec<u8>>)
    requires
        old(gpu)@.wf(),
        *old(destroyed) + old(gpu)@.tables.contexts.len() <= u32::MAX,
    ensures
        match first_index(old(gpu)@.tables.contexts, ContextSlot::owned_by(owner)) {
            Some(i) => {
                &&& r matches Some(cmd) && cmd@ == plain_hdr(
                    CMD_CTX_DESTROY,
                    old(gpu)@.tables.contexts[i].ctx_id,
                )
                &&& *final(destroyed) == *old(destroyed) + 1
                &&& final(gpu)@ == (GpuState {
                    tables: old(gpu)@.tables.without_context(i),
                    ..old(gpu)@
                })
            },
            None => {
                &&& r is None
                &&& *final(destroyed) == *old(destroyed)
                &&& final(gpu)@ == old(gpu)@
            },
        },
        r matches Some(cmd) ==> exists|i: int|
            0 <= i < old(gpu)@.tables.contexts.len() && (
            #[trigger] old(gpu)@.tables.contexts[i]).owner == owner && has_header(
                cmd@,
                0x201,
                0,
                0,
                old(gpu)@.tables.contexts[i].ctx_id as int,
                0,
            ),
        *final(destroyed) + final(gpu)@.tables.contexts.len() <= u32::MAX,
        final(gpu)@.tables.contexts_destroyed(owner, *final(destroyed) as nat) == old(
            gpu,
        )@.tables.contexts_destroyed(owner, *old(destroyed) as nat),
        final(gpu)@.wf(),
        final(gpu)@.follows(old(gpu)@),
{
    proof {
        lemma_first_index_exists(
            gpu@.tables.contexts,
            ContextSlot::owned_by(owner),
        );
    }
    match gpu.take_context_for_owner(owner) {
        Some(id) => {
            *destroyed = *destroyed + 1;
            proof {
                law_context_command_on_the_wire(id, 0, Seq::empty());
            }
            Some(encode_ctx_destroy(id))
        },
        None => None,
    }
}

/// The command that attaches a resource to a context that does not own it. A dead
/// resource is refused here: the host would not refuse it.
pub fn attach_resource_checked(gpu: &VirtioGpu, ctx_id: u32, resource_id: u32) -> (r: Result<
    Vec<u8>,
    VirtioError,
>)
    ensures
        if gpu@.tables.resources.contains(resource_id) {
            r matches Ok(cmd) && cmd@ == resource_bytes(
                CMD_CTX_ATTACH_RESOURCE,
                ctx_id,
                resource_id,
            )
        } else {
            r matches Err(e) && e == VirtioError::DeviceError
        },
        r is Ok <==> gpu@.tables.resources.contains(resource_id),
        r matches Ok(cmd) ==> has_header(cmd@, 0x202, 0, 0, ctx_id as int, 0) && field32(cmd@, 24)
            == resource_id,
{
    if !gpu.resource_is_live(resource_id) {
        return Err(VirtioError::DeviceError);
    }
    Ok(ctx_attach_resource(ctx_id, resource_id))
}

/// How far the creation of a blob resource is.
#[derive(Clone, Copy, Debug, PartialEq, Eq, Structural)]
pub enum CreateBlob {
    Start,
    Creating { resource_id: u32 },
    Attaching { resource_id: u32 },
    /// It exists but could not be attached; it is dropped again.
    Dropping { resource_id: u32, why: VirtioError },
    Ended,
}

impl CreateBlob {
    pub open spec fn next(
        self,
        t: TablesState,
        ctx_id: u32,
        blob: BlobSpec,
        verdict: Result<(), VirtioError>,
    ) -> (Next<u32>, CreateBlob, TablesState) {
        match self {
            CreateBlob::Start => if t.resource_room() {
                let id = t.next_resource_id;
                (
                    Next::Send(create_blob_bytes(ctx_id, id, blob)),
                    CreateBlob::Creating { resource_id: id },
                    TablesState { next_resource_id: id.wrapping_add(1), ..t.resource_reserved() },
                )
            } else {
                (
                    Next::Done(Err(VirtioError::OutOfMemory)),
                    CreateBlob::Ended,
                    t.resource_refused(),
                )
            },
            CreateBlob::Creating { resource_id } => match verdict {
                Err(e) => (Next::Done(Err(e)), CreateBlob::Ended, t.resource_cancelled()),
                Ok(_) => (
                    Next::Send(resource_bytes(CMD_CTX_ATTACH_RESOURCE, ctx_id, resource_id)),
                    CreateBlob::Attaching { resource_id },
                    t,
                ),
            },
            CreateBlob::Attaching { resource_id } => match verdict {
                Err(e) => (
                    Next::Send(resource_bytes(CMD_RESOURCE_UNREF, 0, resource_id)),
                    CreateBlob::Dropping { resource_id, why: e },
                    t,
                ),
                Ok(_) => (
                    Next::Done(Ok(resource_id)),
                    CreateBlob::Ended,
                    t.resource_committed(resource_id),
                ),
            },
            CreateBlob::Dropping { resource_id, why } => (
                Next::Done(Err(why)),
                CreateBlob::Ended,
                t.resource_cancelled(),
            ),
            CreateBlob::Ended => (Next::Done(Err(VirtioError::DeviceError)), self, t),
        }
    }

    /// The same with a tracked blob: its slot is reserved first and, at the end,
    /// filled or given back.
    pub open spec fn next_tracked(
        self,
        t: TablesState,
        owner: Option<DeviceOwner>,
        ctx_id: u32,
        blob: BlobSpec,
        verdict: Result<(), VirtioError>,
    ) -> (Next<u32>, CreateBlob, TablesState) {
        if self == CreateBlob::Start && blob.size == 0 {
            (Next::Done(Err(VirtioError::DeviceError)), CreateBlob::Ended, t)
        } else if self == CreateBlob::Start && !t.blob_room() {
            (Next::Done(Err(VirtioError::OutOfMemory)), CreateBlob::Ended, t.blob_refused())
        } else if self == CreateBlob::Ended {
            (Next::Done(Err(VirtioError::DeviceError)), self, t)
        } else {
            let held = if self == CreateBlob::Start {
                t.blob_reserved()
            } else {
                t
            };
            let (step, at, u) = self.next(held, ctx_id, blob, verdict);
            match step {
                Next::Done(Ok(resource_id)) => (
                    step,
                    at,
                    u.blob_committed(BlobSlot::fresh(owner, ctx_id, resource_id, blob.size)),
                ),
                Next::Done(Err(_)) => (step, at, u.blob_cancelled()),
                _ => (step, at, u),
            }
        }
    }
}

/// Create a blob resource and attach it to its context. A resource that could not
/// be tracked is never created, and one that could not be attached is dropped.
pub fn resource_create_blob(
    gpu: &mut VirtioGpu,
    ctx_id: u32,
    blob: BlobSpec,
    at: &mut CreateBlob,
    verdict: Result<(), VirtioError>,
) -> (r: FlowStep<u32>)
    requires
        old(gpu)@.wf(),
    ensures
        ({
            let s = old(at).next(old(gpu)@.tables, ctx_id, blob, verdict);
            &&& r@ == s.0
            &&& *final(at) == s.1
            &&& final(gpu)@ == (GpuState { tables: s.2, ..old(gpu)@ })
        }),
        final(gpu)@.wf(),
        final(gpu)@.follows(old(gpu)@),
{
    match *at {
        CreateBlob::Start => {
            if !gpu.reserve_resource_slot() {
                *at = CreateBlob::Ended;
                return FlowStep::Done(Err(VirtioError::OutOfMemory));
            }
            let resource_id: u32 = gpu.alloc_resource_id();
            *at = CreateBlob::Creating { resource_id };
            FlowStep::Send(encode_create_blob(ctx_id, resource_id, blob))
        },
        CreateBlob::Creating { resource_id } => match verdict {
            Err(e) => {
                gpu.cancel_resource_reservation();
                *at = CreateBlob::Ended;
                FlowStep::Done(Err(e))
            },
            Ok(_) => {
                *at = CreateBlob::Attaching { resource_id };
                FlowStep::Send(ctx_attach_resource(ctx_id, resource_id))
            },
        },
        CreateBlob::Attaching { resource_id } => match verdict {
            Err(e) => {
                *at = CreateBlob::Dropping { resource_id, why: e };
                FlowStep::Send(resource_unref(resource_id))
            },
            Ok(_) => {
                gpu.commit_resource(resource_id);
                *at = CreateBlob::Ended;
                FlowStep::Done(Ok(resource_id))
            },
        },
        CreateBlob::Dropping { resource_id: _, why } => {
            gpu.cancel_resource_reservation();
            *at = CreateBlob::Ended;
            FlowStep::Done(Err(why))
        },
        CreateBlob::Ended => FlowStep::Done(Err(VirtioError::DeviceError)),
    }
}

/// Create a blob resource and track it as a blob of `owner`. Where the host has
/// attached it, no blob may have its id already.
pub fn alloc_blob(
    gpu: &mut VirtioGpu,
    owner: Option<DeviceOwner>,
    ctx_id: u32,
    blob: BlobSpec,
    at: &mut CreateBlob,
    verdict: Result<(), VirtioError>,
) -> (r: FlowStep<u32>)
    requires
        old(gpu)@.wf(),
        *old(at) matches CreateBlob::Attaching { resource_id } ==> verdict is Ok ==> !some(
            old(gpu)@.tables.blobs,
            BlobSlot::named(resource_id),
        ),
    ensures
        ({
            let s = old(at).next_tracked(old(gpu)@.tables, owner, ctx_id, blob, verdict);
            &&& r@ == s.0
            &&& *final(at) == s.1
            &&& final(gpu)@ == (GpuState { tables: s.2, ..old(gpu)@ })
        }),
        final(gpu)@.wf(),
        final(gpu)@.follows(old(gpu)@),
{
    match *at {
        CreateBlob::Start => {
            if blob.size == 0 {
                *at = CreateBlob::Ended;
                return FlowStep::Done(Err(VirtioError::DeviceError));
            }
            if !gpu.reserve_blob_slot() {
                *at = CreateBlob::Ended;
                return FlowStep::Done(Err(VirtioError::OutOfMemory));
            }
        },
        CreateBlob::Ended => {
            return FlowStep::Done(Err(VirtioError::DeviceError));
        },
        _ => {},
    }
    let step = resource_create_blob(gpu, ctx_id, blob, at, verdict);
    match step {
        FlowStep::Done(Ok(resource_id)) => {
            gpu.commit_blob(owner, ctx_id, resource_id, blob.size);
            FlowStep::Done(Ok(resource_id))
        },
        FlowStep::Done(Err(e)) => {
            gpu.cancel_blob_reservation();
            FlowStep::Done(Err(e))
        },
        other => other,
    }
}

/// How far the mapping of a blob is.
#[derive(Clone, Copy, Debug, PartialEq, Eq, Structural)]
pub enum MapBlob {
    /// Not begun, or another mapper is waited for.
    Begin { busy: Budget },
    Mapping { offset: u64, len: u64 },
    /// The blob went away meanwhile; the host's mapping is undone.
    Undoing { offset: u64, len: u64 },
    Ended,
}

/// The caching mode that the host granted, if it did.
pub open spec fn granted(verdict: Result<u32, VirtioError>) -> Option<u32> {
    match verdict {
        Ok(c) => Some(c),
        Err(_) => None,
    }
}

fn granted_cache(verdict: Result<u32, VirtioError>) -> (r: Option<u32>)
    ensures
        r == granted(verdict),
{
    match verdict {
        Ok(c) => Some(c),
        Err(_) => None,
    }
}

/// The error of a map request that the host did not grant.
pub open spec fn refusal_of(verdict: Result<u32, VirtioError>) -> VirtioError {
    match verdict {
        Ok(_) => VirtioError::DeviceError,
        Err(e) => e,
    }
}

fn refusal(verdict: Result<u32, VirtioError>) -> (r: VirtioError)
    ensures
        r == refusal_of(verdict),
{
    match verdict {
        Ok(_) => VirtioError::DeviceError,
        Err(e) => e,
    }
}

impl MapBlob {
    /// The range that was held for the mapping is still held.
    pub open spec fn wf(self, t: TablesState, resource_id: u32) -> bool {
        match self {
            MapBlob::Mapping { offset, len } => t.holds(resource_id, offset, len),
            MapBlob::Undoing { offset, len } => t.returnable(offset, len),
            _ => true,
        }
    }

    pub open spec fn next(
        self,
        t: TablesState,
        owner: OwnerFilter,
        resource_id: u32,
        verdict: Result<u32, VirtioError>,
    ) -> (Next<BlobMapPrep>, MapBlob, TablesState) {
        match self {
            MapBlob::Begin { busy } => {
                let (begin, u) = t.map_begun(owner, resource_id);
                match begin {
                    BlobMapBegin::Mapped(prep) => (Next::Done(Ok(prep)), MapBlob::Ended, u),
                    BlobMapBegin::Failed(e) => (Next::Done(Err(e)), MapBlob::Ended, u),
                    BlobMapBegin::Busy => if busy.charged().is_expired() {
                        (Next::Done(Err(VirtioError::Timeout)), MapBlob::Ended, u)
                    } else {
                        (Next::Sleep, MapBlob::Begin { busy: busy.charged() }, u)
                    },
                    BlobMapBegin::Start { offset, len } => (
                        Next::Send(map_blob_bytes(resource_id, offset)),
                        MapBlob::Mapping { offset, len },
                        u,
                    ),
                }
            },
            MapBlob::Mapping { offset, len } => {
                let (fin, u) = t.map_finished(resource_id, offset, len, granted(verdict));
                match fin {
                    BlobMapFinish::Done(prep) => (Next::Done(Ok(prep)), MapBlob::Ended, u),
                    BlobMapFinish::HostRejected => (
                        Next::Done(Err(refusal_of(verdict))),
                        MapBlob::Ended,
                        u,
                    ),
                    BlobMapFinish::SlotGone => (
                        Next::Send(resource_bytes(CMD_RESOURCE_UNMAP_BLOB, 0, resource_id)),
                        MapBlob::Undoing { offset, len },
                        u,
                    ),
                }
            },
            MapBlob::Undoing { offset, len } => (
                Next::Done(Err(VirtioError::DeviceError)),
                MapBlob::Ended,
                t.after_window_free(offset, len),
            ),
            MapBlob::Ended => (Next::Done(Err(VirtioError::DeviceError)), self, t),
        }
    }

    pub fn new() -> (r: Self)
        ensures
            r == (MapBlob::Begin { busy: Budget::of(MAP_BUSY_MAX_MS) }),
    {
        MapBlob::Begin { busy: Budget::new(MAP_BUSY_MAX_MS) }
    }
}

/// Map a blob into the window, wherever there is room. A blob that is mapped
/// already is answered at once.
pub fn map_blob_prepare(
    gpu: &mut VirtioGpu,
    owner: OwnerFilter,
    resource_id: u32,
    at: &mut MapBlob,
    verdict: Result<u32, VirtioError>,
) -> (r: FlowStep<BlobMapPrep>)
    requires
        old(gpu)@.wf(),
        old(at).wf(old(gpu)@.tables, resource_id),
    ensures
        ({
            let s = old(at).next(old(gpu)@.tables, owner, resource_id, verdict);
            &&& r@ == s.0
            &&& *final(at) == s.1
            &&& final(gpu)@ == (GpuState { tables: s.2, ..old(gpu)@ })
        }),
        final(gpu)@.wf(),
        final(at).wf(final(gpu)@.tables, resource_id),
        final(gpu)@.follows(old(gpu)@),
{
    match *at {
        MapBlob::Begin { busy } => match gpu.blob_map_begin(owner, resource_id) {
            BlobMapBegin::Mapped(prep) => {
                *at = MapBlob::Ended;
                FlowStep::Done(Ok(prep))
            },
            BlobMapBegin::Failed(e) => {
                *at = MapBlob::Ended;
                FlowStep::Done(Err(e))
            },
            BlobMapBegin::Busy => {
                let mut budget: Budget = busy;
                if budget.charge_slice() {
                    *at = MapBlob::Ended;
                    return FlowStep::Done(Err(VirtioError::Timeout));
                }
                *at = MapBlob::Begin { busy: budget };
                FlowStep::Sleep
            },
            BlobMapBegin::Start { offset, len } => {
                *at = MapBlob::Mapping { offset, len };
                FlowStep::Send(encode_map_blob(resource_id, offset))
            },
        },
        MapBlob::Mapping { offset, len } => {
            match gpu.blob_map_finish(resource_id, offset, len, granted_cache(verdict)) {
                BlobMapFinish::Done(prep) => {
                    *at = MapBlob::Ended;
                    FlowStep::Done(Ok(prep))
                },
                BlobMapFinish::HostRejected => {
                    *at = MapBlob::Ended;
                    FlowStep::Done(Err(refusal(verdict)))
                },
                BlobMapFinish::SlotGone => {
                    *at = MapBlob::Undoing { offset, len };
                    FlowStep::Send(resource_unmap_blob(resource_id))
                },
            }
        },
        MapBlob::Undoing { offset, len } => {
            gpu.free_window_range_pub(offset, len);
            *at = MapBlob::Ended;
            FlowStep::Done(Err(VirtioError::DeviceError))
        },
        MapBlob::Ended => FlowStep::Done(Err(VirtioError::DeviceError)),
    }
}

/// How far the placement of a blob is.
#[derive(Clone, Copy, Debug, PartialEq, Eq)]
pub enum MapBlobAt {
    Start,
    /// Stale mappings over the range are undone: `stale[k]` is on its way.
    Evicting { stale: [u32; 8], n: usize, k: usize },
    Begin { busy: Budget },
    /// The blob's mapping elsewhere is undone.
    Moving { old_offset: u64, old_len: u64, len: u64 },
    Mapping { len: u64 },
    /// The blob went away meanwhile; the host's mapping is undone.
    Undoing,
    Ended,
}

impl TablesState {
    /// A blob's mapping was undone.
    pub open spec fn unmapped(self, resource_id: u32) -> TablesState {
        match first_index(self.blobs, BlobSlot::mapped_as(resource_id)) {
            Some(i) => self.with_blob(
                i,
                BlobSlot { mapped: false, map_offset: 0, map_len: 0, ..self.blobs[i] },
            ),
            None => self,
        }
    }

    pub open spec fn truncation_counted(self) -> TablesState {
        TablesState {
            counters: TableCounters {
                window_overlap_truncated: self.counters.window_overlap_truncated.wrapping_add(1),
                ..self.counters
            },
            ..self
        }
    }

    /// A blob's teardown is claimed: whether this is the first claim.
    pub open spec fn teardown_claimed(self, resource_id: u32) -> (bool, TablesState) {
        match first_index(self.resources, is_id(resource_id)) {
            Some(i) => (
                true,
                TablesState { resources: swap_removed(self.resources, i), ..self },
            ),
            None => (
                false,
                TablesState {
                    counters: TableCounters {
                        take_live_misses: self.counters.take_live_misses.wrapping_add(1),
                        ..self.counters
                    },
                    ..self
                },
            ),
        }
    }
}

impl MapBlobAt {
    /// The ranges that were held for the mapping, and left by it, still are, and the
    /// eviction has a blob to evict.
    pub open spec fn wf(self, t: TablesState, resource_id: u32, window_offset: u64) -> bool {
        match self {
            MapBlobAt::Evicting { n, k, .. } => k < n <= MAX_STALE,
            MapBlobAt::Moving { old_offset, old_len, len } => {
                &&& window_offset < t.window.reserve
                &&& t.holds(resource_id, window_offset, len)
                &&& t.returnable(old_offset, old_len)
            },
            MapBlobAt::Mapping { len } => window_offset < t.window.reserve && t.holds(
                resource_id,
                window_offset,
                len,
            ),
            _ => true,
        }
    }

    pub open spec fn begun(t: TablesState, resource_id: u32, window_offset: u64, busy: Budget) -> (
        Next<BlobMapPrep>,
        MapBlobAt,
        TablesState,
    ) {
        let (begin, u) = t.remap_begun(resource_id, window_offset);
        match begin {
            BlobRemapBegin::Mapped(prep) => (Next::Done(Ok(prep)), MapBlobAt::Ended, u),
            BlobRemapBegin::Failed(e) => (Next::Done(Err(e)), MapBlobAt::Ended, u),
            BlobRemapBegin::Busy => if busy.charged().is_expired() {
                (Next::Done(Err(VirtioError::Timeout)), MapBlobAt::Ended, u)
            } else {
                (Next::Sleep, MapBlobAt::Begin { busy: busy.charged() }, u)
            },
            BlobRemapBegin::Start { old: Some((old_offset, old_len)), len } => (
                Next::Send(resource_bytes(CMD_RESOURCE_UNMAP_BLOB, 0, resource_id)),
                MapBlobAt::Moving { old_offset, old_len, len },
                u,
            ),
            BlobRemapBegin::Start { old: None, len } => (
                Next::Send(map_blob_bytes(resource_id, window_offset)),
                MapBlobAt::Mapping { len },
                u,
            ),
        }
    }

    /// The stale mappings that are listed.
    pub open spec fn listed(self) -> [u32; 8] {
        match self {
            MapBlobAt::Evicting { stale, .. } => stale,
            _ => choose|any: [u32; 8]| (#[trigger] any@).len() == 8,
        }
    }

    /// The next step; `stale` lists what is in the way, if anything is.
    pub open spec fn next(
        self,
        t: TablesState,
        resource_id: u32,
        window_offset: u64,
        verdict: Result<u32, VirtioError>,
        stale: [u32; 8],
    ) -> (Next<BlobMapPrep>, MapBlobAt, TablesState) {
        let failed = Next::<BlobMapPrep>::Done(Err(VirtioError::DeviceError));
        match self {
            MapBlobAt::Start => match first_index(t.blobs, BlobSlot::named(resource_id)) {
                None => (failed, MapBlobAt::Ended, t),
                Some(i) => {
                    let ids = t.in_the_way(
                        window_offset,
                        page_ceiling(t.blobs[i].size) as u64,
                        resource_id,
                    );
                    if ids.len() > MAX_STALE {
                        (failed, MapBlobAt::Ended, t.truncation_counted())
                    } else if ids.len() > 0 {
                        (
                            Next::Send(resource_bytes(CMD_RESOURCE_UNMAP_BLOB, 0, ids[0])),
                            MapBlobAt::Evicting { stale, n: ids.len() as usize, k: 0 },
                            t,
                        )
                    } else {
                        Self::begun(t, resource_id, window_offset, Budget::of(MAP_BUSY_MAX_MS))
                    }
                },
            },
            MapBlobAt::Evicting { stale: ids, n, k } => {
                let u = t.unmapped(ids@[k as int]);
                if k + 1 < n {
                    (
                        Next::Send(resource_bytes(CMD_RESOURCE_UNMAP_BLOB, 0, ids@[k + 1])),
                        MapBlobAt::Evicting { stale: ids, n, k: (k + 1) as usize },
                        u,
                    )
                } else {
                    Self::begun(u, resource_id, window_offset, Budget::of(MAP_BUSY_MAX_MS))
                }
            },
            MapBlobAt::Begin { busy } => Self::begun(t, resource_id, window_offset, busy),
            MapBlobAt::Moving { old_offset, old_len, len } => (
                Next::Send(map_blob_bytes(resource_id, window_offset)),
                MapBlobAt::Mapping { len },
                t.after_window_free(old_offset, old_len),
            ),
            MapBlobAt::Mapping { len } => {
                let (fin, u) = t.map_finished(resource_id, window_offset, len, granted(verdict));
                match fin {
                    BlobMapFinish::Done(prep) => (Next::Done(Ok(prep)), MapBlobAt::Ended, u),
                    BlobMapFinish::HostRejected => (
                        Next::Done(Err(refusal_of(verdict))),
                        MapBlobAt::Ended,
                        u,
                    ),
                    BlobMapFinish::SlotGone => (
                        Next::Send(resource_bytes(CMD_RESOURCE_UNMAP_BLOB, 0, resource_id)),
                        MapBlobAt::Undoing,
                        u,
                    ),
                }
            },
            MapBlobAt::Undoing | MapBlobAt::Ended => (failed, MapBlobAt::Ended, t),
        }
    }

    /// `stale` starts with `ids`.
    pub open spec fn lists(stale: [u32; 8], ids: Seq<u32>) -> bool {
        ids.len() <= MAX_STALE && stale@.take(ids.len() as int) == ids
    }
}

fn begin_map_at(
    gpu: &mut VirtioGpu,
    resource_id: u32,
    window_offset: u64,
    busy: Budget,
    at: &mut MapBlobAt,
) -> (r: FlowStep<BlobMapPrep>)
    requires
        old(gpu)@.wf(),
    ensures
        ({
            let s = MapBlobAt::begun(old(gpu)@.tables, resource_id, window_offset, busy);
            &&& r@ == s.0
            &&& *final(at) == s.1
            &&& final(gpu)@ == (GpuState { tables: s.2, ..old(gpu)@ })
        }),
        final(gpu)@.wf(),
        final(at).wf(final(gpu)@.tables, resource_id, window_offset),
        final(gpu)@.follows(old(gpu)@),
{
    let ghost before = gpu@.tables;
    match gpu.blob_remap_begin(resource_id, window_offset) {
        BlobRemapBegin::Mapped(prep) => {
            *at = MapBlobAt::Ended;
            FlowStep::Done(Ok(prep))
        },
        BlobRemapBegin::Failed(e) => {
            *at = MapBlobAt::Ended;
            FlowStep::Done(Err(e))
        },
        BlobRemapBegin::Busy => {
            let mut budget: Budget = busy;
            if budget.charge_slice() {
                *at = MapBlobAt::Ended;
                return FlowStep::Done(Err(VirtioError::Timeout));
            }
            *at = MapBlobAt::Begin { busy: budget };
            FlowStep::Sleep
        },
        BlobRemapBegin::Start { old: prior, len } => {
            proof {
                lemma_first_index_exists(before.blobs, BlobSlot::named(resource_id));
            }
            match prior {
                Some((old_offset, old_len)) => {
                    *at = MapBlobAt::Moving { old_offset, old_len, len };
                    FlowStep::Send(resource_unmap_blob(resource_id))
                },
                None => {
                    *at = MapBlobAt::Mapping { len };
                    FlowStep::Send(encode_map_blob(resource_id, window_offset))
                },
            }
        },
    }
}

/// Map a blob at a fixed offset inside the reserve. Stale mappings over the range
/// are undone first, then the blob's own mapping elsewhere; if there are more
/// stale ones than can be listed, nothing is mapped.
pub fn map_blob_at(
    gpu: &mut VirtioGpu,
    resource_id: u32,
    window_offset: u64,
    at: &mut MapBlobAt,
    verdict: Result<u32, VirtioError>,
) -> (r: FlowStep<BlobMapPrep>)
    requires
        old(gpu)@.wf(),
        old(at).wf(old(gpu)@.tables, resource_id, window_offset),
    ensures
        ({
            let s = old(at).next(
                old(gpu)@.tables,
                resource_id,
                window_offset,
                verdict,
                final(at).listed(),
            );
            &&& r@ == s.0
            &&& *final(at) == s.1
            &&& final(gpu)@ == (GpuState { tables: s.2, ..old(gpu)@ })
        }),
        *old(at) is Start && *final(at) is Evicting ==> (first_index(
            old(gpu)@.tables.blobs,
            BlobSlot::named(resource_id),
        ) matches Some(i) && MapBlobAt::lists(
            final(at).listed(),
            old(gpu)@.tables.in_the_way(
                window_offset,
                page_ceiling(old(gpu)@.tables.blobs[i].size) as u64,
                resource_id,
            ),
        )),
        final(gpu)@.wf(),
        final(at).wf(final(gpu)@.tables, resource_id, window_offset),
        final(gpu)@.follows(old(gpu)@),
{
    match *at {
        MapBlobAt::Start => {
            let size: u64 = match gpu.blob_lookup(resource_id) {
                Some((_, size, _)) => size,
                None => {
                    *at = MapBlobAt::Ended;
                    return FlowStep::Done(Err(VirtioError::DeviceError));
                },
            };
            let map_len: u64 = round_up_page(size);
            let mut stale: [u32; 8] = [0, 0, 0, 0, 0, 0, 0, 0];
            let n: usize = match gpu.blobs_overlapping(
                window_offset,
                map_len,
                resource_id,
                &mut stale,
            ) {
                Ok(n) => n,
                Err(_) => {
                    *at = MapBlobAt::Ended;
                    return FlowStep::Done(Err(VirtioError::DeviceError));
                },
            };
            if n > 0 {
                proof {
                    let ids = old(gpu)@.tables.in_the_way(window_offset, map_len, resource_id);
                    assert(stale@.take(ids.len() as int) =~= ids);
                }
                let first: u32 = stale[0];
                *at = MapBlobAt::Evicting { stale, n, k: 0 };
                return FlowStep::Send(resource_unmap_blob(first));
            }
            begin_map_at(gpu, resource_id, window_offset, Budget::new(MAP_BUSY_MAX_MS), at)
        },
        MapBlobAt::Evicting { stale, n, k } => {
            gpu.blob_note_unmapped(stale[k]);
            if k + 1 < n {
                let next: u32 = stale[k + 1];
                *at = MapBlobAt::Evicting { stale, n, k: k + 1 };
                return FlowStep::Send(resource_unmap_blob(next));
            }
            begin_map_at(gpu, resource_id, window_offset, Budget::new(MAP_BUSY_MAX_MS), at)
        },
        MapBlobAt::Begin { busy } => begin_map_at(gpu, resource_id, window_offset, busy, at),
        MapBlobAt::Moving { old_offset, old_len, len } => {
            proof {
                law_free_keeps_reserve(gpu@.tables.window, old_offset, old_len);
            }
            gpu.free_window_range_pub(old_offset, old_len);
            *at = MapBlobAt::Mapping { len };
            FlowStep::Send(encode_map_blob(resource_id, window_offset))
        },
        MapBlobAt::Mapping { len } => {
            match gpu.blob_map_finish(resource_id, window_offset, len, granted_cache(verdict)) {
                BlobMapFinish::Done(prep) => {
                    *at = MapBlobAt::Ended;
                    FlowStep::Done(Ok(prep))
                },
                BlobMapFinish::HostRejected => {
                    *at = MapBlobAt::Ended;
                    FlowStep::Done(Err(refusal(verdict)))
                },
                BlobMapFinish::SlotGone => {
                    *at = MapBlobAt::Undoing;
                    FlowStep::Send(resource_unmap_blob(resource_id))
                },
            }
        },
        MapBlobAt::Undoing | MapBlobAt::Ended => {
            *at = MapBlobAt::Ended;
            FlowStep::Done(Err(VirtioError::DeviceError))
        },
    }
}

/// How far the release of a blob is.
#[derive(Clone, Copy, Debug, PartialEq, Eq, Structural)]
pub enum Release {
    Start,
    Unmapping { ctx_id: u32, resource_id: u32, offset: u64, len: u64 },
    Detaching { ctx_id: u32, resource_id: u32 },
    Unreffing,
    Ended,
}

impl Release {
    /// The range that is about to be returned may be.
    pub open spec fn wf(self, t: TablesState) -> bool {
        self matches Release::Unmapping { offset, len, .. } ==> t.returnable(offset, len)
    }

    /// The teardown after the mapping is gone: only the first claim reaches the
    /// host.
    pub open spec fn torn(t: TablesState, ctx_id: u32, resource_id: u32) -> (
        Option<Seq<u8>>,
        Release,
        TablesState,
    ) {
        let (first, u) = t.teardown_claimed(resource_id);
        if first {
            (
                Some(resource_bytes(CMD_CTX_DETACH_RESOURCE, ctx_id, resource_id)),
                Release::Detaching { ctx_id, resource_id },
                u,
            )
        } else {
            (None, Release::Ended, u)
        }
    }

    /// A blob that was taken out of the table is released: its mapping first.
    pub open spec fn begun(t: TablesState, slot: BlobSlot) -> (Option<Seq<u8>>, Release, TablesState) {
        if slot.mapped {
            (
                Some(resource_bytes(CMD_RESOURCE_UNMAP_BLOB, 0, slot.resource_id)),
                Release::Unmapping {
                    ctx_id: slot.ctx_id,
                    resource_id: slot.resource_id,
                    offset: slot.map_offset,
                    len: slot.map_len,
                },
                t,
            )
        } else {
            Self::torn(t, slot.ctx_id, slot.resource_id)
        }
    }

    /// The release of a taken blob goes on. `None` where it has ended.
    pub open spec fn advanced(self, t: TablesState) -> (Option<Seq<u8>>, Release, TablesState) {
        match self {
            Release::Unmapping { ctx_id, resource_id, offset, len } => Self::torn(
                t.after_window_free(offset, len),
                ctx_id,
                resource_id,
            ),
            Release::Detaching { ctx_id, resource_id } => (
                Some(resource_bytes(CMD_RESOURCE_UNREF, 0, resource_id)),
                Release::Unreffing,
                t,
            ),
            _ => (None, Release::Ended, t),
        }
    }
}

fn tear_down(gpu: &mut VirtioGpu, ctx_id: u32, resource_id: u32, at: &mut Release) -> (r: Option<
    Vec<u8>,
>)
    requires
        old(gpu)@.wf(),
    ensures
        ({
            let s = Release::torn(old(gpu)@.tables, ctx_id, resource_id);
            &&& opt_view(r) == s.0
            &&& *final(at) == s.1
            &&& final(gpu)@ == (GpuState { tables: s.2, ..old(gpu)@ })
        }),
        final(gpu)@.wf(),
        final(at).wf(final(gpu)@.tables),
        final(gpu)@.follows(old(gpu)@),
{
    if gpu.take_live_resource(resource_id) {
        *at = Release::Detaching { ctx_id, resource_id };
        Some(ctx_detach_resource(ctx_id, resource_id))
    } else {
        *at = Release::Ended;
        None
    }
}

fn advance_release(gpu: &mut VirtioGpu, at: &mut Release) -> (r: Option<Vec<u8>>)
    requires
        old(gpu)@.wf(),
        old(at).wf(old(gpu)@.tables),
    ensures
        ({
            let s = old(at).advanced(old(gpu)@.tables);
            &&& opt_view(r) == s.0
            &&& *final(at) == s.1
            &&& final(gpu)@ == (GpuState { tables: s.2, ..old(gpu)@ })
        }),
        final(gpu)@.wf(),
        final(at).wf(final(gpu)@.tables),
        final(gpu)@.follows(old(gpu)@),
{
    match *at {
        Release::Unmapping { ctx_id, resource_id, offset, len } => {
            gpu.free_window_range_pub(offset, len);
            tear_down(gpu, ctx_id, resource_id, at)
        },
        Release::Detaching { ctx_id: _, resource_id } => {
            *at = Release::Unreffing;
            Some(resource_unref(resource_id))
        },
        _ => {
            *at = Release::Ended;
            None
        },
    }
}

fn begin_release(
    gpu: &mut VirtioGpu,
    ctx_id: u32,
    resource_id: u32,
    mapped: bool,
    offset: u64,
    len: u64,
    at: &mut Release,
) -> (r: Option<Vec<u8>>)
    requires
        old(gpu)@.wf(),
        mapped ==> old(gpu)@.tables.returnable(offset, len),
    ensures
        forall|slot: BlobSlot|
            #![trigger Release::begun(old(gpu)@.tables, slot)]
            slot.ctx_id == ctx_id && slot.resource_id == resource_id && slot.mapped == mapped
                && slot.map_offset == offset && slot.map_len == len ==> {
                let s = Release::begun(old(gpu)@.tables, slot);
                &&& opt_view(r) == s.0
                &&& *final(at) == s.1
                &&& final(gpu)@ == (GpuState { tables: s.2, ..old(gpu)@ })
            },
        final(gpu)@.wf(),
        final(at).wf(final(gpu)@.tables),
        final(gpu)@.follows(old(gpu)@),
{
    if mapped {
        *at = Release::Unmapping { ctx_id, resource_id, offset, len };
        return Some(resource_unmap_blob(resource_id));
    }
    tear_down(gpu, ctx_id, resource_id, at)
}

pub open spec fn opt_view(r: Option<Vec<u8>>) -> Option<Seq<u8>> {
    match r {
        Some(v) => Some(v@),
        None => None,
    }
}

/// Release one blob of a device: unmap, detach and unreference it. A blob that is
/// not the device's is left alone, and a resource is torn down once.
pub fn release_blob_for_owner(
    gpu: &mut VirtioGpu,
    owner: DeviceOwner,
    ctx_id: u32,
    resource_id: u32,
    at: &mut Release,
    verdict: Result<(), VirtioError>,
) -> (r: FlowStep<()>)
    requires
        old(gpu)@.wf(),
        old(at).wf(old(gpu)@.tables),
    ensures
        ({
            let s = old(at).released(old(gpu)@.tables, owner, ctx_id, resource_id, verdict);
            &&& r@ == s.0
            &&& *final(at) == s.1
            &&& final(gpu)@ == (GpuState { tables: s.2, ..old(gpu)@ })
        }),
        final(gpu)@.wf(),
        final(at).wf(final(gpu)@.tables),
        final(gpu)@.follows(old(gpu)@),
{
    let command = match *at {
        Release::Start => match gpu.take_blob_matching(owner, ctx_id, resource_id) {
            Some((res, mapped, offset, len)) => {
                proof {
                    lemma_first_index_exists(
                        old(gpu)@.tables.blobs,
                        BlobSlot::exact(Some(owner), ctx_id, resource_id),
                    );
                }
                begin_release(gpu, ctx_id, res, mapped, offset, len, at)
            },
            None => {
                *at = Release::Ended;
                None
            },
        },
        Release::Unreffing => {
            *at = Release::Ended;
            return FlowStep::Done(verdict);
        },
        _ => advance_release(gpu, at),
    };
    match command {
        Some(bytes) => FlowStep::Send(bytes),
        None => FlowStep::Done(Ok(())),
    }
}

pub open spec fn released_step(command: Option<Seq<u8>>) -> Next<()> {
    match command {
        Some(bytes) => Next::Send(bytes),
        None => Next::Done(Ok(())),
    }
}

pub open spec fn swept_step(command: Option<Seq<u8>>) -> Next<u32> {
    match command {
        Some(bytes) => Next::Send(bytes),
        None => Next::Again,
    }
}

impl Release {
    /// A release went on within a sweep: one that has ended counts, and the sweep
    /// looks for the next.
    pub open spec fn counted(
        s: (Option<Seq<u8>>, Release, TablesState),
        reclaimed: nat,
    ) -> (Next<u32>, Release, nat, TablesState) {
        if s.0 is Some {
            (swept_step(s.0), s.1, reclaimed, s.2)
        } else {
            (swept_step(s.0), Release::Start, reclaimed + 1, s.2)
        }
    }

    /// One step of the release of every blob of an owner: what is to be done, how far
    /// it is, how many were released, and the tables after it.
    pub open spec fn sweep_step(self, t: TablesState, owner: Option<DeviceOwner>, reclaimed: nat) -> (
        Next<u32>,
        Release,
        nat,
        TablesState,
    ) {
        match self {
            Release::Start => match first_index(t.blobs, BlobSlot::owned_by(owner)) {
                None => (Next::Done(Ok(reclaimed as u32)), Release::Ended, reclaimed, t),
                Some(i) => Self::counted(Self::begun(t.without_blob(i), t.blobs[i]), reclaimed),
            },
            Release::Ended => (Next::Done(Ok(reclaimed as u32)), self, reclaimed, t),
            _ => Self::counted(self.advanced(t), reclaimed),
        }
    }

    /// One step of the release of a device's blob.
    pub open spec fn released(
        self,
        t: TablesState,
        owner: DeviceOwner,
        ctx_id: u32,
        resource_id: u32,
        verdict: Result<(), VirtioError>,
    ) -> (Next<()>, Release, TablesState) {
        match self {
            Release::Start => match first_index(
                t.blobs,
                BlobSlot::exact(Some(owner), ctx_id, resource_id),
            ) {
                None => (Next::Done(Ok(())), Release::Ended, t),
                Some(i) => {
                    let s = Self::begun(t.without_blob(i), t.blobs[i]);
                    (released_step(s.0), s.1, s.2)
                },
            },
            Release::Unreffing => (Next::Done(verdict), Release::Ended, t),
            _ => {
                let s = self.advanced(t);
                (released_step(s.0), s.1, s.2)
            },
        }
    }

    /// A blob was taken out and is not released yet.
    pub open spec fn under_way(self) -> nat {
        match self {
            Release::Start => 0,
            Release::Ended => 0,
            _ => 1,
        }
    }

    /// Steps that the release of a taken blob still needs.
    pub open spec fn rank(self) -> nat {
        match self {
            Release::Unmapping { .. } => 3,
            Release::Detaching { .. } => 2,
            Release::Unreffing => 1,
            _ => 0,
        }
    }
}

/// Release every blob of an owner, whatever the host says. `reclaimed` counts
/// them, and is the result.
pub fn release_blobs_for_owner(
    gpu: &mut VirtioGpu,
    owner: Option<DeviceOwner>,
    at: &mut Release,
    reclaimed: &mut u32,
) -> (r: FlowStep<u32>)
    requires
        old(gpu)@.wf(),
        old(at).wf(old(gpu)@.tables),
        *old(reclaimed) < u32::MAX,
    ensures
        ({
            let s = old(at).sweep_step(old(gpu)@.tables, owner, *old(reclaimed) as nat);
            &&& r@ == s.0
            &&& *final(at) == s.1
            &&& *final(reclaimed) == s.2
            &&& final(gpu)@ == (GpuState { tables: s.3, ..old(gpu)@ })
        }),
        !(r is Done) ==> swept_out(
            *final(at),
            final(gpu)@.tables,
            owner,
            *final(reclaimed) as nat,
        ) == swept_out(*old(at), old(gpu)@.tables, owner, *old(reclaimed) as nat),
        r is Done ==> (*final(reclaimed) as nat, final(gpu)@.tables) == swept_out(
            *old(at),
            old(gpu)@.tables,
            owner,
            *old(reclaimed) as nat,
        ),
        final(gpu)@.wf(),
        final(at).wf(final(gpu)@.tables),
        final(gpu)@.follows(old(gpu)@),
{
    let command = match *at {
        Release::Start => match gpu.take_blob_for_owner(owner) {
            Some((ctx_id, res, mapped, offset, len)) => {
                proof {
                    lemma_first_index_exists(
                        old(gpu)@.tables.blobs,
                        BlobSlot::owned_by(owner),
                    );
                }
                begin_release(gpu, ctx_id, res, mapped, offset, len, at)
            },
            None => {
                *at = Release::Ended;
                return FlowStep::Done(Ok(*reclaimed));
            },
        },
        Release::Ended => {
            return FlowStep::Done(Ok(*reclaimed));
        },
        _ => advance_release(gpu, at),
    };
    match command {
        Some(bytes) => FlowStep::Send(bytes),
        None => {
            *at = Release::Start;
            *reclaimed = *reclaimed + 1;
            FlowStep::Again
        },
    }
}

/// How far the forgetting of an allocation's blob is.
#[derive(Clone, Copy, Debug, PartialEq, Eq, Structural)]
pub enum Forget {
    Start,
    Unmapping { offset: u64, len: u64 },
    Ended,
}

impl Forget {
    pub open spec fn next(self, t: TablesState, resource_id: u32) -> (
        Next<bool>,
        Forget,
        TablesState,
    ) {
        match self {
            Forget::Start => {
                let (found, u) = t.forgotten(resource_id);
                match found {
                    Some((mapped, offset, len)) => if mapped {
                        (
                            Next::Send(resource_bytes(CMD_RESOURCE_UNMAP_BLOB, 0, resource_id)),
                            Forget::Unmapping { offset, len },
                            u,
                        )
                    } else {
                        (Next::Done(Ok(false)), Forget::Ended, u)
                    },
                    None => (Next::Done(Ok(false)), Forget::Ended, u),
                }
            },
            Forget::Unmapping { offset, len } => (
                Next::Done(Ok(true)),
                Forget::Ended,
                t.after_window_free(offset, len),
            ),
            Forget::Ended => (Next::Done(Ok(false)), Forget::Ended, t),
        }
    }

    /// The range that is about to be returned may be.
    pub open spec fn wf(self, t: TablesState) -> bool {
        self matches Forget::Unmapping { offset, len } ==> t.returnable(offset, len)
    }
}

/// Stop tracking the driver's blob of an allocation, and undo its mapping. The
/// result tells whether there was one, so that no one else undoes it.
pub fn forget_allocation_blob(gpu: &mut VirtioGpu, resource_id: u32, at: &mut Forget) -> (r: FlowStep<
    bool,
>)
    requires
        old(gpu)@.wf(),
        old(at).wf(old(gpu)@.tables),
    ensures
        ({
            let s = old(at).next(old(gpu)@.tables, resource_id);
            &&& r@ == s.0
            &&& *final(at) == s.1
            &&& final(gpu)@ == (GpuState { tables: s.2, ..old(gpu)@ })
        }),
        final(gpu)@.wf(),
        final(at).wf(final(gpu)@.tables),
        final(gpu)@.follows(old(gpu)@),
{
    match *at {
        Forget::Start => {
            proof {
                lemma_first_index_exists(
                    gpu@.tables.blobs,
                    BlobSlot::driver_owned(resource_id),
                );
            }
            match gpu.forget_allocation_blob(resource_id) {
                Some((mapped, offset, len)) => {
                    if mapped {
                        *at = Forget::Unmapping { offset, len };
                        FlowStep::Send(resource_unmap_blob(resource_id))
                    } else {
                        *at = Forget::Ended;
                        FlowStep::Done(Ok(false))
                    }
                },
                None => {
                    *at = Forget::Ended;
                    FlowStep::Done(Ok(false))
                },
            }
        },
        Forget::Unmapping { offset, len } => {
            gpu.free_window_range_pub(offset, len);
            *at = Forget::Ended;
            FlowStep::Done(Ok(true))
        },
        Forget::Ended => FlowStep::Done(Ok(false)),
    }
}

/// A creation that the host refuses leaves the tables as they were, but for the
/// id it used up; so does one whose resource could not be attached.
pub proof fn law_failed_alloc_leaves_no_trace(
    t: TablesState,
    owner: Option<DeviceOwner>,
    ctx_id: u32,
    blob: BlobSpec,
    v: Result<(), VirtioError>,
    e: VirtioError,
)
    requires
        blob.size != 0,
        t.blob_room(),
        t.resource_room(),
    ensures
        ({
            let (_, at1, t1) = CreateBlob::Start.next_tracked(t, owner, ctx_id, blob, v);
            let after = TablesState { next_resource_id: t.next_resource_id.wrapping_add(1), ..t };
            let refused = at1.next_tracked(t1, owner, ctx_id, blob, Err(e));
            let (_, at2, t2) = at1.next_tracked(t1, owner, ctx_id, blob, Ok(()));
            let (_, at3, t3) = at2.next_tracked(t2, owner, ctx_id, blob, Err(e));
            let dropped = at3.next_tracked(t3, owner, ctx_id, blob, v);
            &&& refused.0 == Next::<u32>::Done(Err(e))
            &&& refused.2 == after
            &&& dropped.0 == Next::<u32>::Done(Err(e))
            &&& dropped.2 == after
        }),
{
}

/// A creation that succeeds leaves a live resource and a blob of its owner, and no
/// reservation.
pub proof fn law_successful_alloc_is_tracked(
    t: TablesState,
    owner: Option<DeviceOwner>,
    ctx_id: u32,
    blob: BlobSpec,
    v: Result<(), VirtioError>,
)
    requires
        blob.size != 0,
        t.blob_room(),
        t.resource_room(),
    ensures
        ({
            let id = t.next_resource_id;
            let (_, at1, t1) = CreateBlob::Start.next_tracked(t, owner, ctx_id, blob, v);
            let (_, at2, t2) = at1.next_tracked(t1, owner, ctx_id, blob, Ok(()));
            let (step, _, t3) = at2.next_tracked(t2, owner, ctx_id, blob, Ok(()));
            &&& step == Next::<u32>::Done(Ok(id))
            &&& t3.resources == t.resources.push(id)
            &&& t3.blobs == t.blobs.push(BlobSlot::fresh(owner, ctx_id, id, blob.size))
            &&& t3.resources_reserved == t.resources_reserved
            &&& t3.blobs_reserved == t.blobs_reserved
        }),
{
}

/// No step of a creation leaves more objects and reservations than the tables
/// hold, as long as it holds the reservations that it made.
pub proof fn law_alloc_keeps_capacity(
    at: CreateBlob,
    t: TablesState,
    owner: Option<DeviceOwner>,
    ctx_id: u32,
    blob: BlobSpec,
    v: Result<(), VirtioError>,
)
    requires
        t.within_capacity(),
        at != CreateBlob::Start && at != CreateBlob::Ended ==> t.resources_reserved > 0
            && t.blobs_reserved > 0,
    ensures
        at.next_tracked(t, owner, ctx_id, blob, v).2.within_capacity(),
{
}

/// Mapping a mapped blob again gives the same mapping, sends nothing and leaves the
/// tables as they are: `t` is the tables when the host granted the mapping, and
/// `later` any later tables in which the blob is still as it was mapped.
pub proof fn law_mapping_is_idempotent(
    t: TablesState,
    owner: OwnerFilter,
    resource_id: u32,
    offset: u64,
    len: u64,
    cache: u32,
    later: TablesState,
    busy: Budget,
    v: Result<u32, VirtioError>,
)
    requires
        t.wf(),
        t.host_visible is Some,
        (MapBlob::Mapping { offset, len }).wf(t, resource_id),
        first_index(t.blobs, BlobSlot::awaiting(resource_id, offset)) matches Some(i)
            && owner.admits(t.blobs[i].owner) && later.blobs.contains(
            t.map_finished(resource_id, offset, len, Some(cache)).1.blobs[i],
        ),
        later.wf(),
        later.host_visible == t.host_visible,
    ensures
        ({
            let done = (MapBlob::Mapping { offset, len }).next(
                t,
                owner,
                resource_id,
                Ok(cache),
            ).0;
            let (again, _, w) = (MapBlob::Begin { busy }).next(later, owner, resource_id, v);
            &&& done is Done
            &&& done == again
            &&& w == later
        }),
{
    let p = BlobSlot::awaiting(resource_id, offset);
    lemma_first_index_exists(t.blobs, p);
    let i = first_index(t.blobs, p)->0;
    let slot = t.map_finished(resource_id, offset, len, Some(cache)).1.blobs[i];
    let k = choose|k: int| 0 <= k < later.blobs.len() && later.blobs[k] == slot;
    let q = BlobSlot::admitted(owner, resource_id);
    assert forall|j: int| 0 <= j < k implies !q(#[trigger] later.blobs[j]) by {
        assert(later.blobs[j].resource_id != later.blobs[k].resource_id);
    }
    lemma_first_index(later.blobs, q, k);
}

/// Whoever is handed a mapping, new or old, at an offset of the window's choice or
/// of the caller's, is told the blob's size in whole pages.
pub proof fn law_mapping_covers_the_blob(
    t: TablesState,
    owner: OwnerFilter,
    resource_id: u32,
    offset: u64,
    len: u64,
    cache: u32,
    i: int,
)
    requires
        t.wf(),
        0 <= i < t.blobs.len(),
        t.blobs[i].resource_id == resource_id,
    ensures
        t.map_begun(owner, resource_id).0 matches BlobMapBegin::Mapped(prep) ==> prep.size
            == page_ceiling(t.blobs[i].size),
        t.remap_begun(resource_id, offset).0 matches BlobRemapBegin::Mapped(prep) ==> prep.size
            == page_ceiling(t.blobs[i].size),
        t.holds(resource_id, offset, len) ==> (t.map_finished(
            resource_id,
            offset,
            len,
            Some(cache),
        ).0 matches BlobMapFinish::Done(prep) ==> prep.size == page_ceiling(t.blobs[i].size)),
{
    lemma_first_index_exists(t.blobs, BlobSlot::admitted(owner, resource_id));
    lemma_first_index_exists(t.blobs, BlobSlot::named(resource_id));
    lemma_first_index_exists(t.blobs, BlobSlot::awaiting(resource_id, offset));
    assert forall|k: int|
        0 <= k < t.blobs.len() && (#[trigger] t.blobs[k]).resource_id == resource_id implies k
        == i by {
        if k < i {
            assert(t.blobs[k].resource_id != t.blobs[i].resource_id);
        } else if i < k {
            assert(t.blobs[i].resource_id != t.blobs[k].resource_id);
        }
    }
    assert(t.blobs[i].wf());
}

/// A mapping that the host refuses gives its range back: the window after it is
/// the window after a plain allocation and return.
pub proof fn law_refused_mapping_returns_its_range(
    t: TablesState,
    owner: OwnerFilter,
    resource_id: u32,
    busy: Budget,
    v: Result<u32, VirtioError>,
    e: VirtioError,
)
    requires
        (MapBlob::Begin { busy }).next(t, owner, resource_id, v).1 is Mapping,
    ensures
        ({
            let (_, at, u) = (MapBlob::Begin { busy }).next(t, owner, resource_id, v);
            let (offset, len) = (at->Mapping_offset, at->Mapping_len);
            let (step, _, w) = at.next(u, owner, resource_id, Err(e));
            &&& step == Next::<BlobMapPrep>::Done(Err(e))
            &&& w.window == u.window.after_free(offset, len)
            &&& t.window.after_alloc(len) == Some((offset, u.window))
        }),
{
}

impl TablesState {
    /// The mappings of `ids` were undone, in order.
    pub open spec fn evicted(self, ids: Seq<u32>) -> TablesState
        decreases ids.len(),
    {
        if ids.len() == 0 {
            self
        } else {
            self.evicted(ids.drop_last()).unmapped(ids.last())
        }
    }
}

/// A blob that is not listed keeps its slot, and a listed one is not mapped.
proof fn lemma_evicted(t: TablesState, ids: Seq<u32>)
    requires
        t.ids_distinct(),
    ensures
        ({
            let u = t.evicted(ids);
            &&& u.window == t.window
            &&& u.blobs.len() == t.blobs.len()
            &&& forall|i: int|
                0 <= i < t.blobs.len() ==> {
                    &&& (#[trigger] u.blobs[i]).resource_id == t.blobs[i].resource_id
                    &&& ids.contains(t.blobs[i].resource_id) ==> !u.blobs[i].mapped
                    &&& !ids.contains(t.blobs[i].resource_id) ==> u.blobs[i] == t.blobs[i]
                }
        }),
    decreases ids.len(),
{
    if ids.len() > 0 {
        let front = ids.drop_last();
        let id = ids.last();
        lemma_evicted(t, front);
        let s = t.evicted(front);
        let u = t.evicted(ids);
        lemma_first_index_exists(s.blobs, BlobSlot::mapped_as(id));
        assert(ids =~= front.push(id));
        assert forall|x: u32| #[trigger] ids.contains(x) <==> front.contains(x) || x == id by {
            if front.contains(x) {
                let k = choose|k: int| 0 <= k < front.len() && front[k] == x;
                assert(ids[k] == x);
            }
            assert(ids[ids.len() - 1] == id);
        }
        assert forall|i: int| 0 <= i < t.blobs.len() implies {
            &&& (#[trigger] u.blobs[i]).resource_id == t.blobs[i].resource_id
            &&& ids.contains(t.blobs[i].resource_id) ==> !u.blobs[i].mapped
            &&& !ids.contains(t.blobs[i].resource_id) ==> u.blobs[i] == t.blobs[i]
        } by {
            assert(s.blobs[i].resource_id == t.blobs[i].resource_id);
            if let Some(k) = first_index(s.blobs, BlobSlot::mapped_as(id)) {
                assert(s.blobs[k].resource_id == t.blobs[k].resource_id);
                if i != k && t.blobs[i].resource_id == id {
                    assert(t.blobs[i].resource_id != t.blobs[k].resource_id);
                }
            } else {
                assert(!BlobSlot::mapped_as(id)(s.blobs[i]));
            }
        }
    }
}

/// Once the mappings in the way of a placement are undone, none is left: two blobs
/// never show through one part of the window.
pub proof fn law_eviction_clears_the_range(t: TablesState, offset: u64, len: u64, keep: u32)
    requires
        t.wf(),
    ensures
        t.evicted(t.in_the_way(offset, len, keep)).in_the_way(offset, len, keep).len() == 0,
{
    let p = BlobSlot::in_the_way(offset, len, keep, t.window.reserve);
    let ids = t.in_the_way(offset, len, keep);
    let u = t.evicted(ids);
    lemma_evicted(t, ids);
    assert forall|i: int| 0 <= i < u.blobs.len() implies !p(#[trigger] u.blobs[i]) by {
        if p(u.blobs[i]) {
            t.blobs.lemma_filter_contains(p, i);
            let hits = t.blobs.filter(p);
            let k = choose|k: int| 0 <= k < hits.len() && hits[k] == t.blobs[i];
            assert(ids[k] == t.blobs[i].resource_id);
        }
    }
    assert(u.blobs.all(|s: BlobSlot| !p(s)));
    u.blobs.lemma_all_neg_filter_empty(p);
}

/// No step of a sweep loses or doubles a blob: what the owner still has, what is on
/// its way and what was released add up to the same number before and after it. The
/// blobs of others and all contexts stay as they are.
pub proof fn law_sweep_step_accounts_for_every_blob(
    at: Release,
    t: TablesState,
    owner: Option<DeviceOwner>,
    reclaimed: nat,
)
    ensures
        ({
            let (step, next, n, u) = at.sweep_step(t, owner, reclaimed);
            let p = BlobSlot::owned_by(owner);
            &&& n + next.under_way() + tally(u.blobs, p) == reclaimed + at.under_way() + tally(
                t.blobs,
                p,
            )
            &&& forall|x: BlobSlot|
                x.owner != owner ==> #[trigger] tally(u.blobs, BlobSlot::same_as(x)) == tally(
                    t.blobs,
                    BlobSlot::same_as(x),
                )
            &&& u.contexts == t.contexts
            &&& step is Done ==> next == Release::Ended && n == reclaimed && u == t && (at
                != Release::Ended ==> !some(t.blobs, p))
            &&& !(step is Done) ==> tally(u.blobs, p) < tally(t.blobs, p) || (tally(u.blobs, p)
                == tally(t.blobs, p) && next.rank() < at.rank())
            &&& !(step is Done) ==> next != Release::Ended
        }),
{
    let p = BlobSlot::owned_by(owner);
    lemma_first_index_exists(t.blobs, p);
    if at == Release::Start {
        if let Some(i) = first_index(t.blobs, p) {
            assert(p(t.blobs[i]));
            lemma_tally_swap_removed(t.blobs, i, p);
            assert forall|x: BlobSlot| x.owner != owner implies #[trigger] tally(
                swap_removed(t.blobs, i),
                BlobSlot::same_as(x),
            ) == tally(t.blobs, BlobSlot::same_as(x)) by {
                lemma_tally_swap_removed(t.blobs, i, BlobSlot::same_as(x));
            }
        }
    }
}

/// The sweep of an owner's blobs from here to its end: how many were released, and
/// the tables after it.
pub open spec fn swept_out(at: Release, t: TablesState, owner: Option<DeviceOwner>, reclaimed: nat) -> (
    nat,
    TablesState,
)
    decreases tally(t.blobs, BlobSlot::owned_by(owner)), at.rank(),
    via swept_out_ends
{
    let (step, next, n, u) = at.sweep_step(t, owner, reclaimed);
    if step is Done {
        (n, u)
    } else {
        swept_out(next, u, owner, n)
    }
}

#[via_fn]
proof fn swept_out_ends(at: Release, t: TablesState, owner: Option<DeviceOwner>, reclaimed: nat) {
    law_sweep_step_accounts_for_every_blob(at, t, owner, reclaimed);
}

/// A sweep that runs to its end has released every blob of its owner and counted
/// each, and has left the blobs of others and all contexts as they were.
pub proof fn law_sweep_releases_every_blob(t: TablesState, owner: Option<DeviceOwner>)
    ensures
        ({
            let (n, u) = swept_out(Release::Start, t, owner, 0);
            &&& n == tally(t.blobs, BlobSlot::owned_by(owner))
            &&& !some(u.blobs, BlobSlot::owned_by(owner))
            &&& forall|x: BlobSlot|
                x.owner != owner ==> #[trigger] tally(u.blobs, BlobSlot::same_as(x)) == tally(
                    t.blobs,
                    BlobSlot::same_as(x),
                )
            &&& u.contexts == t.contexts
        }),
{
    lemma_swept_out(Release::Start, t, owner, 0);
}

proof fn lemma_swept_out(at: Release, t: TablesState, owner: Option<DeviceOwner>, reclaimed: nat)
    requires
        at != Release::Ended,
    ensures
        ({
            let (n, u) = swept_out(at, t, owner, reclaimed);
            &&& n == reclaimed + at.under_way() + tally(t.blobs, BlobSlot::owned_by(owner))
            &&& !some(u.blobs, BlobSlot::owned_by(owner))
            &&& forall|x: BlobSlot|
                x.owner != owner ==> #[trigger] tally(u.blobs, BlobSlot::same_as(x)) == tally(
                    t.blobs,
                    BlobSlot::same_as(x),
                )
            &&& u.contexts == t.contexts
        }),
    decreases tally(t.blobs, BlobSlot::owned_by(owner)), at.rank(),
{
    law_sweep_step_accounts_for_every_blob(at, t, owner, reclaimed);
    let (step, next, n, u) = at.sweep_step(t, owner, reclaimed);
    if step is Done {
        assert(at == Release::Start);
        lemma_tally_none(t.blobs, BlobSlot::owned_by(owner));
    } else {
        lemma_swept_out(next, u, owner, n);
        assert forall|x: BlobSlot| x.owner != owner implies #[trigger] tally(
            swept_out(at, t, owner, reclaimed).1.blobs,
            BlobSlot::same_as(x),
        ) == tally(t.blobs, BlobSlot::same_as(x)) by {
            assert(tally(u.blobs, BlobSlot::same_as(x)) == tally(t.blobs, BlobSlot::same_as(x)));
        }
    }
}

impl TablesState {
    /// Every context of an owner was destroyed, one after the other: how many, and
    /// the tables after it.
    pub open spec fn contexts_destroyed(self, owner: Option<DeviceOwner>, destroyed: nat) -> (
        nat,
        TablesState,
    )
        decreases self.contexts.len(),
    {
        match first_index(self.contexts, ContextSlot::owned_by(owner)) {
            Some(i) => if 0 <= i < self.contexts.len() {
                self.without_context(i).contexts_destroyed(owner, destroyed + 1)
            } else {
                (destroyed, self)
            },
            None => (destroyed, self),
        }
    }
}

/// The destruction of an owner's contexts that runs to its end leaves none, counts
/// each, and leaves the contexts of others and all blobs as they were.
pub proof fn law_every_context_is_destroyed(
    t: TablesState,
    owner: Option<DeviceOwner>,
    destroyed: nat,
)
    ensures
        ({
            let (n, u) = t.contexts_destroyed(owner, destroyed);
            &&& n == destroyed + tally(t.contexts, ContextSlot::owned_by(owner))
            &&& !some(u.contexts, ContextSlot::owned_by(owner))
            &&& forall|x: ContextSlot|
                x.owner != owner ==> #[trigger] tally(u.contexts, ContextSlot::same_as(x)) == tally(
                    t.contexts,
                    ContextSlot::same_as(x),
                )
            &&& u == (TablesState { contexts: u.contexts, ..t })
        }),
    decreases t.contexts.len(),
{
    let p = ContextSlot::owned_by(owner);
    lemma_first_index_exists(t.contexts, p);
    match first_index(t.contexts, p) {
        Some(i) => {
            assert(p(t.contexts[i]));
            let v = t.without_context(i);
            law_every_context_is_destroyed(v, owner, destroyed + 1);
            lemma_tally_swap_removed(t.contexts, i, p);
            assert forall|x: ContextSlot| x.owner != owner implies #[trigger] tally(
                t.contexts_destroyed(owner, destroyed).1.contexts,
                ContextSlot::same_as(x),
            ) == tally(t.contexts, ContextSlot::same_as(x)) by {
                lemma_tally_swap_removed(t.contexts, i, ContextSlot::same_as(x));
            }
        },
        None => {
            lemma_tally_none(t.contexts, p);
        },
    }
}

} // verus!
