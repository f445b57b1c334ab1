//! Commands on the control queue and the actions that their ends ask for.
use crate::hal::{DmaBuffer, DmaSpan};
use crate::scanout::{CompletedBind, ScanoutBindRequest};
use crate::seqs::{any, some};
use vstd::prelude::*;

verus! {

/// The ring on which a completion means that the GPU is done.
pub const SCANOUT_RING_IDX: u32 = 1;

/// Most response bytes that a synchronous command may expect.
pub const SYNC_RESP_MAX: usize = 64;

/// Something for the caller to do, in the order in which it was decided. Cells,
/// gates, events and blocks are the caller's own and named by its handles.
#[derive(Clone, Copy, Debug, PartialEq, Eq, Structural)]
pub enum Action {
    /// Copy `copy` response bytes into a waiter's block, mark it done, wake it.
    CompleteBlock { block: u64, copy: usize },
    /// The transport has failed: mark a waiter's block failed, with no response in
    /// it, and wake it.
    FailBlock { block: u64 },
    /// Signal a registered event and drop the reference to it.
    SignalAndRelease { event: u64 },
    /// Drop the reference to an event without signalling it.
    Release { event: u64 },
    /// Wake whoever waits on an event.
    Wake { event: u64 },
    /// Store a value.
    Store { cell: u64, value: u64 },
    /// Add one.
    Increment { cell: u64 },
    /// Lower a programming gate, if it is still the one of `ticket`.
    LowerGate { gate: u64, ticket: u64 },
    /// End the leases of every presentation up to an epoch: the host has read it,
    /// or the read was cancelled.
    EndLeases { adapter: u64, through: u64, host_read: bool },
    /// A reader of a snapshot ended.
    RetireRead { ticket: u64, cancelled: bool },
    /// A copy reached its end: look for completions to deliver.
    RetireWanted { adapter: u64 },
    /// Wake the display worker.
    WakeDisplay { adapter: u64 },
}

impl Action {
    /// The action wakes the waiter with this block because what it waits for is
    /// done.
    pub open spec fn completes(block: u64) -> spec_fn(Action) -> bool {
        |a: Action| a matches Action::CompleteBlock { block: b, .. } && b == block
    }

    /// The action wakes the waiter with this block because the transport has failed.
    pub open spec fn fails(block: u64) -> spec_fn(Action) -> bool {
        |a: Action| a == Action::FailBlock { block }
    }

    /// The action signals this event.
    pub open spec fn signals(event: u64) -> spec_fn(Action) -> bool {
        |a: Action| a == Action::SignalAndRelease { event }
    }

    /// The action is this one.
    pub open spec fn same_as(action: Action) -> spec_fn(Action) -> bool {
        |a: Action| a == action
    }
}

/// The epoch of a read that covers no presentation.
pub const NO_LEASE: u64 = 0;

/// What a flush reads.
#[derive(Clone, Copy, Debug, PartialEq, Eq, Structural)]
pub struct ScanoutFlushToken {
    pub adapter: u64,
    /// The presentation that was shown when the flush was sent.
    pub covers_epoch: u64,
    pub resource_id: u32,
    /// The claim on the resource that the read holds.
    pub ledger_ticket: u64,
}

/// Whom a scan-out copy notifies.
#[derive(Clone, Copy, Debug, PartialEq, Eq, Structural)]
pub struct ScanoutNotify {
    pub pending: u64,
    pub displayed_primary: u64,
    pub programming: u64,
    pub ticket: u64,
    pub primary_address: u64,
    pub event: u64,
}

/// The stream value that a submission retires.
#[derive(Clone, Copy, Debug, PartialEq, Eq, Structural)]
pub struct PresentStreamRetire {
    pub handle: u32,
    pub value: u32,
}

/// The windowed copy that a submission performs.
#[derive(Clone, Copy, Debug, PartialEq, Eq, Structural)]
pub struct WindowedBltRetire {
    pub adapter: u64,
    pub token: u64,
    pub stream_boundary: u64,
}

/// A SET sent with a waiter.
#[derive(Clone, Copy, Debug, PartialEq, Eq, Structural)]
pub struct SyncScanoutBind {
    pub seq: u64,
    pub resource_id: u32,
    /// The presentation it publishes, if it publishes one.
    pub request: Option<ScanoutBindRequest>,
}

/// The cells of a command without a waiter.
#[derive(Clone, Copy, Debug, PartialEq, Eq, Structural)]
pub struct ControlCells {
    /// Cleared at completion.
    pub completion: u64,
    /// Counts failures.
    pub completion_errors: u64,
    pub wake_event: u64,
    /// Where to store which value on success.
    pub success_cell: Option<u64>,
    pub success_value: u32,
    /// Set to 1 on success.
    pub resubmit: Option<u64>,
}

/// What an in-flight command is.
#[derive(Clone, Copy, Debug, PartialEq, Eq, Structural)]
pub enum InFlightKind {
    /// A command with a waiter; `None` once the waiter gave up.
    Sync { waiter: Option<u64>, scanout_bind: Option<SyncScanoutBind> },
    /// A fenced submission.
    AsyncVenus {
        fence_id: u64,
        ring_idx: u8,
        scanout_notify: Option<ScanoutNotify>,
        present_stream: Option<PresentStreamRetire>,
        windowed_blt: Option<WindowedBltRetire>,
    },
    /// A SET without a waiter.
    AsyncScanoutBind { bind: CompletedBind },
    /// Another command without a waiter.
    AsyncControl { cells: ControlCells, scanout_flush: Option<ScanoutFlushToken> },
}

/// Which buffers a command hands to the device.
#[derive(Clone, Copy, Debug, PartialEq, Eq, Structural)]
pub enum Chain {
    /// One request span, then the response.
    Meta1 { in0_len: usize },
    /// Two request spans, then the response.
    Meta2 { in0_len: usize, in1_len: usize },
    /// A header, a stream in its own buffer, then the response.
    MetaPlusVenus { hdr_len: usize, venus_len: usize },
}

/// The spans of a command: those the device reads, and the one it writes.
#[derive(Clone, Copy, Debug, PartialEq, Eq, Structural)]
pub struct ChainSpans {
    pub first: DmaSpan,
    /// Present if `count` is 2.
    pub second: DmaSpan,
    pub count: usize,
    pub resp: DmaSpan,
}

/// One command that the device may still access.
#[derive(Debug)]
pub struct InFlight {
    /// What the queue calls it.
    pub token: u16,
    pub kind: InFlightKind,
    /// Request and response.
    pub meta: DmaBuffer,
    pub chain: Chain,
    pub resp_len: usize,
    /// The stream of a submission.
    pub venus: Option<DmaBuffer>,
}

impl Chain {
    /// Where the response starts: right behind the requests.
    pub open spec fn resp_at(self) -> int {
        match self {
            Chain::Meta1 { in0_len } => in0_len as int,
            Chain::Meta2 { in0_len, in1_len } => in0_len + in1_len,
            Chain::MetaPlusVenus { hdr_len, .. } => hdr_len as int,
        }
    }

    pub open spec fn spans_of(self, meta: DmaBuffer, venus: Option<DmaBuffer>, resp_len: usize) -> Option<
        ChainSpans,
    > {
        match meta.span_of(self.resp_at(), resp_len) {
            None => None,
            Some(resp) => match self {
                Chain::Meta1 { in0_len } => match meta.span_of(0, in0_len) {
                    Some(first) => Some(
                        ChainSpans { first, second: DmaSpan::nothing(), count: 1, resp },
                    ),
                    None => None,
                },
                Chain::Meta2 { in0_len, in1_len } => match (
                    meta.span_of(0, in0_len),
                    meta.span_of(in0_len as int, in1_len),
                ) {
                    (Some(first), Some(second)) => Some(
                        ChainSpans { first, second, count: 2, resp },
                    ),
                    _ => None,
                },
                Chain::MetaPlusVenus { hdr_len, venus_len } => match (
                    meta.span_of(0, hdr_len),
                    venus,
                ) {
                    (Some(first), Some(v)) => match v.span_of(0, venus_len) {
                        Some(second) => Some(ChainSpans { first, second, count: 2, resp }),
                        None => None,
                    },
                    _ => None,
                },
            },
        }
    }

    /// Offset of the response, or `None` where it has no `usize`.
    pub fn resp_offset(self) -> (r: Option<usize>)
        ensures
            match r {
                Some(o) => o == self.resp_at(),
                None => self.resp_at() > usize::MAX,
            },
    {
        match self {
            Chain::Meta1 { in0_len } => Some(in0_len),
            Chain::Meta2 { in0_len, in1_len } => in0_len.checked_add(in1_len),
            Chain::MetaPlusVenus { hdr_len, .. } => Some(hdr_len),
        }
    }

    /// The command's spans, or `None` if one leaves its buffer.
    pub fn spans(self, meta: &DmaBuffer, venus: &Option<DmaBuffer>, resp_len: usize) -> (r: Option<
        ChainSpans,
    >)
        ensures
            r == self.spans_of(*meta, *venus, resp_len),
    {
        let at: usize = match self.resp_offset() {
            Some(o) => o,
            None => return None,
        };
        let resp = match meta.span(at, resp_len) {
            Some(s) => s,
            None => return None,
        };
        match self {
            Chain::Meta1 { in0_len } => match meta.span(0, in0_len) {
                Some(first) => Some(ChainSpans { first, second: DmaSpan::empty(), count: 1, resp }),
                None => None,
            },
            Chain::Meta2 { in0_len, in1_len } => {
                match (meta.span(0, in0_len), meta.span(in0_len, in1_len)) {
                    (Some(first), Some(second)) => Some(
                        ChainSpans { first, second, count: 2, resp },
                    ),
                    _ => None,
                }
            },
            Chain::MetaPlusVenus { hdr_len, venus_len } => {
                let first = match meta.span(0, hdr_len) {
                    Some(s) => s,
                    None => return None,
                };
                match venus {
                    Some(v) => match v.span(0, venus_len) {
                        Some(second) => Some(ChainSpans { first, second, count: 2, resp }),
                        None => None,
                    },
                    None => None,
                }
            },
        }
    }
}

/// The device never gets a span outside the command's buffers, and the response
/// follows the requests that share its buffer without overlapping them.
pub proof fn law_chain_spans_are_apart(
    chain: Chain,
    meta: DmaBuffer,
    venus: Option<DmaBuffer>,
    resp_len: usize,
)
    requires
        chain.spans_of(meta, venus, resp_len) is Some,
    ensures
        ({
            let s = chain.spans_of(meta, venus, resp_len)->0;
            &&& s.first.inside(meta)
            &&& s.resp.inside(meta)
            &&& s.first.offset + s.first.len <= s.resp.offset
            &&& chain is Meta2 ==> s.second.inside(meta) && s.first.offset + s.first.len
                <= s.second.offset && s.second.offset + s.second.len <= s.resp.offset
            &&& chain is MetaPlusVenus ==> venus is Some && s.second.inside(venus->0)
        }),
{
}

impl InFlight {
    /// The command's spans can be rebuilt, and its expected response is one that
    /// a waiter's block can hold.
    pub open spec fn wf(self) -> bool {
        &&& self.chain.spans_of(self.meta, self.venus, self.resp_len) is Some
        &&& 0 < self.resp_len <= SYNC_RESP_MAX
        &&& self.meta.wf()
        &&& self.venus matches Some(v) ==> v.wf()
    }

    pub open spec fn tokened(token: u16) -> spec_fn(InFlight) -> bool {
        |e: InFlight| e.token == token
    }

    /// The fence of a submission.
    pub open spec fn fence(self) -> Option<u64> {
        match self.kind {
            InFlightKind::AsyncVenus { fence_id, .. } => Some(fence_id),
            _ => None,
        }
    }

    /// A submission whose fence is below `watermark` and counts in `domain`.
    pub open spec fn fences_below(watermark: u64, domain: RetireDomain) -> spec_fn(InFlight) -> bool {
        |e: InFlight|
            match e.kind {
                InFlightKind::AsyncVenus { fence_id, ring_idx, .. } => fence_id < watermark && (
                domain == RetireDomain::IncludingGpu || ring_idx == 0),
                _ => false,
            }
    }

    pub open spec fn fences(fence_id: u64) -> spec_fn(InFlight) -> bool {
        |e: InFlight|
            match e.kind {
                InFlightKind::AsyncVenus { fence_id: f, .. } => f == fence_id,
                _ => false,
            }
    }

    /// The waiter with this block waits for the command.
    pub open spec fn waited_by(block: u64) -> spec_fn(InFlight) -> bool {
        |e: InFlight|
            match e.kind {
                InFlightKind::Sync { waiter: Some(b), .. } => b == block,
                _ => false,
            }
    }

    /// The command clears this cell when it ends.
    pub open spec fn keeps_busy(cell: u64) -> spec_fn(InFlight) -> bool {
        |e: InFlight|
            match e.kind {
                InFlightKind::AsyncControl { cells, .. } => cells.completion == cell,
                _ => false,
            }
    }

    /// The command counts its failure in this cell.
    pub open spec fn counts_errors_in(cell: u64) -> spec_fn(InFlight) -> bool {
        |e: InFlight|
            match e.kind {
                InFlightKind::AsyncControl { cells, .. } => cells.completion_errors == cell,
                _ => false,
            }
    }

    pub open spec fn binds(request: ScanoutBindRequest) -> spec_fn(InFlight) -> bool {
        |e: InFlight|
            match e.kind {
                InFlightKind::AsyncScanoutBind { bind } => crate::scanout::request_of(bind)
                    == request,
                _ => false,
            }
    }

    /// Recover the buffers of a command that the device is done with.
    pub fn into_dma_buffers(self) -> (r: (DmaBuffer, Option<DmaBuffer>))
        ensures
            r == (self.meta, self.venus),
    {
        (self.meta, self.venus)
    }
}

/// Which completions a wait is about.
#[derive(Clone, Copy, Debug, PartialEq, Eq, Structural)]
pub enum RetireDomain {
    /// Ring 0 only: the host decoded the commands.
    DecodeOnly,
    /// Every ring: the GPU ran them.
    IncludingGpu,
}

/// How a wire watermark is meant.
#[derive(Clone, Copy, Debug, PartialEq, Eq, Structural)]
pub enum WireBoundary {
    /// Every fence strictly below it.
    Prefix,
    /// That one fence.
    Exact,
}

pub open spec fn retired_up_to(inflight: Seq<InFlight>, watermark: u64, domain: RetireDomain) -> bool {
    watermark == 0 || !some(inflight, InFlight::fences_below(watermark, domain))
}

pub open spec fn exact_retired(inflight: Seq<InFlight>, fence_id: u64) -> bool {
    fence_id == 0 || !some(inflight, InFlight::fences(fence_id))
}

pub open spec fn wire_ready(
    inflight: Seq<InFlight>,
    watermark: u64,
    domain: RetireDomain,
    boundary: WireBoundary,
) -> bool {
    match boundary {
        WireBoundary::Prefix => retired_up_to(inflight, watermark, domain),
        WireBoundary::Exact => exact_retired(inflight, watermark),
    }
}

/// Whether every fence below `watermark` that counts in `domain` has retired.
pub fn async_retired_up_to(inflight: &Vec<InFlight>, watermark: u64, domain: RetireDomain) -> (r:
    bool)
    ensures
        r == retired_up_to(inflight@, watermark, domain),
{
    let below = |e: &InFlight| -> (b: bool)
        ensures
            b == InFlight::fences_below(watermark, domain)(*e),
        {
            match e.kind {
                InFlightKind::AsyncVenus { fence_id, ring_idx, .. } => fence_id < watermark && (
                domain == RetireDomain::IncludingGpu || ring_idx == 0),
                _ => false,
            }
        };
    watermark == 0 || !any(inflight, below, Ghost(InFlight::fences_below(watermark, domain)))
}

/// Whether the one fence has retired.
pub fn async_exact_retired(inflight: &Vec<InFlight>, fence_id: u64) -> (r: bool)
    ensures
        r == exact_retired(inflight@, fence_id),
{
    fence_id == 0 || !fence_in_flight(inflight, fence_id)
}

/// Whether a submission with this fence is in flight.
pub fn fence_in_flight(inflight: &Vec<InFlight>, fence_id: u64) -> (r: bool)
    ensures
        r == some(inflight@, InFlight::fences(fence_id)),
{
    let same = |e: &InFlight| -> (b: bool)
        ensures
            b == InFlight::fences(fence_id)(*e),
        {
            match e.kind {
                InFlightKind::AsyncVenus { fence_id: f, .. } => f == fence_id,
                _ => false,
            }
        };
    any(inflight, same, Ghost(InFlight::fences(fence_id)))
}

/// Whether a wire dependency is met.
pub fn wire_boundary_ready(
    inflight: &Vec<InFlight>,
    watermark: u64,
    domain: RetireDomain,
    boundary: WireBoundary,
) -> (r: bool)
    ensures
        r == wire_ready(inflight@, watermark, domain, boundary),
{
    match boundary {
        WireBoundary::Prefix => async_retired_up_to(inflight, watermark, domain),
        WireBoundary::Exact => async_exact_retired(inflight, watermark),
    }
}

/// Waiting for every ring implies waiting for ring 0, a higher watermark implies
/// a lower one, and a prefix above a fence implies that fence.
pub proof fn law_retirement_is_monotone(inflight: Seq<InFlight>, low: u64, high: u64)
    requires
        low <= high,
    ensures
        retired_up_to(inflight, high, RetireDomain::IncludingGpu) ==> retired_up_to(
            inflight,
            high,
            RetireDomain::DecodeOnly,
        ),
        retired_up_to(inflight, high, RetireDomain::IncludingGpu) ==> retired_up_to(
            inflight,
            low,
            RetireDomain::IncludingGpu,
        ),
        low < high && retired_up_to(inflight, high, RetireDomain::IncludingGpu) ==> exact_retired(
            inflight,
            low,
        ),
{
    if retired_up_to(inflight, high, RetireDomain::IncludingGpu) && high != 0 {
        assert forall|i: int| 0 <= i < inflight.len() implies !InFlight::fences_below(
            high,
            RetireDomain::DecodeOnly,
        )(#[trigger] inflight[i]) && !InFlight::fences_below(low, RetireDomain::IncludingGpu)(
            inflight[i],
        ) && (low < high ==> !InFlight::fences(low)(inflight[i])) by {}
    }
}

} // verus!
