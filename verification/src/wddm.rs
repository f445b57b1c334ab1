//! Completions owed to the scheduler.
//!
//! Submissions complete strictly in order. Each waits for a wire boundary, maybe
//! for a value of a present stream, and maybe for the end of windowed copies. A
//! head that waits too long for a stream or a copy is moved to the conservative
//! wire boundary, once.
use crate::counters::WddmCounters;
use crate::gpu::{GpuState, VirtioGpu};
use crate::inflight::{wire_boundary_ready, wire_ready, Action, RetireDomain, WireBoundary};
use crate::present_stream::{decode_present_stream_boundary, stream_of};
use crate::seqs::{any, first_index, position, some};
use crate::windowed_blt::{BltState, WindowedBltPending, WindowedBltTerminalPrefix};
use vstd::prelude::*;

verus! {

/// Most submissions that wait.
pub const MAX_WDDM_PENDING: usize = 256;

/// Longest artificial hold of a completion, in milliseconds.
pub const WDDM_HOLD_MS_MAX: u32 = 250;

/// How long a head may wait for a stream or a copy unless configured otherwise.
pub const WDDM_HEAD_MS_DEFAULT: u32 = 250;

/// Shortest bound on a head's wait: below it, healthy frames would be released.
pub const WDDM_HEAD_MS_MIN: u32 = 100;

/// Longest bound on a head's wait.
pub const WDDM_HEAD_MS_MAX: u32 = 1000;

/// A submission and what it waits for.
#[derive(Clone, Copy, Debug, PartialEq, Eq, Structural)]
pub struct WddmPending {
    pub fence: u32,
    pub watermark: u64,
    /// Everything sent before the submission has a fence below this; 0 for one
    /// that is not ordered against such work.
    pub ordinary_watermark: u64,
    pub wire_boundary: WireBoundary,
    pub domain: RetireDomain,
    pub stream_boundary: Option<u64>,
    pub blt_token: Option<u64>,
    pub blt_stream_boundary: Option<u64>,
    /// Not before this time; 0 is at once.
    pub hold_until_100ns: u64,
    /// When the head's waiting is cut short; 0 until it is armed.
    pub head_deadline_100ns: u64,
    pub rebased: bool,
}

/// What a [`WddmFifo`] holds.
#[verifier::ext_equal]
pub struct WddmState {
    pub pending: Seq<WddmPending>,
    pub hold_ms: u32,
    pub head_ms: u32,
    pub dma_gpu_fence: bool,
    pub present_exact_watermark: bool,
    pub counters: WddmCounters,
}

/// Submissions in the order in which they must complete.
pub struct WddmFifo {
    pub pending: Vec<WddmPending>,
    /// Artificial hold of a completion; 0 is none.
    pub hold_ms: u32,
    /// Bound on a head's wait for a stream or a copy; 0 is none.
    pub head_ms: u32,
    /// A submission waits for the GPU, not only for decoding.
    pub dma_gpu_fence: bool,
    /// A submission behind a stream waits for no wire fence.
    pub present_exact_watermark: bool,
    pub counters: WddmCounters,
}

impl View for WddmFifo {
    type V = WddmState;

    open spec fn view(&self) -> WddmState {
        WddmState {
            pending: self.pending@,
            hold_ms: self.hold_ms,
            head_ms: self.head_ms,
            dma_gpu_fence: self.dma_gpu_fence,
            present_exact_watermark: self.present_exact_watermark,
            counters: self.counters,
        }
    }
}

impl WddmPending {
    /// The identity of the copies is complete or absent, a rebased submission waits
    /// for no stream, and one that waits for a single fence names one.
    pub open spec fn wf(self) -> bool {
        &&& match (self.blt_token, self.blt_stream_boundary) {
            (Some(t), Some(b)) => WindowedBltTerminalPrefix::of(t, b) is Some,
            (None, None) => true,
            _ => false,
        }
        &&& self.rebased ==> self.stream_boundary is None
        &&& self.wire_boundary == WireBoundary::Exact ==> self.watermark > 0
    }

    /// The copies whose ends the submission waits for and then takes.
    pub open spec fn prefix(self) -> Option<WindowedBltTerminalPrefix> {
        match (self.blt_token, self.blt_stream_boundary) {
            (Some(t), Some(b)) => WindowedBltTerminalPrefix::of(t, b),
            _ => None,
        }
    }

    /// The submission without its wait for a stream. If it had left its order on
    /// the wire to the stream, it takes up the ordinary one.
    pub open spec fn unstreamed(self) -> WddmPending {
        WddmPending {
            stream_boundary: None,
            watermark: if self.watermark == 0 {
                self.ordinary_watermark
            } else {
                self.watermark
            },
            ..self
        }
    }

    pub open spec fn owns(token: u64, boundary: u64) -> spec_fn(WddmPending) -> bool {
        |p: WddmPending| p.prefix() matches Some(x) && x.holds(token, boundary)
    }

    pub(crate) fn without_stream(self) -> (r: WddmPending)
        ensures
            r == self.unstreamed(),
    {
        WddmPending {
            stream_boundary: None,
            watermark: if self.watermark == 0 {
                self.ordinary_watermark
            } else {
                self.watermark
            },
            ..self
        }
    }

    pub(crate) fn terminal_prefix(&self) -> (r: Option<WindowedBltTerminalPrefix>)
        ensures
            r == self.prefix(),
    {
        match (self.blt_token, self.blt_stream_boundary) {
            (Some(t), Some(b)) => WindowedBltTerminalPrefix::new(t, b),
            _ => None,
        }
    }
}

impl WddmState {
    /// Nothing is owed; the two durations are within their limits.
    pub open spec fn fresh(
        hold_ms: u32,
        head_ms: u32,
        dma_gpu_fence: bool,
        present_exact_watermark: bool,
    ) -> WddmState {
        WddmState {
            pending: Seq::empty(),
            hold_ms: hold_within(hold_ms),
            head_ms: bound_within(head_ms),
            dma_gpu_fence,
            present_exact_watermark,
            counters: WddmCounters::zero(),
        }
    }

    pub open spec fn wf(self) -> bool {
        forall|i: int| 0 <= i < self.pending.len() ==> (#[trigger] self.pending[i]).wf()
    }
}

/// A hold within its limit.
pub open spec fn hold_within(ms: u32) -> u32 {
    if ms <= WDDM_HOLD_MS_MAX {
        ms
    } else {
        WDDM_HOLD_MS_MAX
    }
}

/// A bound on a head's wait: none, or within its limits.
pub open spec fn bound_within(ms: u32) -> u32 {
    if ms == 0 {
        0
    } else if ms < WDDM_HEAD_MS_MIN {
        WDDM_HEAD_MS_MIN
    } else if ms > WDDM_HEAD_MS_MAX {
        WDDM_HEAD_MS_MAX
    } else {
        ms
    }
}

/// The configured hold, within its limit.
pub fn clamp_hold_ms(ms: u32) -> (r: u32)
    ensures
        r == hold_within(ms),
{
    if ms <= WDDM_HOLD_MS_MAX {
        ms
    } else {
        WDDM_HOLD_MS_MAX
    }
}

/// The configured bound on a head's wait: none, or within its limits.
pub fn clamp_bound_ms(ms: u32) -> (r: u32)
    ensures
        r == bound_within(ms),
{
    if ms == 0 {
        0
    } else if ms < WDDM_HEAD_MS_MIN {
        WDDM_HEAD_MS_MIN
    } else if ms > WDDM_HEAD_MS_MAX {
        WDDM_HEAD_MS_MAX
    } else {
        ms
    }
}

impl WddmFifo {
    /// An empty FIFO; the two durations are brought within their limits.
    pub fn new(hold_ms: u32, head_ms: u32, dma_gpu_fence: bool, present_exact_watermark: bool) -> (r:
        Self)
        ensures
            r@ == WddmState::fresh(hold_ms, head_ms, dma_gpu_fence, present_exact_watermark),
            r@.wf(),
    {
        WddmFifo {
            pending: Vec::with_capacity(MAX_WDDM_PENDING),
            hold_ms: clamp_hold_ms(hold_ms),
            head_ms: clamp_bound_ms(head_ms),
            dma_gpu_fence,
            present_exact_watermark,
            counters: WddmCounters::new(),
        }
    }
}

/// Why a named wire fence was not used.
#[derive(Clone, Copy, Debug, PartialEq, Eq, Structural)]
pub enum Rejection {
    Accepted,
    /// Zero, or not issued yet.
    OutOfRange,
    /// Issued by an earlier instance of the transport.
    ForeignGeneration,
}

/// The wire boundary that a named fence stands for.
#[derive(Clone, Copy, Debug, PartialEq, Eq, Structural)]
pub struct Selection {
    pub watermark: u64,
    pub boundary: WireBoundary,
    pub rejection: Rejection,
}

pub open spec fn selection_of(fence_id: u64, base: u64, next: u64, exact: bool) -> Selection {
    if fence_id == 0 || fence_id >= next {
        Selection {
            watermark: next,
            boundary: WireBoundary::Prefix,
            rejection: Rejection::OutOfRange,
        }
    } else if fence_id < base {
        Selection {
            watermark: next,
            boundary: WireBoundary::Prefix,
            rejection: Rejection::ForeignGeneration,
        }
    } else if exact {
        Selection {
            watermark: fence_id,
            boundary: WireBoundary::Exact,
            rejection: Rejection::Accepted,
        }
    } else {
        Selection {
            watermark: fence_id.saturating_add(1),
            boundary: WireBoundary::Prefix,
            rejection: Rejection::Accepted,
        }
    }
}

/// The wire boundary for a submission that names `fence_id`. Only a fence in
/// `base..next` was issued by this instance; any other waits for everything
/// enqueued so far.
pub fn select_boundary(fence_id: u64, base: u64, next: u64, exact: bool) -> (r: Selection)
    ensures
        r == selection_of(fence_id, base, next, exact),
{
    if fence_id == 0 || fence_id >= next {
        Selection {
            watermark: next,
            boundary: WireBoundary::Prefix,
            rejection: Rejection::OutOfRange,
        }
    } else if fence_id < base {
        Selection {
            watermark: next,
            boundary: WireBoundary::Prefix,
            rejection: Rejection::ForeignGeneration,
        }
    } else if exact {
        Selection {
            watermark: fence_id,
            boundary: WireBoundary::Exact,
            rejection: Rejection::Accepted,
        }
    } else {
        Selection {
            watermark: fence_id.saturating_add(1),
            boundary: WireBoundary::Prefix,
            rejection: Rejection::Accepted,
        }
    }
}

/// What a look at a blocked head leads to.
#[derive(Clone, Copy, Debug, PartialEq, Eq, Structural)]
pub enum HeadLook {
    Disabled,
    AlreadyRebased,
    /// The first blocked look: wait until this time.
    Arm(u64),
    Wait,
    Rebase,
}

pub open spec fn head_look(ms: u32, now: u64, deadline: u64, rebased: bool) -> HeadLook {
    if ms == 0 {
        HeadLook::Disabled
    } else if rebased {
        HeadLook::AlreadyRebased
    } else if deadline == 0 {
        HeadLook::Arm(now.saturating_add((ms * 10000) as u64))
    } else if now < deadline {
        HeadLook::Wait
    } else {
        HeadLook::Rebase
    }
}

/// Look at a head that is blocked at time `now` (in units of 100 ns).
pub fn look_at_head(ms: u32, now: u64, deadline: u64, rebased: bool) -> (r: HeadLook)
    ensures
        r == head_look(ms, now, deadline, rebased),
{
    if ms == 0 {
        HeadLook::Disabled
    } else if rebased {
        HeadLook::AlreadyRebased
    } else if deadline == 0 {
        HeadLook::Arm(now.saturating_add(ms as u64 * 10000))
    } else if now < deadline {
        HeadLook::Wait
    } else {
        HeadLook::Rebase
    }
}

/// A submission that was taken and whose completion is not delivered yet. It is
/// in no queue, so it must be delivered or put back.
#[derive(Debug)]
#[must_use]
pub struct WddmReady {
    pending: WddmPending,
}

impl WddmReady {
    pub closed spec fn spec_pending(self) -> WddmPending {
        self.pending
    }

    /// The submission's fence.
    pub fn fence(&self) -> (r: u32)
        ensures
            r == self.spec_pending().fence,
    {
        self.pending.fence
    }

    /// The copies whose ends the delivery takes.
    pub fn terminal_prefix(&self) -> (r: Option<WindowedBltTerminalPrefix>)
        ensures
            r == self.spec_pending().prefix(),
    {
        self.pending.terminal_prefix()
    }

    /// The completion was delivered. Returns the fence, which is now retired.
    pub fn delivered(self) -> (r: u32)
        ensures
            r == self.spec_pending().fence,
    {
        self.pending.fence
    }
}

/// What an attempt to take the head came to.
#[derive(Debug)]
#[must_use]
pub enum WddmTake {
    Empty,
    /// The head still waits.
    BlockedOnProducer,
    /// Deliver this completion.
    Ready(WddmReady),
}

/// What an attempt to take the head came to, as a value.
pub enum Taken {
    Empty,
    Blocked,
    Ready(WddmPending),
}

impl View for WddmTake {
    type V = Taken;

    open spec fn view(&self) -> Taken {
        match *self {
            WddmTake::Empty => Taken::Empty,
            WddmTake::BlockedOnProducer => Taken::Blocked,
            WddmTake::Ready(r) => Taken::Ready(r.spec_pending()),
        }
    }
}

/// What holds a submission back; the first of these in this order.
#[derive(Clone, Copy, Debug, PartialEq, Eq, Structural)]
pub enum HeadBlock {
    Wire,
    Stream,
    Blt,
    Hold,
    Nothing,
}

/// Every submission's copies are abandoned, in order.
pub open spec fn prefixes_abandoned(blt: BltState, pending: Seq<WddmPending>) -> (
    BltState,
    Seq<Action>,
)
    decreases pending.len(),
{
    if pending.len() == 0 {
        (blt, Seq::empty())
    } else {
        let (t, a) = match pending[0].prefix() {
            Some(p) => blt.abandoned(p),
            None => (blt, Seq::empty()),
        };
        let (u, b) = prefixes_abandoned(t, pending.remove(0));
        (u, a + b)
    }
}

/// A copy's identity is a token together with a stream boundary, or nothing.
pub open spec fn blt_identity(token: Option<u64>, boundary: Option<u64>) -> Option<(u64, u64)> {
    match (token, boundary) {
        (Some(t), Some(b)) => if t != 0 && stream_of(b) is Some {
            Some((t, b))
        } else {
            None
        },
        _ => None,
    }
}

impl GpuState {
    /// The stream that a submission waits for; a dead one is no dependency.
    pub open spec fn live_stream(self, boundary: Option<u64>) -> Option<u64> {
        match boundary {
            Some(b) => if self.streams.boundary_live(b) {
                boundary
            } else {
                None
            },
            None => None,
        }
    }

    /// A copy's end can be waited for: it is to come or is there, and no other
    /// submission waits for it.
    pub open spec fn blt_attachable(self, token: u64, boundary: u64) -> bool {
        (some(self.blt.pending, WindowedBltPending::named(token, boundary)) || self.blt.has_end(
            token,
            boundary,
        )) && !some(self.wddm.pending, WddmPending::owns(token, boundary))
    }

    pub open spec fn blt_sent(self, token: u64, boundary: u64) -> bool {
        match first_index(self.blt.pending, WindowedBltPending::named(token, boundary)) {
            Some(i) => self.blt.pending[i].dispatched,
            None => false,
        }
    }

    /// The copies that a submission waits for, after those were abandoned whose
    /// stream died before the submission.
    pub open spec fn blt_attached(self, id: Option<(u64, u64)>, live: bool) -> (
        Option<(u64, u64)>,
        BltState,
        Seq<Action>,
    ) {
        match id {
            None => (None, self.blt, Seq::empty()),
            Some((token, boundary)) => if !self.blt_attachable(token, boundary) {
                (None, self.blt, Seq::empty())
            } else if live || self.blt_sent(token, boundary) {
                (id, self.blt, Seq::empty())
            } else {
                let (t, a) = self.blt.abandoned(
                    WindowedBltTerminalPrefix { max_token: token, max_boundary: boundary },
                );
                (None, t, a)
            },
        }
    }

    pub open spec fn domain_of(self, paging: bool, gpu_fence: Option<u64>, stream: Option<u64>) -> RetireDomain {
        if stream is Some || gpu_fence is Some {
            RetireDomain::IncludingGpu
        } else if paging || !self.wddm.dma_gpu_fence {
            RetireDomain::DecodeOnly
        } else {
            RetireDomain::IncludingGpu
        }
    }

    /// The wire boundary of a submission, and the counters after choosing it.
    pub open spec fn wire_choice(
        self,
        paging: bool,
        gpu_fence: Option<u64>,
        stream: Option<u64>,
        exact: bool,
    ) -> (u64, WireBoundary, WddmCounters) {
        let c = self.wddm.counters;
        if paging {
            (0, WireBoundary::Prefix, c)
        } else {
            match gpu_fence {
                Some(id) => {
                    let s = selection_of(
                        id,
                        self.fences.wire_fence_base,
                        self.fences.next_wire_fence,
                        exact,
                    );
                    (
                        s.watermark,
                        s.boundary,
                        WddmCounters {
                            fence_clamped: if s.rejection == Rejection::OutOfRange {
                                c.fence_clamped.wrapping_add(1)
                            } else {
                                c.fence_clamped
                            },
                            fence_foreign_generation: if s.rejection
                                == Rejection::ForeignGeneration {
                                c.fence_foreign_generation.wrapping_add(1)
                            } else {
                                c.fence_foreign_generation
                            },
                            d3d12_exact_used: if s.boundary == WireBoundary::Exact {
                                c.d3d12_exact_used.wrapping_add(1)
                            } else {
                                c.d3d12_exact_used
                            },
                            ..c
                        },
                    )
                },
                None => if stream is Some && self.wddm.present_exact_watermark {
                    (
                        0,
                        WireBoundary::Prefix,
                        WddmCounters {
                            present_exact_used: c.present_exact_used.wrapping_add(1),
                            ..c
                        },
                    )
                } else {
                    (self.fences.next_wire_fence, WireBoundary::Prefix, c)
                },
            }
        }
    }

    /// The bound below which everything sent before a submission lies.
    pub open spec fn ordinary_watermark(self, paging: bool) -> u64 {
        if paging {
            0
        } else {
            self.fences.next_wire_fence
        }
    }

    pub open spec fn hold_deadline(self, now: u64) -> u64 {
        if self.wddm.hold_ms == 0 {
            0
        } else {
            now.saturating_add((self.wddm.hold_ms * 10000) as u64)
        }
    }

    pub open spec fn stream_ready(self, stream: Option<u64>) -> bool {
        match stream {
            Some(b) => self.boundary_ready(b),
            None => true,
        }
    }

    /// The copies that a submission waits for have all ended.
    pub open spec fn blt_ready(self, p: WddmPending) -> bool {
        match (p.blt_token, p.blt_stream_boundary) {
            (Some(t), Some(b)) => WindowedBltTerminalPrefix::of(t, b) matches Some(x)
                && self.blt.prefix_ready(x),
            (None, _) => true,
            _ => false,
        }
    }

    pub open spec fn block_of(self, p: WddmPending, now: u64) -> HeadBlock {
        if !wire_ready(self.queue.inflight, p.watermark, p.domain, p.wire_boundary) {
            HeadBlock::Wire
        } else if !self.stream_ready(p.stream_boundary) {
            HeadBlock::Stream
        } else if !self.blt_ready(p) {
            HeadBlock::Blt
        } else if p.hold_until_100ns != 0 && now < p.hold_until_100ns {
            HeadBlock::Hold
        } else {
            HeadBlock::Nothing
        }
    }

    /// The submission as it would wait, with the transport after its copies were
    /// attached and admitted.
    pub open spec fn submission_of(
        self,
        fence: u32,
        paging: bool,
        gpu_fence: Option<u64>,
        stream_boundary: Option<u64>,
        blt_token: Option<u64>,
        d3d12: bool,
        now: u64,
    ) -> (WddmPending, GpuState, Seq<Action>) {
        let stream = self.live_stream(stream_boundary);
        let (id, blt, actions) = self.blt_attached(
            blt_identity(blt_token, stream_boundary),
            stream is Some,
        );
        let g1 = GpuState { blt, ..self };
        let g2 = match (stream, id) {
            (Some(b), Some((t, _))) => GpuState { blt: g1.blt_admitted(b, t), ..g1 },
            _ => g1,
        };
        let (watermark, wire_boundary, counters) = g2.wire_choice(
            paging,
            gpu_fence,
            stream,
            d3d12,
        );
        (
            WddmPending {
                fence,
                watermark,
                ordinary_watermark: g2.ordinary_watermark(paging),
                wire_boundary,
                domain: g2.domain_of(paging, gpu_fence, stream),
                stream_boundary: stream,
                blt_token: match id {
                    Some((t, _)) => Some(t),
                    None => None,
                },
                blt_stream_boundary: match id {
                    Some((_, b)) => Some(b),
                    None => None,
                },
                hold_until_100ns: if d3d12 {
                    g2.hold_deadline(now)
                } else {
                    0
                },
                head_deadline_100ns: 0,
                rebased: false,
            },
            GpuState { wddm: WddmState { counters, ..g2.wddm }, ..g2 },
            actions,
        )
    }

    /// A prepared submission completes at once if nothing waits before it and it
    /// waits for nothing, or if the FIFO is full: the newest fence then stands for
    /// all that were pending. Otherwise it is queued.
    pub open spec fn submission_settled(self, p: WddmPending, now: u64) -> (
        bool,
        GpuState,
        Seq<Action>,
    ) {
        if self.wddm.pending.len() == 0 && p.blt_token is None && p.hold_until_100ns == 0
            && self.block_of(p, now) == HeadBlock::Nothing {
            (true, self, Seq::empty())
        } else if self.wddm.pending.len() >= MAX_WDDM_PENDING {
            let (t, b) = prefixes_abandoned(self.blt, self.wddm.pending.push(p));
            (
                true,
                GpuState {
                    wddm: WddmState {
                        pending: Seq::empty(),
                        counters: WddmCounters {
                            pending_overflows:
                                self.wddm.counters.pending_overflows.wrapping_add(1),
                            ..self.wddm.counters
                        },
                        ..self.wddm
                    },
                    blt: t,
                    ..self
                },
                b,
            )
        } else {
            (
                false,
                GpuState {
                    wddm: WddmState { pending: self.wddm.pending.push(p), ..self.wddm },
                    ..self
                },
                Seq::empty(),
            )
        }
    }

    /// The answer to a submission: whether its completion is to be delivered at
    /// once, the transport after it, and what is to be done.
    pub open spec fn submission_noted(
        self,
        fence: u32,
        paging: bool,
        gpu_fence: Option<u64>,
        stream_boundary: Option<u64>,
        blt_token: Option<u64>,
        d3d12: bool,
        now: u64,
    ) -> (bool, GpuState, Seq<Action>) {
        if self.queue.failed {
            (
                true,
                GpuState {
                    wddm: WddmState {
                        pending: Seq::empty(),
                        counters: WddmCounters {
                            signal_after_failure:
                                self.wddm.counters.signal_after_failure.wrapping_add(1),
                            ..self.wddm.counters
                        },
                        ..self.wddm
                    },
                    blt: BltState { terminal: Seq::empty(), ..self.blt },
                    ..self
                },
                Seq::empty(),
            )
        } else {
            let (p, g, a) = self.submission_of(
                fence,
                paging,
                gpu_fence,
                stream_boundary,
                blt_token,
                d3d12,
                now,
            );
            let (now_due, h, b) = g.submission_settled(p, now);
            (now_due, h, a + b)
        }
    }

    /// A look at the head that only takes it or counts what holds it back.
    pub open spec fn head_settled(self, block: HeadBlock) -> (Taken, GpuState) {
        let c = self.wddm.counters;
        let counters = match block {
            HeadBlock::Wire => WddmCounters {
                head_blocked_wire: c.head_blocked_wire.wrapping_add(1),
                ..c
            },
            HeadBlock::Stream => WddmCounters {
                head_blocked_stream: c.head_blocked_stream.wrapping_add(1),
                ..c
            },
            HeadBlock::Blt => WddmCounters {
                head_blocked_blt: c.head_blocked_blt.wrapping_add(1),
                ..c
            },
            HeadBlock::Hold => WddmCounters {
                head_blocked_hold: c.head_blocked_hold.wrapping_add(1),
                ..c
            },
            HeadBlock::Nothing => WddmCounters {
                fence_from_dpc: c.fence_from_dpc.wrapping_add(1),
                ..c
            },
        };
        if block == HeadBlock::Nothing {
            (
                Taken::Ready(self.wddm.pending[0]),
                GpuState {
                    wddm: WddmState {
                        pending: self.wddm.pending.remove(0),
                        counters,
                        ..self.wddm
                    },
                    ..self
                },
            )
        } else {
            (Taken::Blocked, GpuState { wddm: WddmState { counters, ..self.wddm }, ..self })
        }
    }

    /// A blocked head is armed, waits on, or gives up its stream and its copies
    /// for the wire boundary as it stands. Its fence and its place stay.
    pub open spec fn head_rebased(self, now: u64) -> (bool, GpuState, Seq<Action>) {
        let head = self.wddm.pending[0];
        match head_look(self.wddm.head_ms, now, head.head_deadline_100ns, head.rebased) {
            HeadLook::Arm(deadline) => (
                false,
                GpuState {
                    wddm: WddmState {
                        pending: self.wddm.pending.update(
                            0,
                            WddmPending { head_deadline_100ns: deadline, ..head },
                        ),
                        ..self.wddm
                    },
                    ..self
                },
                Seq::empty(),
            ),
            HeadLook::Rebase => {
                let (blt, a) = match head.prefix() {
                    Some(p) => self.blt.abandoned(p),
                    None => (self.blt, Seq::empty()),
                };
                (
                    true,
                    GpuState {
                        wddm: WddmState {
                            pending: self.wddm.pending.update(
                                0,
                                WddmPending {
                                    rebased: true,
                                    stream_boundary: None,
                                    watermark: self.fences.next_wire_fence,
                                    wire_boundary: WireBoundary::Prefix,
                                    domain: RetireDomain::IncludingGpu,
                                    blt_token: None,
                                    blt_stream_boundary: None,
                                    ..head
                                },
                            ),
                            counters: WddmCounters {
                                head_rebased: self.wddm.counters.head_rebased.wrapping_add(1),
                                ..self.wddm.counters
                            },
                            ..self.wddm
                        },
                        blt,
                        ..self
                    },
                    a,
                )
            },
            _ => (false, self, Seq::empty()),
        }
    }

    /// The head is taken if nothing holds it back; a head that waits for a stream
    /// or a copy may be rebased, and is then looked at once more.
    pub open spec fn head_taken(self, now: u64) -> (Taken, GpuState, Seq<Action>) {
        if self.wddm.pending.len() == 0 {
            (Taken::Empty, self, Seq::empty())
        } else {
            let block = self.block_of(self.wddm.pending[0], now);
            let (taken, g) = self.head_settled(block);
            if block == HeadBlock::Stream || block == HeadBlock::Blt {
                let (rebased, h, a) = g.head_rebased(now);
                if rebased {
                    let (second, last) = h.head_settled(h.block_of(h.wddm.pending[0], now));
                    (second, last, a)
                } else {
                    (taken, h, a)
                }
            } else {
                (taken, g, Seq::empty())
            }
        }
    }

    /// A taken submission is put back to where it came from.
    pub open spec fn requeued(self, p: WddmPending) -> GpuState {
        GpuState {
            wddm: WddmState { pending: self.wddm.pending.insert(0, p), ..self.wddm },
            ..self
        }
    }

    /// The scheduler will submit everything pending anew.
    pub open spec fn scheduler_preempted(self) -> GpuState {
        GpuState {
            wddm: WddmState { pending: Seq::empty(), ..self.wddm },
            blt: self.blt.preempted(),
            ..self
        }
    }

    /// The scheduler gives up everything it submitted.
    pub open spec fn epoch_abandoned(self) -> (GpuState, Seq<Action>) {
        let (t, a) = prefixes_abandoned(self.blt, self.wddm.pending);
        let (u, b) = t.all_cancelled(WindowedBltPending::undispatched());
        (
            GpuState {
                wddm: WddmState { pending: Seq::empty(), ..self.wddm },
                blt: BltState {
                    ready: Seq::empty(),
                    terminal: Seq::empty(),
                    ..u.disowned(WindowedBltPending::everyone())
                },
                ..self
            },
            a + b,
        )
    }
}

impl VirtioGpu {
    fn abandon_prefixes(&mut self, out: &mut Vec<Action>)
        requires
            old(self)@.blt.wf(),
        ensures
            final(self)@ == (GpuState {
                wddm: WddmState { pending: Seq::empty(), ..old(self)@.wddm },
                blt: prefixes_abandoned(old(self)@.blt, old(self)@.wddm.pending).0,
                ..old(self)@
            }),
            final(out)@ == old(out)@ + prefixes_abandoned(
                old(self)@.blt,
                old(self)@.wddm.pending,
            ).1,
            final(self)@.blt.wf(),
    {
        let ghost target = prefixes_abandoned(self@.blt, self@.wddm.pending);
        let ghost log = out@;
        loop
            invariant
                self@.blt.wf(),
                self@ == (GpuState {
                    wddm: WddmState { pending: self@.wddm.pending, ..old(self)@.wddm },
                    blt: self@.blt,
                    ..old(self)@
                }),
                prefixes_abandoned(self@.blt, self@.wddm.pending).0 == target.0,
                log + target.1 =~= out@ + prefixes_abandoned(self@.blt, self@.wddm.pending).1,
            ensures
                self@.blt.wf(),
                self@ == (GpuState {
                    wddm: WddmState { pending: Seq::empty(), ..old(self)@.wddm },
                    blt: target.0,
                    ..old(self)@
                }),
                out@ =~= log + target.1,
            decreases self.wddm.pending.len(),
        {
            if self.wddm.pending.len() == 0 {
                assert(self@.wddm.pending =~= Seq::empty());
                break ;
            }
            let p: WddmPending = self.wddm.pending.remove(0);
            if let Some(prefix) = p.terminal_prefix() {
                self.blt.abandon(prefix, out);
            }
        }
    }

    fn attach_blt(&mut self, id: Option<(u64, u64)>, live: bool, out: &mut Vec<Action>) -> (r: Option<
        (u64, u64),
    >)
        requires
            old(self)@.blt.wf(),
        ensures
            r == old(self)@.blt_attached(id, live).0,
            final(self)@ == (GpuState { blt: old(self)@.blt_attached(id, live).1, ..old(self)@ }),
            final(out)@ == old(out)@ + old(self)@.blt_attached(id, live).2,
            final(self)@.blt.wf(),
    {
        let (token, boundary): (u64, u64) = match id {
            Some(x) => x,
            None => return None,
        };
        let same = |r: &WindowedBltPending| -> (b: bool)
            ensures
                b == WindowedBltPending::named(token, boundary)(*r),
            { r.token == token && r.stream_boundary == boundary };
        let found: Option<usize> = position(
            &self.blt.pending,
            same,
            Ghost(WindowedBltPending::named(token, boundary)),
        );
        let owner = |p: &WddmPending| -> (b: bool)
            ensures
                b == WddmPending::owns(token, boundary)(*p),
            {
                match p.terminal_prefix() {
                    Some(x) => x.contains(token, boundary),
                    None => false,
                }
            };
        let owned: bool = any(
            &self.wddm.pending,
            owner,
            Ghost(WddmPending::owns(token, boundary)),
        );
        let sent: bool = match found {
            Some(i) => self.blt.pending[i].dispatched,
            None => false,
        };
        proof {
            crate::seqs::lemma_first_index_exists(
                self@.blt.pending,
                WindowedBltPending::named(token, boundary),
            );
        }
        if !(found.is_some() || self.blt.terminal_contains(token, boundary)) || owned {
            return None;
        }
        if live || sent {
            return id;
        }
        self.blt.abandon(
            WindowedBltTerminalPrefix { max_token: token, max_boundary: boundary },
            out,
        );
        None
    }

    fn choose_wire(&mut self, paging: bool, gpu_fence: Option<u64>, behind_stream: bool, exact: bool) -> (r:
        (u64, WireBoundary))
        ensures
            forall|stream: Option<u64>|
                #![trigger old(self)@.wire_choice(paging, gpu_fence, stream, exact)]
                stream is Some == behind_stream ==> {
                    let c = old(self)@.wire_choice(paging, gpu_fence, stream, exact);
                    r == (c.0, c.1) && final(self)@ == (GpuState {
                        wddm: WddmState { counters: c.2, ..old(self)@.wddm },
                        ..old(self)@
                    })
                },
    {
        if paging {
            return (0, WireBoundary::Prefix);
        }
        match gpu_fence {
            Some(id) => {
                let s = select_boundary(
                    id,
                    self.fences.wire_fence_base,
                    self.fences.next_wire_fence,
                    exact,
                );
                match s.rejection {
                    Rejection::OutOfRange => {
                        self.wddm.counters.fence_clamped =
                            self.wddm.counters.fence_clamped.wrapping_add(1);
                    },
                    Rejection::ForeignGeneration => {
                        self.wddm.counters.fence_foreign_generation =
                            self.wddm.counters.fence_foreign_generation.wrapping_add(1);
                    },
                    Rejection::Accepted => {},
                }
                if s.boundary == WireBoundary::Exact {
                    self.wddm.counters.d3d12_exact_used =
                        self.wddm.counters.d3d12_exact_used.wrapping_add(1);
                }
                (s.watermark, s.boundary)
            },
            None => {
                if behind_stream && self.wddm.present_exact_watermark {
                    self.wddm.counters.present_exact_used =
                        self.wddm.counters.present_exact_used.wrapping_add(1);
                    (0, WireBoundary::Prefix)
                } else {
                    (self.fences.next_wire_fence, WireBoundary::Prefix)
                }
            },
        }
    }

    /// When a held completion may be delivered; 0 if none is held.
    pub fn wddm_hold_deadline(&self, now: u64) -> (r: u64)
        ensures
            r == self@.hold_deadline(now),
    {
        if self.wddm.hold_ms == 0 {
            return 0;
        }
        now.saturating_add(self.wddm.hold_ms as u64 * 10000)
    }

    fn what_blocks(&self, p: WddmPending, now: u64) -> (r: HeadBlock)
        requires
            self@.streams.wf(),
        ensures
            r == self@.block_of(p, now),
    {
        if !wire_boundary_ready(&self.queue.inflight, p.watermark, p.domain, p.wire_boundary) {
            return HeadBlock::Wire;
        }
        if let Some(boundary) = p.stream_boundary {
            if !self.scanout_boundary_ready(boundary) {
                return HeadBlock::Stream;
            }
        }
        let blt_ready: bool = match (p.blt_token, p.blt_stream_boundary) {
            (Some(token), Some(boundary)) => match WindowedBltTerminalPrefix::new(token, boundary) {
                Some(prefix) => self.blt.terminal_prefix_ready(prefix),
                None => false,
            },
            (None, _) => true,
            _ => false,
        };
        if !blt_ready {
            return HeadBlock::Blt;
        }
        if p.hold_until_100ns != 0 && now < p.hold_until_100ns {
            return HeadBlock::Hold;
        }
        HeadBlock::Nothing
    }

    #[verifier::rlimit(60)]
    fn prepare_submission(
        &mut self,
        fence: u32,
        paging: bool,
        gpu_completion_fence: Option<u64>,
        stream_boundary: Option<u64>,
        blt_token: Option<u64>,
        d3d12: bool,
        now: u64,
        out: &mut Vec<Action>,
    ) -> (r: WddmPending)
        requires
            old(self)@.wf(),
        ensures
            ({
                let s = old(self)@.submission_of(
                    fence,
                    paging,
                    gpu_completion_fence,
                    stream_boundary,
                    blt_token,
                    d3d12,
                    now,
                );
                &&& r == s.0
                &&& final(self)@ == s.1
                &&& final(out)@ == old(out)@ + s.2
            }),
            final(self)@.wf(),
            final(self)@.waits_within(r),
            r.wf(),
    {
        let stream: Option<u64> = match stream_boundary {
            Some(b) => if self.streams.boundary_live(b) {
                Some(b)
            } else {
                None
            },
            None => None,
        };
        let wanted: Option<(u64, u64)> = match (blt_token, stream_boundary) {
            (Some(t), Some(b)) => if t != 0 && decode_present_stream_boundary(b).is_some() {
                Some((t, b))
            } else {
                None
            },
            _ => None,
        };
        let id: Option<(u64, u64)> = self.attach_blt(wanted, stream.is_some(), out);
        if let (Some(boundary), Some((token, _))) = (stream, id) {
            self.admit_windowed_blt_prefix(boundary, token);
        }
        let domain = if stream.is_some() || gpu_completion_fence.is_some() {
            RetireDomain::IncludingGpu
        } else if paging || !self.wddm.dma_gpu_fence {
            RetireDomain::DecodeOnly
        } else {
            RetireDomain::IncludingGpu
        };
        let ghost g2 = self@;
        assert(g2.wire_choice(paging, gpu_completion_fence, stream, d3d12)
            == g2.wire_choice(paging, gpu_completion_fence, stream, d3d12));
        let (watermark, wire_boundary): (u64, WireBoundary) = self.choose_wire(
            paging,
            gpu_completion_fence,
            stream.is_some(),
            d3d12,
        );
        let hold_until_100ns: u64 = if d3d12 {
            self.wddm_hold_deadline(now)
        } else {
            0
        };
        WddmPending {
            fence,
            watermark,
            ordinary_watermark: if paging {
                0
            } else {
                self.fences.next_wire_fence
            },
            wire_boundary,
            domain,
            stream_boundary: stream,
            blt_token: match id {
                Some((t, _)) => Some(t),
                None => None,
            },
            blt_stream_boundary: match id {
                Some((_, b)) => Some(b),
                None => None,
            },
            hold_until_100ns,
            head_deadline_100ns: 0,
            rebased: false,
        }
    }

    fn settle_submission(&mut self, p: WddmPending, now: u64, out: &mut Vec<Action>) -> (r: bool)
        requires
            old(self)@.wf(),
            old(self)@.waits_within(p),
            p.wf(),
        ensures
            r == old(self)@.submission_settled(p, now).0,
            final(self)@ == old(self)@.submission_settled(p, now).1,
            final(out)@ == old(out)@ + old(self)@.submission_settled(p, now).2,
            final(self)@.wf(),
    {
        if self.wddm.pending.len() == 0 && p.blt_token.is_none() && p.hold_until_100ns == 0
            && self.what_blocks(p, now) == HeadBlock::Nothing {
            return true;
        }
        if self.wddm.pending.len() >= MAX_WDDM_PENDING {
            self.wddm.counters.pending_overflows =
                self.wddm.counters.pending_overflows.wrapping_add(1);
            self.wddm.pending.push(p);
            self.abandon_prefixes(out);
            return true;
        }
        self.wddm.pending.push(p);
        false
    }

    /// Record a submission. `true` asks for its completion now: nothing waits
    /// before it and it waits for nothing, or waiting is pointless. Otherwise
    /// [`Self::take_one_ready_wddm`] hands it out in its turn.
    ///
    /// `gpu_completion_fence` is a wire fence that it names, `stream_boundary`
    /// and `blt_token` the stream and the copies that it depends on.
    pub fn note_wddm_submission(
        &mut self,
        fence: u32,
        paging: bool,
        gpu_completion_fence: Option<u64>,
        stream_boundary: Option<u64>,
        blt_token: Option<u64>,
        d3d12: bool,
        now: u64,
        out: &mut Vec<Action>,
    ) -> (r: bool)
        requires
            old(self)@.wf(),
        ensures
            ({
                let s = old(self)@.submission_noted(
                    fence,
                    paging,
                    gpu_completion_fence,
                    stream_boundary,
                    blt_token,
                    d3d12,
                    now,
                );
                &&& r == s.0
                &&& final(self)@ == s.1
                &&& final(out)@ == old(out)@ + s.2
            }),
            final(self)@.wf(),
            final(self)@.advances(old(self)@),
            final(self)@.keeps_barrier(old(self)@),
            final(self)@.waiters_follow(old(self)@, None),
    {
        if self.queue.failed {
            self.wddm.counters.signal_after_failure =
                self.wddm.counters.signal_after_failure.wrapping_add(1);
            self.wddm.pending.clear();
            self.blt.terminal.clear();
            return true;
        }
        let p: WddmPending = self.prepare_submission(
            fence,
            paging,
            gpu_completion_fence,
            stream_boundary,
            blt_token,
            d3d12,
            now,
            out,
        );
        let ghost g = self@;
        let due: bool = self.settle_submission(p, now, out);
        proof {
            let s = old(self)@.submission_of(
                fence,
                paging,
                gpu_completion_fence,
                stream_boundary,
                blt_token,
                d3d12,
                now,
            );
            assert(old(out)@ + s.2 + g.submission_settled(p, now).2 =~= old(out)@ + (s.2
                + g.submission_settled(p, now).2));
        }
        due
    }

    /// How many submissions have overflowed the FIFO so far.
    pub fn wddm_pending_overflows(&self) -> (r: u32)
        ensures
            r == self@.wddm.counters.pending_overflows,
    {
        self.wddm.counters.pending_overflows
    }

    fn settle_head(&mut self, block: HeadBlock) -> (r: WddmTake)
        requires
            old(self)@.wddm.pending.len() > 0,
            old(self)@.wddm.wf(),
        ensures
            r@ == old(self)@.head_settled(block).0,
            final(self)@ == old(self)@.head_settled(block).1,
            final(self)@.wddm.wf(),
            r@ matches Taken::Ready(p) ==> p.wf(),
    {
        match block {
            HeadBlock::Wire => {
                self.wddm.counters.head_blocked_wire =
                    self.wddm.counters.head_blocked_wire.wrapping_add(1);
            },
            HeadBlock::Stream => {
                self.wddm.counters.head_blocked_stream =
                    self.wddm.counters.head_blocked_stream.wrapping_add(1);
            },
            HeadBlock::Blt => {
                self.wddm.counters.head_blocked_blt =
                    self.wddm.counters.head_blocked_blt.wrapping_add(1);
            },
            HeadBlock::Hold => {
                self.wddm.counters.head_blocked_hold =
                    self.wddm.counters.head_blocked_hold.wrapping_add(1);
            },
            HeadBlock::Nothing => {
                self.wddm.counters.fence_from_dpc =
                    self.wddm.counters.fence_from_dpc.wrapping_add(1);
                let pending: WddmPending = self.wddm.pending.remove(0);
                return WddmTake::Ready(WddmReady { pending });
            },
        }
        WddmTake::BlockedOnProducer
    }

    fn rebase_blocked_head(&mut self, now: u64, out: &mut Vec<Action>) -> (r: bool)
        requires
            old(self)@.wddm.pending.len() > 0,
            old(self)@.wf(),
        ensures
            r == old(self)@.head_rebased(now).0,
            final(self)@ == old(self)@.head_rebased(now).1,
            final(out)@ == old(out)@ + old(self)@.head_rebased(now).2,
            final(self)@.wf(),
            final(self)@.wddm.pending.len() == old(self)@.wddm.pending.len(),
    {
        let head: WddmPending = self.wddm.pending[0];
        match look_at_head(self.wddm.head_ms, now, head.head_deadline_100ns, head.rebased) {
            HeadLook::Arm(deadline) => {
                self.wddm.pending[0] = WddmPending { head_deadline_100ns: deadline, ..head };
                false
            },
            HeadLook::Rebase => {
                self.wddm.pending[0] = WddmPending {
                    rebased: true,
                    stream_boundary: None,
                    watermark: self.fences.next_wire_fence,
                    wire_boundary: WireBoundary::Prefix,
                    domain: RetireDomain::IncludingGpu,
                    blt_token: None,
                    blt_stream_boundary: None,
                    ..head
                };
                if let Some(prefix) = head.terminal_prefix() {
                    self.blt.abandon(prefix, out);
                }
                self.wddm.counters.head_rebased = self.wddm.counters.head_rebased.wrapping_add(1);
                true
            },
            _ => false,
        }
    }

    /// Take the head of the FIFO if nothing holds it back. A blocked head is never
    /// bypassed.
    pub fn take_one_ready_wddm(&mut self, now: u64, out: &mut Vec<Action>) -> (r: WddmTake)
        requires
            old(self)@.wf(),
        ensures
            r@ == old(self)@.head_taken(now).0,
            final(self)@ == old(self)@.head_taken(now).1,
            final(out)@ == old(out)@ + old(self)@.head_taken(now).2,
            final(self)@.wf(),
            r@ matches Taken::Ready(p) ==> p.wf() && final(self)@.waits_within(p),
            final(self)@.follows(old(self)@),
    {
        if self.wddm.pending.len() == 0 {
            return WddmTake::Empty;
        }
        let head: WddmPending = self.wddm.pending[0];
        let block: HeadBlock = self.what_blocks(head, now);
        let taken = self.settle_head(block);
        match block {
            HeadBlock::Stream | HeadBlock::Blt => {
                if self.rebase_blocked_head(now, out) {
                    let head: WddmPending = self.wddm.pending[0];
                    let block: HeadBlock = self.what_blocks(head, now);
                    return self.settle_head(block);
                }
            },
            _ => {},
        }
        taken
    }

    /// Put a submission back whose completion could not be delivered: to the very
    /// place it came from.
    pub fn requeue_wddm_front(&mut self, ready: WddmReady)
        requires
            old(self)@.wf(),
            ready.spec_pending().wf(),
            old(self)@.waits_within(ready.spec_pending()),
        ensures
            final(self)@.wf(),
            final(self)@ == old(self)@.requeued(ready.spec_pending()),
            final(self)@.advances(old(self)@),
            final(self)@.keeps_barrier(old(self)@),
            final(self)@.waiters_follow(old(self)@, None),
    {
        self.wddm.pending.insert(0, ready.pending);
        proof {
            let p = old(self)@.wddm.pending;
            assert forall|i: int| 0 <= i < self@.wddm.pending.len() implies (
            #[trigger] self@.wddm.pending[i]).wf() && self@.waits_within(
                self@.wddm.pending[i],
            ) by {
                if i > 0 {
                    assert(self@.wddm.pending[i] == p[i - 1]);
                    assert(old(self)@.waits_within(p[i - 1]));
                }
            }
        }
    }

    /// The scheduler preempts: it will submit everything pending anew. Returns how
    /// many submissions were dropped.
    pub fn preempt_flush(&mut self) -> (r: u32)
        requires
            old(self)@.wf(),
        ensures
            final(self)@.wf(),
            r == old(self)@.wddm.pending.len() as u32,
            final(self)@ == old(self)@.scheduler_preempted(),
            final(self)@.follows(old(self)@),
    {
        let n: u32 = self.wddm.pending.len() as u32;
        self.wddm.pending.clear();
        self.blt.preempt();
        n
    }

    /// The scheduler is reset: it will submit nothing anew. Copies that were not
    /// sent are cancelled, and those that were sent owe no end any more. Returns
    /// how many submissions were dropped.
    pub fn terminal_abandon_wddm_epoch(&mut self, out: &mut Vec<Action>) -> (r: u32)
        requires
            old(self)@.wf(),
        ensures
            final(self)@.wf(),
            r == old(self)@.wddm.pending.len() as u32,
            final(self)@ == old(self)@.epoch_abandoned().0,
            final(out)@ == old(out)@ + old(self)@.epoch_abandoned().1,
            final(self)@.follows(old(self)@),
    {
        let n: u32 = self.wddm.pending.len() as u32;
        self.abandon_prefixes(out);
        let unsent = |r: &WindowedBltPending| -> (b: bool)
            ensures
                b == WindowedBltPending::undispatched()(*r),
            { !r.dispatched };
        self.blt.cancel_all(unsent, Ghost(WindowedBltPending::undispatched()), out);
        let all = |r: &WindowedBltPending| -> (b: bool)
            ensures
                b == WindowedBltPending::everyone()(*r),
            { true };
        self.blt.disown(all, Ghost(WindowedBltPending::everyone()));
        self.blt.ready.clear();
        self.blt.terminal.clear();
        n
    }
}

/// Putting a taken submission back undoes the taking, but for the counter. Taking
/// it did not touch the ends of its copies.
pub proof fn law_requeue_undoes_take(g: GpuState)
    requires
        g.wddm.pending.len() > 0,
    ensures
        ({
            let (taken, t) = g.head_settled(HeadBlock::Nothing);
            &&& taken matches Taken::Ready(p)
            &&& t.wddm.pending.insert(0, p) == g.wddm.pending
            &&& t.blt == g.blt
        }),
{
    assert(g.wddm.pending.remove(0).insert(0, g.wddm.pending[0]) =~= g.wddm.pending);
}

/// Completions leave in the order of submission: only the head is ever taken, and
/// everything behind it keeps its place.
pub proof fn law_fifo_is_strict(g: GpuState, now: u64)
    requires
        g.wddm.pending.len() > 0,
    ensures
        ({
            let (taken, t, _) = g.head_taken(now);
            match taken {
                Taken::Ready(p) => p.fence == g.wddm.pending[0].fence && t.wddm.pending
                    == g.wddm.pending.remove(0),
                Taken::Blocked => {
                    &&& t.wddm.pending.len() == g.wddm.pending.len()
                    &&& t.wddm.pending[0].fence == g.wddm.pending[0].fence
                    &&& t.wddm.pending.remove(0) == g.wddm.pending.remove(0)
                },
                Taken::Empty => false,
            }
        }),
{
    let (taken, t, _) = g.head_taken(now);
    match taken {
        Taken::Ready(p) => {
            assert(t.wddm.pending =~= g.wddm.pending.remove(0));
        },
        _ => {
            assert(t.wddm.pending.remove(0) =~= g.wddm.pending.remove(0));
        },
    }
}

/// A completion is handed out only when everything it waits for is done: the wire
/// boundary always, and the stream and the copies unless the head gave them up
/// after its bound had expired.
pub proof fn law_taken_is_ready(g: GpuState, now: u64)
    requires
        g.wddm.pending.len() > 0,
        g.head_taken(now).0 is Ready,
    ensures
        ({
            let head = g.wddm.pending[0];
            let p = g.head_taken(now).0->Ready_0;
            &&& wire_ready(g.queue.inflight, p.watermark, p.domain, p.wire_boundary)
            &&& p.rebased == head.rebased ==> p == head && g.stream_ready(head.stream_boundary)
                && g.blt_ready(head) && g.head_taken(now).1.blt == g.blt
            &&& p.rebased != head.rebased ==> g.wddm.head_ms != 0 && head.head_deadline_100ns != 0
                && now >= head.head_deadline_100ns && p.watermark == g.fences.next_wire_fence
        }),
{
}

/// A head gives up its dependencies at most once, never before a bound was armed
/// and has expired, and never with the bound switched off.
pub proof fn law_head_rebases_once(g: GpuState, now: u64)
    requires
        g.wddm.pending.len() > 0,
        g.head_rebased(now).0,
    ensures
        g.wddm.head_ms != 0,
        !g.wddm.pending[0].rebased,
        g.wddm.pending[0].head_deadline_100ns != 0,
        g.head_rebased(now).1.wddm.pending[0].rebased,
        forall|later: u64| !(#[trigger] g.head_rebased(now).1.head_rebased(later)).0,
{
}

/// A submission that names a fence waits for no other instance's fence and for
/// none that was not issued.
pub proof fn law_named_fence_is_own(fence_id: u64, base: u64, next: u64, exact: bool)
    requires
        base <= next,
    ensures
        ({
            let s = selection_of(fence_id, base, next, exact);
            &&& s.watermark <= next
            &&& s.rejection == Rejection::Accepted <==> fence_id != 0 && base <= fence_id < next
            &&& s.rejection != Rejection::Accepted ==> s.watermark == next
            &&& s.boundary == WireBoundary::Exact ==> exact && s.watermark == fence_id
        }),
{
}

/// The FIFO never grows beyond its capacity: a submission that finds it full
/// completes at once and empties it.
pub proof fn law_fifo_is_bounded(
    g: GpuState,
    fence: u32,
    paging: bool,
    gpu_fence: Option<u64>,
    stream_boundary: Option<u64>,
    blt_token: Option<u64>,
    d3d12: bool,
    now: u64,
)
    requires
        g.wddm.pending.len() <= MAX_WDDM_PENDING,
    ensures
        g.submission_noted(
            fence,
            paging,
            gpu_fence,
            stream_boundary,
            blt_token,
            d3d12,
            now,
        ).1.wddm.pending.len() <= MAX_WDDM_PENDING,
{
}

} // verus!
