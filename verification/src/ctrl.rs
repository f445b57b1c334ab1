//! Waiting on the host: retry budgets, sliced waits, round trips, fence waits and
//! the reaping of finished commands.
//!
//! A round trip and a fence wait are state machines. The caller performs the step
//! it is given, and hands back what happened.
use crate::counters::{FenceCounters, QueueCounters};
use crate::error::VirtioError;
use crate::fences::{FenceState, FenceWaitPrep, FenceWaiter};
use crate::gpu::{GpuState, VirtioGpu};
use crate::hal::DmaBuffer;
use crate::inflight::{exact_retired, InFlight};
use crate::progress::lemma_stays_retired;
use crate::protocol::{decode_map_cache, is_ok, map_cache_of, read32, resp_is_ok, word32,
    RESP_MAP_INFO_BYTES};
use crate::queue::{buffers_of, law_recycling_keeps_every_buffer, lemma_recycled_keeps,
    split_entries, QueueState, SyncOutcome, SyncTicket};
use crate::seqs::{lemma_first_index, lemma_first_index_exists, some, tally};
use vstd::prelude::*;

verus! {

/// How long one round trip may take.
pub const SYNC_ROUNDTRIP_TIMEOUT_MS: u64 = 30_000;

/// How long a full queue is retried.
pub const ENQUEUE_RETRY_MAX_MS: u64 = 5_000;

/// Longest wait for one fence.
pub const WAIT_FENCE_MAX_MS: u64 = 120_000;

/// How long another mapper of the same blob is waited for.
pub const MAP_BUSY_MAX_MS: u64 = 30_000;

/// One retry slice.
pub const RETRY_SLICE_MS: u64 = 1;

/// How often a full waiter table is retried.
pub const WAIT_TABLE_RETRIES: u32 = 1_000;

/// Longest slice of a wait.
pub const MAX_SLICE_MS: u64 = 1_000;

/// A retry budget in milliseconds slept.
#[derive(Clone, Copy, Debug, PartialEq, Eq, Structural)]
pub struct Budget {
    pub total_ms: u64,
    pub spent_ms: u64,
}

impl Budget {
    pub open spec fn of(total_ms: u64) -> Budget {
        Budget { total_ms, spent_ms: 0 }
    }

    pub open spec fn charged(self) -> Budget {
        Budget { spent_ms: self.spent_ms.saturating_add(RETRY_SLICE_MS), ..self }
    }

    pub open spec fn is_expired(self) -> bool {
        self.spent_ms > self.total_ms
    }

    pub fn new(total_ms: u64) -> (r: Self)
        ensures
            r == Self::of(total_ms),
    {
        Budget { total_ms, spent_ms: 0 }
    }

    /// Charge one slice; `true` once the budget is exhausted.
    pub fn charge_slice(&mut self) -> (r: bool)
        ensures
            *final(self) == old(self).charged(),
            r == old(self).charged().is_expired(),
    {
        self.spent_ms = self.spent_ms.saturating_add(RETRY_SLICE_MS);
        self.expired()
    }

    pub fn expired(&self) -> (r: bool)
        ensures
            r == self.is_expired(),
    {
        self.spent_ms > self.total_ms
    }

    pub fn elapsed_ms(&self) -> (r: u64)
        ensures
            r == self.spent_ms,
    {
        self.spent_ms
    }
}

/// A budget allows as many retries as it has milliseconds, and no more.
pub proof fn law_budget_counts_its_milliseconds(b: Budget)
    requires
        b.spent_ms <= b.total_ms,
        b.total_ms < u64::MAX,
    ensures
        b.charged().spent_ms == b.spent_ms + 1,
        b.charged().is_expired() <==> b.spent_ms == b.total_ms,
{
}

/// What to do about a block that is waited for. The block is left only when its
/// event was signalled or after its registration was taken back: its waker may
/// still write to it while it merely reads as done.
#[derive(Clone, Copy, Debug, PartialEq, Eq, Structural)]
pub enum WaitStep {
    /// The block was signalled.
    Done,
    TimedOut,
    /// Wait on the block for so many milliseconds, and drain if it was not
    /// signalled.
    Sleep(u64),
}

/// A wait in slices that double up to a second.
#[derive(Clone, Copy, Debug, PartialEq, Eq, Structural)]
pub struct BlockWait {
    pub total_ms: u64,
    pub waited_ms: u64,
    pub slice_ms: u64,
}

impl BlockWait {
    pub open spec fn of(total_ms: u64) -> BlockWait {
        BlockWait { total_ms, waited_ms: 0, slice_ms: 1 }
    }

    pub open spec fn wf(self) -> bool {
        self.waited_ms <= self.total_ms && 1 <= self.slice_ms <= MAX_SLICE_MS
    }

    /// The slice that is waited next.
    pub open spec fn slice(self) -> u64 {
        if self.slice_ms <= self.total_ms - self.waited_ms {
            self.slice_ms
        } else {
            (self.total_ms - self.waited_ms) as u64
        }
    }

    /// The step after a slice in which the block was signalled or not.
    pub open spec fn waited(self, signalled: bool) -> (WaitStep, BlockWait) {
        if signalled {
            (WaitStep::Done, self)
        } else if self.waited_ms >= self.total_ms {
            (WaitStep::TimedOut, self)
        } else {
            (
                WaitStep::Sleep(self.slice()),
                BlockWait {
                    waited_ms: (self.waited_ms + self.slice()) as u64,
                    slice_ms: if self.slice_ms * 2 <= MAX_SLICE_MS {
                        (self.slice_ms * 2) as u64
                    } else {
                        MAX_SLICE_MS
                    },
                    ..self
                },
            )
        }
    }

    pub fn new(total_ms: u64) -> (r: Self)
        ensures
            r == Self::of(total_ms),
            r.wf(),
    {
        BlockWait { total_ms, waited_ms: 0, slice_ms: 1 }
    }

    /// The next step of the wait: `signalled` tells whether the block was, in the
    /// slice before. The slice that is to be waited is charged at once.
    pub fn wait_block(&mut self, signalled: bool) -> (r: WaitStep)
        requires
            old(self).wf(),
        ensures
            r == old(self).waited(signalled).0,
            *final(self) == old(self).waited(signalled).1,
            final(self).wf(),
    {
        if signalled {
            return WaitStep::Done;
        }
        if self.waited_ms >= self.total_ms {
            return WaitStep::TimedOut;
        }
        let left: u64 = self.total_ms - self.waited_ms;
        let slice: u64 = if self.slice_ms <= left {
            self.slice_ms
        } else {
            left
        };
        self.waited_ms = self.waited_ms + slice;
        self.slice_ms = if self.slice_ms * 2 <= MAX_SLICE_MS {
            self.slice_ms * 2
        } else {
            MAX_SLICE_MS
        };
        WaitStep::Sleep(slice)
    }
}

/// A wait sleeps its whole time and not a millisecond more before it times out,
/// and no slice is empty or longer than a second.
pub proof fn law_wait_sleeps_its_time(w: BlockWait)
    requires
        w.wf(),
    ensures
        w.waited(false).0 is TimedOut <==> w.waited_ms == w.total_ms,
        w.waited(false).0 matches WaitStep::Sleep(ms) ==> {
            &&& 1 <= ms <= MAX_SLICE_MS
            &&& w.waited(false).1.waited_ms == w.waited_ms + ms
            &&& w.waited(false).1.waited_ms <= w.total_ms
        },
{
}

/// Reap the finished commands: keep their buffers for reuse, as far as there is
/// room, and return the others to be freed: every buffer ends in one of the two,
/// once. Nothing happens while another reap is under way.
pub fn reap_parked(gpu: &mut VirtioGpu) -> (r: Vec<DmaBuffer>)
    requires
        old(gpu)@.wf(),
    ensures
        final(gpu)@.wf(),
        if old(gpu)@.queue.reap_in_progress || old(gpu)@.queue.parked.len() == 0 {
            r@.len() == 0 && final(gpu)@ == old(gpu)@
        } else {
            let (q, left) = QueueState {
                parked: Seq::<InFlight>::empty(),
                reap_in_progress: true,
                ..old(gpu)@.queue
            }.recycled(buffers_of(old(gpu)@.queue.parked), 0);
            &&& r@ == left
            &&& final(gpu)@ == (GpuState {
                queue: QueueState { reap_in_progress: false, ..q },
                ..old(gpu)@
            })
            &&& forall|b: DmaBuffer| #[trigger]
                tally(r@, DmaBuffer::same_as(b)) + tally(
                    final(gpu)@.queue.dma_pool,
                    DmaBuffer::same_as(b),
                ) == tally(buffers_of(old(gpu)@.queue.parked), DmaBuffer::same_as(b)) + tally(
                    old(gpu)@.queue.dma_pool,
                    DmaBuffer::same_as(b),
                )
        },
        final(gpu)@.follows(old(gpu)@),
{
    let (entries, mut buffers) = match gpu.begin_parked_reap() {
        Some(work) => work,
        None => return Vec::new(),
    };
    split_entries(entries, &mut buffers);
    proof {
        lemma_recycled_keeps(gpu@.queue, buffers@, 0);
        assert forall|b: DmaBuffer| #[trigger]
            tally(gpu@.queue.recycled(buffers@, 0).1, DmaBuffer::same_as(b)) + tally(
                gpu@.queue.recycled(buffers@, 0).0.dma_pool,
                DmaBuffer::same_as(b),
            ) == tally(buffers@, DmaBuffer::same_as(b)) + tally(
                gpu@.queue.dma_pool,
                DmaBuffer::same_as(b),
            ) by {
            law_recycling_keeps_every_buffer(gpu@.queue, buffers@, 0, b);
        }
    }
    let excess: Vec<DmaBuffer> = gpu.recycle_dma_buffers(buffers);
    let _ = gpu.finish_parked_reap(Vec::new(), Vec::new());
    excess
}

/// What a round trip is told.
#[derive(Clone, Copy, Debug, PartialEq, Eq, Structural)]
pub enum RoundtripEvent {
    /// Begin, with the lengths of the requests and of the response.
    Begin { in0_len: usize, in1_len: usize, resp_len: usize },
    /// The command buffer was allocated, or not.
    Allocated(bool),
    /// The command was queued.
    Enqueued,
    /// The command was refused.
    Refused(VirtioError),
    /// The retry slice was slept.
    Slept,
    /// A slice was waited; whether the waiter's block was signalled in it.
    Waited(bool),
    /// The waiter gave up, and found this.
    GaveUp(SyncOutcome),
    /// The transport is gone.
    Gone,
}

/// What a round trip asks for.
#[derive(Clone, Copy, Debug, PartialEq, Eq, Structural)]
pub enum RoundtripStep {
    /// Reap, then allocate a command buffer of so many bytes.
    Allocate(usize),
    /// Drain and queue the command.
    Enqueue,
    /// Reap, then sleep so many milliseconds.
    Retry(u64),
    /// Wait on the block for so many milliseconds, and drain if it was not
    /// signalled.
    Wait(u64),
    /// Drain, then give up the command.
    GiveUp,
    /// The response is there.
    Succeed,
    Fail(VirtioError),
}

/// How far a round trip is.
#[derive(Clone, Copy, Debug, PartialEq, Eq, Structural)]
pub enum RoundtripPhase {
    Idle,
    Allocating,
    Enqueueing(Budget),
    Sleeping(Budget),
    Waiting(BlockWait),
    GivingUp,
    Ended,
}

/// One synchronous control round trip.
#[derive(Clone, Copy, Debug, PartialEq, Eq, Structural)]
pub struct Roundtrip {
    pub timeout_ms: u64,
    pub phase: RoundtripPhase,
}

impl Roundtrip {
    pub open spec fn wf(self) -> bool {
        self.phase matches RoundtripPhase::Waiting(w) ==> w.wf()
    }

    pub open spec fn at(self, phase: RoundtripPhase) -> Roundtrip {
        Roundtrip { phase, ..self }
    }

    pub open spec fn failed(self, e: VirtioError) -> (RoundtripStep, Roundtrip) {
        (RoundtripStep::Fail(e), self.at(RoundtripPhase::Ended))
    }

    pub open spec fn waited(self, w: BlockWait, signalled: bool) -> (RoundtripStep, Roundtrip) {
        match w.waited(signalled) {
            (WaitStep::Done, _) => (RoundtripStep::Succeed, self.at(RoundtripPhase::Ended)),
            (WaitStep::TimedOut, _) => (
                RoundtripStep::GiveUp,
                self.at(RoundtripPhase::GivingUp),
            ),
            (WaitStep::Sleep(ms), next) => (
                RoundtripStep::Wait(ms),
                self.at(RoundtripPhase::Waiting(next)),
            ),
        }
    }

    /// The next step and phase. A full queue is retried within its budget, a wait
    /// that times out gives up only this command, and an event that does not fit
    /// fails the round trip.
    pub open spec fn next(self, event: RoundtripEvent) -> (RoundtripStep, Roundtrip) {
        match (self.phase, event) {
            (_, RoundtripEvent::Gone) => self.failed(VirtioError::DeviceError),
            (RoundtripPhase::Idle, RoundtripEvent::Begin { in0_len, in1_len, resp_len }) => if in0_len
                == 0 || resp_len == 0 {
                self.failed(VirtioError::DeviceError)
            } else {
                (
                    RoundtripStep::Allocate((in0_len + in1_len + resp_len) as usize),
                    self.at(RoundtripPhase::Allocating),
                )
            },
            (RoundtripPhase::Allocating, RoundtripEvent::Allocated(ok)) => if ok {
                (
                    RoundtripStep::Enqueue,
                    self.at(RoundtripPhase::Enqueueing(Budget::of(ENQUEUE_RETRY_MAX_MS))),
                )
            } else {
                self.failed(VirtioError::OutOfMemory)
            },
            (RoundtripPhase::Enqueueing(_), RoundtripEvent::Enqueued) => self.waited(
                BlockWait::of(self.timeout_ms),
                false,
            ),
            (RoundtripPhase::Enqueueing(b), RoundtripEvent::Refused(e)) => if e
                != VirtioError::QueueFull {
                self.failed(e)
            } else if b.charged().is_expired() {
                self.failed(VirtioError::QueueFull)
            } else {
                (
                    RoundtripStep::Retry(RETRY_SLICE_MS),
                    self.at(RoundtripPhase::Sleeping(b.charged())),
                )
            },
            (RoundtripPhase::Sleeping(b), RoundtripEvent::Slept) => (
                RoundtripStep::Enqueue,
                self.at(RoundtripPhase::Enqueueing(b)),
            ),
            (RoundtripPhase::Waiting(w), RoundtripEvent::Waited(signalled)) => self.waited(
                w,
                signalled,
            ),
            (RoundtripPhase::GivingUp, RoundtripEvent::GaveUp(outcome)) => match outcome {
                SyncOutcome::AlreadyCompleted => (
                    RoundtripStep::Succeed,
                    self.at(RoundtripPhase::Ended),
                ),
                SyncOutcome::Abandoned => self.failed(VirtioError::Timeout),
                SyncOutcome::NotOurs => self.failed(VirtioError::DeviceError),
            },
            _ => self.failed(VirtioError::DeviceError),
        }
    }

    /// A round trip that waits `timeout_ms` for its answer.
    pub fn new(timeout_ms: u64) -> (r: Self)
        ensures
            r == (Roundtrip { timeout_ms, phase: RoundtripPhase::Idle }),
            r.wf(),
    {
        Roundtrip { timeout_ms, phase: RoundtripPhase::Idle }
    }

    fn fail(&mut self, e: VirtioError) -> (r: RoundtripStep)
        ensures
            r == old(self).failed(e).0,
            *final(self) == old(self).failed(e).1,
    {
        self.phase = RoundtripPhase::Ended;
        RoundtripStep::Fail(e)
    }

    fn wait(&mut self, w: BlockWait, signalled: bool) -> (r: RoundtripStep)
        requires
            w.wf(),
        ensures
            r == old(self).waited(w, signalled).0,
            *final(self) == old(self).waited(w, signalled).1,
            final(self).wf(),
    {
        let mut wait: BlockWait = w;
        match wait.wait_block(signalled) {
            WaitStep::Done => {
                self.phase = RoundtripPhase::Ended;
                RoundtripStep::Succeed
            },
            WaitStep::TimedOut => {
                self.phase = RoundtripPhase::GivingUp;
                RoundtripStep::GiveUp
            },
            WaitStep::Sleep(ms) => {
                self.phase = RoundtripPhase::Waiting(wait);
                RoundtripStep::Wait(ms)
            },
        }
    }
}

/// Advance a round trip.
pub fn ctrl_roundtrip(rt: &mut Roundtrip, event: RoundtripEvent) -> (r: RoundtripStep)
    requires
        old(rt).wf(),
        event matches RoundtripEvent::Begin { in0_len, in1_len, resp_len } ==> in0_len + in1_len
            + resp_len <= usize::MAX,
    ensures
        r == old(rt).next(event).0,
        *final(rt) == old(rt).next(event).1,
        final(rt).wf(),
{
    match (rt.phase, event) {
        (_, RoundtripEvent::Gone) => rt.fail(VirtioError::DeviceError),
        (RoundtripPhase::Idle, RoundtripEvent::Begin { in0_len, in1_len, resp_len }) => {
            if in0_len == 0 || resp_len == 0 {
                return rt.fail(VirtioError::DeviceError);
            }
            rt.phase = RoundtripPhase::Allocating;
            RoundtripStep::Allocate(in0_len + in1_len + resp_len)
        },
        (RoundtripPhase::Allocating, RoundtripEvent::Allocated(ok)) => {
            if !ok {
                return rt.fail(VirtioError::OutOfMemory);
            }
            rt.phase = RoundtripPhase::Enqueueing(Budget::new(ENQUEUE_RETRY_MAX_MS));
            RoundtripStep::Enqueue
        },
        (RoundtripPhase::Enqueueing(_), RoundtripEvent::Enqueued) => rt.wait(
            BlockWait::new(rt.timeout_ms),
            false,
        ),
        (RoundtripPhase::Enqueueing(b), RoundtripEvent::Refused(e)) => {
            if e != VirtioError::QueueFull {
                return rt.fail(e);
            }
            let mut budget: Budget = b;
            if budget.charge_slice() {
                return rt.fail(VirtioError::QueueFull);
            }
            rt.phase = RoundtripPhase::Sleeping(budget);
            RoundtripStep::Retry(RETRY_SLICE_MS)
        },
        (RoundtripPhase::Sleeping(b), RoundtripEvent::Slept) => {
            rt.phase = RoundtripPhase::Enqueueing(b);
            RoundtripStep::Enqueue
        },
        (RoundtripPhase::Waiting(w), RoundtripEvent::Waited(signalled)) => rt.wait(w, signalled),
        (RoundtripPhase::GivingUp, RoundtripEvent::GaveUp(outcome)) => match outcome {
            SyncOutcome::AlreadyCompleted => {
                rt.phase = RoundtripPhase::Ended;
                RoundtripStep::Succeed
            },
            SyncOutcome::Abandoned => rt.fail(VirtioError::Timeout),
            SyncOutcome::NotOurs => rt.fail(VirtioError::DeviceError),
        },
        _ => rt.fail(VirtioError::DeviceError),
    }
}

/// A round trip succeeds only where its block was signalled, or the command had
/// ended before it could be given up. The signal is that of the host's answer, which
/// brings the response, or that of a failing transport, which brings nothing and
/// leaves the block's zeros: [`crate::drain::law_signal_brings_the_response`] tells
/// the two apart, and zeros are no response of success.
pub proof fn law_success_has_a_response(rt: Roundtrip, event: RoundtripEvent)
    requires
        rt.next(event).0 is Succeed,
    ensures
        event == RoundtripEvent::Waited(true) || event == RoundtripEvent::GaveUp(
            SyncOutcome::AlreadyCompleted,
        ),
{
}

impl GpuState {
    /// A command whose wait timed out is given up, and counted if it was still on
    /// its way.
    pub open spec fn given_up(self, token: u16, block: u64) -> (SyncOutcome, GpuState) {
        let (found, q) = self.queue.waiter_left(token, block);
        (
            found,
            GpuState {
                queue: if found == SyncOutcome::Abandoned {
                    QueueState {
                        counters: QueueCounters {
                            ctrl_timeouts: q.counters.ctrl_timeouts.wrapping_add(1),
                            ..q.counters
                        },
                        ..q
                    }
                } else {
                    q
                },
                ..self
            },
        )
    }
}

impl VirtioGpu {
    /// Give up a command whose wait timed out, and count it if it was still on its
    /// way.
    pub fn give_up_sync(&mut self, ticket: SyncTicket, block: u64) -> (r: SyncOutcome)
        requires
            old(self)@.wf(),
        ensures
            final(self)@.wf(),
            r == old(self)@.given_up(ticket.spec_token(), block).0,
            final(self)@ == old(self)@.given_up(ticket.spec_token(), block).1,
            final(self)@.follows(old(self)@),
    {
        let r = self.abandon_sync(ticket, block);
        if r == SyncOutcome::Abandoned {
            self.queue.counters.ctrl_timeouts = self.queue.counters.ctrl_timeouts.wrapping_add(1);
        }
        r
    }
}

pub open spec fn verdict_of(done: Result<(), VirtioError>, resp: Seq<u8>) -> Result<
    (),
    VirtioError,
> {
    match done {
        Err(e) => Err(e),
        Ok(_) => if is_ok(word32(resp, 0) as u32) {
            Ok(())
        } else {
            Err(VirtioError::DeviceError)
        },
    }
}

pub open spec fn map_verdict_of(done: Result<(), VirtioError>, resp: Seq<u8>) -> Result<
    u32,
    VirtioError,
> {
    match verdict_of(done, resp) {
        Err(e) => Err(e),
        Ok(_) => Ok(map_cache_of(resp)),
    }
}

/// The verdict of a round trip whose response is a bare header: the transport's
/// error, or the host's.
pub fn ctrl_roundtrip_ok(done: Result<(), VirtioError>, resp: &[u8]) -> (r: Result<(), VirtioError>)
    requires
        resp@.len() >= 4,
    ensures
        r == verdict_of(done, resp@),
{
    match done {
        Err(e) => Err(e),
        Ok(_) => if resp_is_ok(read32(resp, 0)) {
            Ok(())
        } else {
            Err(VirtioError::DeviceError)
        },
    }
}

/// The verdict of a map request: the host's caching mode.
pub fn resource_map_blob_roundtrip(done: Result<(), VirtioError>, resp: &[u8]) -> (r: Result<
    u32,
    VirtioError,
>)
    requires
        resp@.len() == RESP_MAP_INFO_BYTES,
    ensures
        r == map_verdict_of(done, resp@),
{
    match ctrl_roundtrip_ok(done, resp) {
        Err(e) => Err(e),
        Ok(_) => Ok(decode_map_cache(resp)),
    }
}

/// How a wait for a fence ended.
#[derive(Clone, Copy, Debug, PartialEq, Eq, Structural)]
pub enum WaitFenceOutcome {
    /// The fence has retired.
    Complete,
    /// It has not, in the given time.
    TimedOut,
    /// It was never issued, or the transport is gone or has failed.
    Invalid,
}

/// What a waiter's block shows.
#[derive(Clone, Copy, Debug, PartialEq, Eq, Structural)]
pub enum Wake {
    /// Nobody has woken the waiter yet.
    Asleep,
    /// What it waits for is done.
    Completed,
    /// The transport has failed.
    Failed,
}

/// What a fence wait is told.
#[derive(Clone, Copy, Debug, PartialEq, Eq, Structural)]
pub enum FenceWaitEvent {
    /// The used ring was drained; what the waiter's block shows after it.
    Drained(Wake),
    /// A slice was waited; what the waiter's block showed at its end.
    Waited(Wake),
}

/// What a fence wait asks for.
#[derive(Clone, Copy, Debug, PartialEq, Eq, Structural)]
pub enum FenceWaitStep {
    /// Sleep so many milliseconds, then drain.
    Retry(u64),
    /// Wait on the block for so many milliseconds, and drain if it was not
    /// signalled.
    Wait(u64),
    /// Drain.
    Drain,
    Finish(WaitFenceOutcome),
}

/// How far a fence wait is.
#[derive(Clone, Copy, Debug, PartialEq, Eq, Structural)]
pub enum FenceWaitPhase {
    Registering,
    Waiting(BlockWait),
    Cancelling,
    Ended,
}

/// A wait for a wire fence.
#[derive(Clone, Copy, Debug, PartialEq, Eq, Structural)]
pub struct FenceWait {
    pub fence_id: u64,
    /// The waiter's block.
    pub block: u64,
    /// 0 asks without waiting.
    pub timeout_ns: u64,
    pub full_retries: u32,
    pub phase: FenceWaitPhase,
}

pub open spec fn wait_ms_of(timeout_ns: u64) -> u64 {
    if timeout_ns / 1_000_000 < 1 {
        1
    } else if timeout_ns / 1_000_000 > WAIT_FENCE_MAX_MS {
        WAIT_FENCE_MAX_MS
    } else {
        timeout_ns / 1_000_000
    }
}

/// What it means that a waiter is not in the table any more. Its block tells whether
/// its fence has retired or the transport has failed; where it shows nothing, the
/// waiter left with its fence unless the transport has failed.
pub open spec fn wake_outcome(wake: Wake, failed: bool) -> WaitFenceOutcome {
    match wake {
        Wake::Completed => WaitFenceOutcome::Complete,
        Wake::Failed => WaitFenceOutcome::Invalid,
        Wake::Asleep => if failed {
            WaitFenceOutcome::Invalid
        } else {
            WaitFenceOutcome::Complete
        },
    }
}

fn outcome_of_wake(wake: Wake, failed: bool) -> (r: WaitFenceOutcome)
    ensures
        r == wake_outcome(wake, failed),
{
    match wake {
        Wake::Completed => WaitFenceOutcome::Complete,
        Wake::Failed => WaitFenceOutcome::Invalid,
        Wake::Asleep => if failed {
            WaitFenceOutcome::Invalid
        } else {
            WaitFenceOutcome::Complete
        },
    }
}

impl FenceWait {
    pub open spec fn wf(self) -> bool {
        &&& self.phase matches FenceWaitPhase::Waiting(w) ==> w.wf()
        &&& self.full_retries <= WAIT_TABLE_RETRIES
    }

    pub open spec fn at(self, phase: FenceWaitPhase) -> FenceWait {
        FenceWait { phase, ..self }
    }

    pub open spec fn ended(self, outcome: WaitFenceOutcome, g: GpuState) -> (
        FenceWaitStep,
        FenceWait,
        GpuState,
    ) {
        (FenceWaitStep::Finish(outcome), self.at(FenceWaitPhase::Ended), g)
    }

    pub open spec fn waited(self, w: BlockWait, wake: Wake, g: GpuState) -> (
        FenceWaitStep,
        FenceWait,
        GpuState,
    ) {
        match w.waited(wake != Wake::Asleep) {
            (WaitStep::Done, _) => self.ended(wake_outcome(wake, g.queue.failed), g),
            (WaitStep::TimedOut, _) => (
                FenceWaitStep::Drain,
                self.at(FenceWaitPhase::Cancelling),
                g,
            ),
            (WaitStep::Sleep(ms), next) => (
                FenceWaitStep::Wait(ms),
                self.at(FenceWaitPhase::Waiting(next)),
                g,
            ),
        }
    }

    /// The next step, the wait and the transport after an event. The registration
    /// of the waiter is taken back before the wait ends without it.
    pub open spec fn next(self, g: GpuState, event: FenceWaitEvent) -> (
        FenceWaitStep,
        FenceWait,
        GpuState,
    ) {
        match (self.phase, event) {
            (FenceWaitPhase::Registering, FenceWaitEvent::Drained(_)) => {
                let (prep, f) = g.fences.wait_answer(
                    g.queue.failed,
                    g.queue.inflight,
                    self.fence_id,
                    self.block,
                );
                let h = GpuState { fences: f, ..g };
                match prep {
                    FenceWaitPrep::Complete => self.ended(WaitFenceOutcome::Complete, h),
                    FenceWaitPrep::Invalid => self.ended(WaitFenceOutcome::Invalid, h),
                    FenceWaitPrep::TableFull => if self.full_retries >= WAIT_TABLE_RETRIES {
                        self.ended(
                            WaitFenceOutcome::TimedOut,
                            GpuState {
                                fences: FenceState {
                                    counters: FenceCounters {
                                        wait_table_full: f.counters.wait_table_full.wrapping_add(1),
                                        ..f.counters
                                    },
                                    ..f
                                },
                                ..h
                            },
                        )
                    } else {
                        (
                            FenceWaitStep::Retry(RETRY_SLICE_MS),
                            FenceWait { full_retries: (self.full_retries + 1) as u32, ..self },
                            h,
                        )
                    },
                    FenceWaitPrep::Registered => if self.timeout_ns == 0 {
                        let (gone, c) = f.wait_cancelled(self.block);
                        self.ended(
                            if gone {
                                WaitFenceOutcome::Complete
                            } else {
                                WaitFenceOutcome::TimedOut
                            },
                            GpuState { fences: c, ..h },
                        )
                    } else {
                        self.waited(BlockWait::of(wait_ms_of(self.timeout_ns)), Wake::Asleep, h)
                    },
                }
            },
            (FenceWaitPhase::Waiting(w), FenceWaitEvent::Waited(wake)) => self.waited(w, wake, g),
            (FenceWaitPhase::Cancelling, FenceWaitEvent::Drained(wake)) => {
                let (gone, c) = g.fences.wait_cancelled(self.block);
                if gone {
                    self.ended(wake_outcome(wake, g.queue.failed), GpuState { fences: c, ..g })
                } else {
                    self.ended(
                        WaitFenceOutcome::TimedOut,
                        GpuState {
                            fences: FenceState {
                                counters: FenceCounters {
                                    wait_timeouts: c.counters.wait_timeouts.wrapping_add(1),
                                    ..c.counters
                                },
                                ..c
                            },
                            ..g
                        },
                    )
                }
            },
            _ => self.ended(WaitFenceOutcome::Invalid, g),
        }
    }

    /// The next step and the wait after an event, where the transport is gone. A block
    /// that shows why it was woken needs no transport; one that shows nothing is waited
    /// for as long as it would have been, and the wait then ends `Invalid`.
    pub open spec fn next_gone(self, event: FenceWaitEvent) -> (FenceWaitStep, FenceWait) {
        match (self.phase, event) {
            (FenceWaitPhase::Waiting(w), FenceWaitEvent::Waited(wake)) => match w.waited(
                wake != Wake::Asleep,
            ) {
                (WaitStep::Done, _) => (
                    FenceWaitStep::Finish(wake_outcome(wake, true)),
                    self.at(FenceWaitPhase::Ended),
                ),
                (WaitStep::TimedOut, _) => (
                    FenceWaitStep::Drain,
                    self.at(FenceWaitPhase::Cancelling),
                ),
                (WaitStep::Sleep(ms), next) => (
                    FenceWaitStep::Wait(ms),
                    self.at(FenceWaitPhase::Waiting(next)),
                ),
            },
            _ => (
                FenceWaitStep::Finish(WaitFenceOutcome::Invalid),
                self.at(FenceWaitPhase::Ended),
            ),
        }
    }

    /// A wait of at most `timeout_ns`; 0 asks without waiting.
    pub fn new(fence_id: u64, block: u64, timeout_ns: u64) -> (r: Self)
        ensures
            r == (FenceWait {
                fence_id,
                block,
                timeout_ns,
                full_retries: 0,
                phase: FenceWaitPhase::Registering,
            }),
            r.wf(),
    {
        FenceWait {
            fence_id,
            block,
            timeout_ns,
            full_retries: 0,
            phase: FenceWaitPhase::Registering,
        }
    }

    fn finish(&mut self, outcome: WaitFenceOutcome) -> (r: FenceWaitStep)
        ensures
            r == FenceWaitStep::Finish(outcome),
            *final(self) == old(self).at(FenceWaitPhase::Ended),
    {
        self.phase = FenceWaitPhase::Ended;
        FenceWaitStep::Finish(outcome)
    }

    fn wait(&mut self, w: BlockWait, wake: Wake, failed: bool) -> (r: FenceWaitStep)
        requires
            w.wf(),
            old(self).wf(),
        ensures
            forall|g: GpuState|
                #![trigger old(self).waited(w, wake, g)]
                g.queue.failed == failed ==> {
                    let s = old(self).waited(w, wake, g);
                    r == s.0 && *final(self) == s.1 && s.2 == g
                },
            final(self).wf(),
    {
        let mut slices: BlockWait = w;
        match slices.wait_block(wake != Wake::Asleep) {
            WaitStep::Done => self.finish(outcome_of_wake(wake, failed)),
            WaitStep::TimedOut => {
                self.phase = FenceWaitPhase::Cancelling;
                FenceWaitStep::Drain
            },
            WaitStep::Sleep(ms) => {
                self.phase = FenceWaitPhase::Waiting(slices);
                FenceWaitStep::Wait(ms)
            },
        }
    }
}

/// Advance a wait for a fence. A waiter that was woken because its fence has retired
/// is told so, even where the transport has failed since. One that was woken by the
/// failure, and one that finds the transport failed before it waits, is `Invalid`:
/// no fence retires by a failure.
pub fn wait_fence(gpu: &mut VirtioGpu, wait: &mut FenceWait, event: FenceWaitEvent) -> (r:
    FenceWaitStep)
    requires
        old(gpu)@.wf(),
        old(wait).wf(),
    ensures
        ({
            let s = old(wait).next(old(gpu)@, event);
            &&& r == s.0
            &&& *final(wait) == s.1
            &&& final(gpu)@ == s.2
        }),
        final(gpu)@.wf(),
        final(wait).wf(),
        final(gpu)@.advances(old(gpu)@),
        final(gpu)@.keeps_barrier(old(gpu)@),
        final(gpu)@.order_follows(old(gpu)@),
        final(gpu)@.waiters_follow(old(gpu)@, Some(old(wait).block)),
{
    match (wait.phase, event) {
        (FenceWaitPhase::Registering, FenceWaitEvent::Drained(_)) => {
            match gpu.fence_wait_prepare(wait.fence_id, wait.block) {
                FenceWaitPrep::Complete => wait.finish(WaitFenceOutcome::Complete),
                FenceWaitPrep::Invalid => wait.finish(WaitFenceOutcome::Invalid),
                FenceWaitPrep::TableFull => {
                    if wait.full_retries >= WAIT_TABLE_RETRIES {
                        gpu.fences.counters.wait_table_full =
                            gpu.fences.counters.wait_table_full.wrapping_add(1);
                        return wait.finish(WaitFenceOutcome::TimedOut);
                    }
                    wait.full_retries = wait.full_retries + 1;
                    FenceWaitStep::Retry(RETRY_SLICE_MS)
                },
                FenceWaitPrep::Registered => {
                    if wait.timeout_ns == 0 {
                        if gpu.fence_wait_cancel(wait.block) {
                            return wait.finish(WaitFenceOutcome::Complete);
                        }
                        return wait.finish(WaitFenceOutcome::TimedOut);
                    }
                    let ms: u64 = wait.timeout_ns / 1_000_000;
                    let total: u64 = if ms < 1 {
                        1
                    } else if ms > WAIT_FENCE_MAX_MS {
                        WAIT_FENCE_MAX_MS
                    } else {
                        ms
                    };
                    wait.wait(BlockWait::new(total), Wake::Asleep, gpu.queue.failed)
                },
            }
        },
        (FenceWaitPhase::Waiting(w), FenceWaitEvent::Waited(wake)) => wait.wait(
            w,
            wake,
            gpu.queue.failed,
        ),
        (FenceWaitPhase::Cancelling, FenceWaitEvent::Drained(wake)) => {
            if gpu.fence_wait_cancel(wait.block) {
                return wait.finish(outcome_of_wake(wake, gpu.queue.failed));
            }
            gpu.fences.counters.wait_timeouts = gpu.fences.counters.wait_timeouts.wrapping_add(1);
            wait.finish(WaitFenceOutcome::TimedOut)
        },
        _ => wait.finish(WaitFenceOutcome::Invalid),
    }
}

/// Advance a wait for a fence whose transport is gone.
pub fn wait_fence_gone(wait: &mut FenceWait, event: FenceWaitEvent) -> (r: FenceWaitStep)
    requires
        old(wait).wf(),
    ensures
        r == old(wait).next_gone(event).0,
        *final(wait) == old(wait).next_gone(event).1,
        final(wait).wf(),
{
    match (wait.phase, event) {
        (FenceWaitPhase::Waiting(w), FenceWaitEvent::Waited(wake)) => {
            let mut slices: BlockWait = w;
            match slices.wait_block(wake != Wake::Asleep) {
                WaitStep::Done => wait.finish(outcome_of_wake(wake, true)),
                WaitStep::TimedOut => {
                    wait.phase = FenceWaitPhase::Cancelling;
                    FenceWaitStep::Drain
                },
                WaitStep::Sleep(ms) => {
                    wait.phase = FenceWaitPhase::Waiting(slices);
                    FenceWaitStep::Wait(ms)
                },
            }
        },
        _ => wait.finish(WaitFenceOutcome::Invalid),
    }
}

/// A fence is reported complete only where it has retired: it was issued by this
/// instance and is not in flight, or its waiter's block shows that it is done, or
/// the waiter is gone from the table of a transport that has not failed. When a
/// block is told so, [`crate::drain::law_done_means_retired`] says, and what it means
/// that the waiter is gone, [`law_woken_waiter_has_its_fence`].
pub proof fn law_complete_is_never_early(w: FenceWait, g: GpuState, event: FenceWaitEvent)
    requires
        w.next(g, event).0 == FenceWaitStep::Finish(WaitFenceOutcome::Complete),
    ensures
        match w.phase {
            FenceWaitPhase::Registering => !g.queue.failed && g.fences.issued(w.fence_id)
                && exact_retired(g.queue.inflight, w.fence_id),
            FenceWaitPhase::Waiting(_) => event == FenceWaitEvent::Waited(Wake::Completed),
            FenceWaitPhase::Cancelling => g.fences.wait_cancelled(w.block).0 && (event
                == FenceWaitEvent::Drained(Wake::Completed) || event == FenceWaitEvent::Drained(
                Wake::Asleep,
            ) && !g.queue.failed),
            FenceWaitPhase::Ended => false,
        },
{
    if w.phase is Registering {
        let (prep, f) = g.fences.wait_answer(
            g.queue.failed,
            g.queue.inflight,
            w.fence_id,
            w.block,
        );
        if prep is Registered {
            lemma_first_index_exists(f.waiters, FenceWaiter::of_block(w.block));
        }
    }
}

impl GpuState {
    /// Someone who once waited with `w` still does, or its fence has retired, or the
    /// transport has failed.
    pub open spec fn accounts_for(self, w: FenceWaiter) -> bool {
        &&& self.fences.issued(w.fence_id)
        &&& self.fences.waiters.contains(w) || self.queue.failed || exact_retired(
            self.queue.inflight,
            w.fence_id,
        )
    }
}

/// Unless the transport has failed, a waiter that has not given up leaves the
/// table only because its fence has retired. `a` is the transport at any time after
/// the waiter was registered and `b` a later one, between which nobody gave up but
/// whoever waits with `given_up`; step by step this reaches over any number of
/// waiters that give up.
pub proof fn law_woken_waiter_has_its_fence(
    a: GpuState,
    b: GpuState,
    w: FenceWaiter,
    given_up: Option<u64>,
)
    requires
        a.accounts_for(w),
        b.advances(a),
        b.waiters_follow(a, given_up),
        given_up != Some(w.block),
    ensures
        b.accounts_for(w),
        !b.queue.failed && !b.fences.waiters.contains(w) ==> exact_retired(
            b.queue.inflight,
            w.fence_id,
        ),
{
    if !some(a.queue.inflight, InFlight::fences(w.fence_id)) {
        lemma_stays_retired(a, b, w.fence_id);
    }
}

/// Whoever is told to wait for a fence is accounted for from then on.
pub proof fn law_registered_waiter_is_accounted_for(g: GpuState, fence_id: u64, block: u64)
    requires
        g.fences.wait_answer(g.queue.failed, g.queue.inflight, fence_id, block).0
            == FenceWaitPrep::Registered,
    ensures
        ({
            let f = g.fences.wait_answer(g.queue.failed, g.queue.inflight, fence_id, block).1;
            (GpuState { fences: f, ..g }).accounts_for(FenceWaiter { fence_id, block })
        }),
{
    let f = g.fences.wait_answer(g.queue.failed, g.queue.inflight, fence_id, block).1;
    let w = FenceWaiter { fence_id, block };
    assert(f.waiters[g.fences.waiters.len() as int] == w);
}

/// A waiter that was woken is told why it was: a fence that has retired is reported
/// complete whatever became of the transport since, and a failure never is.
pub proof fn law_wake_is_told_apart(w: FenceWait, g: GpuState)
    requires
        w.wf(),
    ensures
        w.phase is Waiting ==> {
            &&& w.next(g, FenceWaitEvent::Waited(Wake::Completed)).0 == FenceWaitStep::Finish(
                WaitFenceOutcome::Complete,
            )
            &&& w.next(g, FenceWaitEvent::Waited(Wake::Failed)).0 == FenceWaitStep::Finish(
                WaitFenceOutcome::Invalid,
            )
        },
        w.phase is Waiting ==> {
            &&& w.next_gone(FenceWaitEvent::Waited(Wake::Completed)).0 == FenceWaitStep::Finish(
                WaitFenceOutcome::Complete,
            )
            &&& w.next_gone(FenceWaitEvent::Waited(Wake::Failed)).0 == FenceWaitStep::Finish(
                WaitFenceOutcome::Invalid,
            )
        },
        w.phase is Cancelling && g.fences.wait_cancelled(w.block).0 ==> {
            &&& w.next(g, FenceWaitEvent::Drained(Wake::Completed)).0 == FenceWaitStep::Finish(
                WaitFenceOutcome::Complete,
            )
            &&& w.next(g, FenceWaitEvent::Drained(Wake::Failed)).0 == FenceWaitStep::Finish(
                WaitFenceOutcome::Invalid,
            )
        },
{
}

/// A poll leaves no waiter behind.
pub proof fn law_poll_leaves_no_waiter(w: FenceWait, g: GpuState)
    requires
        w.phase is Registering,
        w.timeout_ns == 0,
        g.fences.wait_cancelled(w.block).0,
    ensures
        w.next(g, FenceWaitEvent::Drained(Wake::Asleep)).2.fences.waiters == g.fences.waiters,
{
    let (prep, f) = g.fences.wait_answer(g.queue.failed, g.queue.inflight, w.fence_id, w.block);
    if prep is Registered {
        let p = FenceWaiter::of_block(w.block);
        let last = g.fences.waiters.len() as int;
        lemma_first_index_exists(g.fences.waiters, p);
        lemma_first_index(f.waiters, p, last);
    }
}

} // verus!
