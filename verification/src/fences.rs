//! Wire fences: who waits for them.
//!
//! Every submission gets the next wire fence and stays in flight until it has
//! completed. So an id that this instance has issued and that is not in flight
//! has retired. Ids of other instances lie outside the issued range.
use crate::counters::{bump_high_water, raised, FenceCounters};
use crate::gpu::{GpuState, VirtioGpu};
use crate::inflight::{fence_in_flight, Action, InFlight};
use crate::seqs::{any, first_index, lemma_tally_concat, lemma_tally_swap_removed, position, some,
    swap_removed, tally};
use vstd::prelude::*;

verus! {

/// Most waiters.
pub const MAX_FENCE_WAITERS: usize = 64;

/// Most registered events.
pub const MAX_FENCE_EVENTS: usize = 256;

/// Distance between the first ids of two instances.
pub const WIRE_FENCE_INSTANCE_STRIDE: u64 = 0x1_0000_0000;

/// A waiter for a fence.
#[derive(Clone, Copy, Debug, PartialEq, Eq, Structural)]
pub struct FenceWaiter {
    pub fence_id: u64,
    pub block: u64,
}

/// An event to signal once, when a fence retires.
#[derive(Clone, Copy, Debug, PartialEq, Eq, Structural)]
pub struct FenceEventEntry {
    pub fence_id: u64,
    pub event: u64,
}

/// What became of an event registration.
#[derive(Clone, Copy, Debug, PartialEq, Eq, Structural)]
pub enum FenceEventReg {
    /// The table owns the reference and will signal.
    Registered,
    /// The fence has retired; the caller keeps the reference and signals.
    AlreadyComplete,
    /// Not a fence of this instance.
    Invalid,
    TableFull,
    /// This very pair is registered.
    Duplicate,
}

/// What became of a wait.
#[derive(Clone, Copy, Debug, PartialEq, Eq, Structural)]
pub enum FenceWaitPrep {
    /// The fence has retired.
    Complete,
    /// The block will be woken.
    Registered,
    /// Not a fence of this instance.
    Invalid,
    TableFull,
}

/// What a [`FenceTable`] holds.
#[verifier::ext_equal]
pub struct FenceState {
    pub waiters: Seq<FenceWaiter>,
    pub events: Seq<FenceEventEntry>,
    pub next_wire_fence: u64,
    pub wire_fence_base: u64,
    pub counters: FenceCounters,
}

/// Wire fences and who waits for them.
pub struct FenceTable {
    pub waiters: Vec<FenceWaiter>,
    pub events: Vec<FenceEventEntry>,
    /// The next id; 0 is never one.
    pub next_wire_fence: u64,
    /// The first id of this instance.
    pub wire_fence_base: u64,
    pub counters: FenceCounters,
}

impl View for FenceTable {
    type V = FenceState;

    open spec fn view(&self) -> FenceState {
        FenceState {
            waiters: self.waiters@,
            events: self.events@,
            next_wire_fence: self.next_wire_fence,
            wire_fence_base: self.wire_fence_base,
            counters: self.counters,
        }
    }
}

impl FenceWaiter {
    pub open spec fn on(fence_id: u64) -> spec_fn(FenceWaiter) -> bool {
        |w: FenceWaiter| w.fence_id == fence_id
    }

    pub open spec fn of_block(block: u64) -> spec_fn(FenceWaiter) -> bool {
        |w: FenceWaiter| w.block == block
    }
}

impl FenceEventEntry {
    pub open spec fn on(fence_id: u64) -> spec_fn(FenceEventEntry) -> bool {
        |e: FenceEventEntry| e.fence_id == fence_id
    }

    pub open spec fn pair(fence_id: u64, event: u64) -> spec_fn(FenceEventEntry) -> bool {
        |e: FenceEventEntry| e.fence_id == fence_id && e.event == event
    }
}

impl FenceWaiter {
    pub open spec fn pair(fence_id: u64, block: u64) -> spec_fn(FenceWaiter) -> bool {
        |w: FenceWaiter| w.fence_id == fence_id && w.block == block
    }
}

impl FenceEventEntry {
    pub open spec fn of_event(event: u64) -> spec_fn(FenceEventEntry) -> bool {
        |e: FenceEventEntry| e.event == event
    }
}

impl FenceState {
    /// Nobody waits yet, and `base` is the first fence.
    pub open spec fn fresh(base: u64) -> FenceState {
        FenceState {
            waiters: Seq::empty(),
            events: Seq::empty(),
            next_wire_fence: base,
            wire_fence_base: base,
            counters: FenceCounters::zero(),
        }
    }

    /// The id was issued by this instance.
    pub open spec fn issued(self, fence_id: u64) -> bool {
        fence_id != 0 && self.wire_fence_base <= fence_id < self.next_wire_fence
    }

    /// The id lies below this instance's range: it is from an earlier one.
    pub open spec fn foreign(self, fence_id: u64) -> bool {
        fence_id != 0 && fence_id < self.wire_fence_base && fence_id < self.next_wire_fence
    }

    pub open spec fn foreign_counted(self) -> FenceState {
        FenceState {
            counters: FenceCounters {
                foreign_generation: self.counters.foreign_generation.wrapping_add(1),
                ..self.counters
            },
            ..self
        }
    }

    /// The answer to a wait, and the table after it.
    pub open spec fn wait_answer(
        self,
        failed: bool,
        inflight: Seq<InFlight>,
        fence_id: u64,
        block: u64,
    ) -> (FenceWaitPrep, FenceState) {
        if failed || !self.issued(fence_id) {
            (
                FenceWaitPrep::Invalid,
                if !failed && self.foreign(fence_id) {
                    self.foreign_counted()
                } else {
                    self
                },
            )
        } else if !some(inflight, InFlight::fences(fence_id)) {
            (FenceWaitPrep::Complete, self)
        } else if self.waiters.len() >= MAX_FENCE_WAITERS {
            (FenceWaitPrep::TableFull, self)
        } else {
            (
                FenceWaitPrep::Registered,
                FenceState {
                    waiters: self.waiters.push(FenceWaiter { fence_id, block }),
                    counters: FenceCounters {
                        wait_registered: self.counters.wait_registered.wrapping_add(1),
                        ..self.counters
                    },
                    ..self
                },
            )
        }
    }

    /// A waiter gives up: whether it was woken already, and the table after it.
    pub open spec fn wait_cancelled(self, block: u64) -> (bool, FenceState) {
        match first_index(self.waiters, FenceWaiter::of_block(block)) {
            Some(i) => (false, FenceState { waiters: swap_removed(self.waiters, i), ..self }),
            None => (true, self),
        }
    }

    /// The answer to an event registration, and the table after it.
    pub open spec fn event_answer(
        self,
        failed: bool,
        inflight: Seq<InFlight>,
        fence_id: u64,
        event: u64,
    ) -> (FenceEventReg, FenceState) {
        if failed || !self.issued(fence_id) {
            (
                FenceEventReg::Invalid,
                if !failed && self.foreign(fence_id) {
                    self.foreign_counted()
                } else {
                    self
                },
            )
        } else if !some(inflight, InFlight::fences(fence_id)) {
            (
                FenceEventReg::AlreadyComplete,
                FenceState {
                    counters: FenceCounters {
                        event_already_complete: self.counters.event_already_complete.wrapping_add(
                            1,
                        ),
                        ..self.counters
                    },
                    ..self
                },
            )
        } else if some(self.events, FenceEventEntry::pair(fence_id, event)) {
            (
                FenceEventReg::Duplicate,
                FenceState {
                    counters: FenceCounters {
                        event_dup_rejects: self.counters.event_dup_rejects.wrapping_add(1),
                        ..self.counters
                    },
                    ..self
                },
            )
        } else if self.events.len() >= MAX_FENCE_EVENTS {
            (
                FenceEventReg::TableFull,
                FenceState {
                    counters: FenceCounters {
                        event_overflows: self.counters.event_overflows.wrapping_add(1),
                        ..self.counters
                    },
                    ..self
                },
            )
        } else {
            (
                FenceEventReg::Registered,
                FenceState {
                    events: self.events.push(FenceEventEntry { fence_id, event }),
                    counters: FenceCounters {
                        event_high_water: raised(
                            self.counters.event_high_water,
                            self.events.len() + 1,
                        ),
                        event_registers: self.counters.event_registers.wrapping_add(1),
                        ..self.counters
                    },
                    ..self
                },
            )
        }
    }

    /// A registration is taken back: whether it was there, and the table after it.
    pub open spec fn event_left(self, fence_id: u64, event: u64) -> (bool, FenceState) {
        match first_index(self.events, FenceEventEntry::pair(fence_id, event)) {
            Some(i) => (
                true,
                FenceState {
                    events: swap_removed(self.events, i),
                    counters: FenceCounters {
                        event_cancels: self.counters.event_cancels.wrapping_add(1),
                        ..self.counters
                    },
                    ..self
                },
            ),
            None => (false, self),
        }
    }

    /// From index `j` on, every waiter for `fence_id` leaves and its block is
    /// woken.
    pub open spec fn waiters_woken(self, fence_id: u64, j: int) -> (FenceState, Seq<Action>)
        decreases self.waiters.len() - j,
    {
        if j < 0 || j >= self.waiters.len() {
            (self, Seq::empty())
        } else if self.waiters[j].fence_id == fence_id {
            let (t, a) = FenceState {
                waiters: swap_removed(self.waiters, j),
                ..self
            }.waiters_woken(fence_id, j);
            (t, seq![Action::CompleteBlock { block: self.waiters[j].block, copy: 0 }] + a)
        } else {
            self.waiters_woken(fence_id, j + 1)
        }
    }

    /// From index `j` on, every event for `fence_id` leaves and is signalled.
    pub open spec fn events_signalled(self, fence_id: u64, j: int) -> (FenceState, Seq<Action>)
        decreases self.events.len() - j,
    {
        if j < 0 || j >= self.events.len() {
            (self, Seq::empty())
        } else if self.events[j].fence_id == fence_id {
            let (t, a) = FenceState {
                events: swap_removed(self.events, j),
                counters: FenceCounters {
                    event_signals: self.counters.event_signals.wrapping_add(1),
                    ..self.counters
                },
                ..self
            }.events_signalled(fence_id, j);
            (t, seq![Action::SignalAndRelease { event: self.events[j].event }] + a)
        } else {
            self.events_signalled(fence_id, j + 1)
        }
    }

    /// A fence retires: its waiters are woken, then its events signalled.
    pub open spec fn fence_retired(self, fence_id: u64) -> (FenceState, Seq<Action>) {
        let (t, a) = self.waiters_woken(fence_id, 0);
        let (u, b) = t.events_signalled(fence_id, 0);
        (u, a + b)
    }

    /// Every waiter is woken, the last one first.
    pub open spec fn all_woken(self) -> (FenceState, Seq<Action>)
        decreases self.waiters.len(),
    {
        if self.waiters.len() == 0 {
            (self, Seq::empty())
        } else {
            let (t, a) = FenceState { waiters: self.waiters.drop_last(), ..self }.all_woken();
            (t, seq![Action::FailBlock { block: self.waiters.last().block }] + a)
        }
    }

    /// Every event is signalled, the last one first.
    pub open spec fn all_signalled(self) -> (FenceState, Seq<Action>)
        decreases self.events.len(),
    {
        if self.events.len() == 0 {
            (self, Seq::empty())
        } else {
            let (t, a) = FenceState {
                events: self.events.drop_last(),
                counters: FenceCounters {
                    event_signals: self.counters.event_signals.wrapping_add(1),
                    ..self.counters
                },
                ..self
            }.all_signalled();
            (t, seq![Action::SignalAndRelease { event: self.events.last().event }] + a)
        }
    }

    /// Every event is released without a signal.
    pub open spec fn all_released(self, n: nat) -> (FenceState, Seq<Action>)
        decreases n,
    {
        if n == 0 {
            (self, Seq::empty())
        } else {
            let (t, a) = self.all_released((n - 1) as nat);
            (
                FenceState {
                    counters: FenceCounters {
                        event_teardown_drops: t.counters.event_teardown_drops.wrapping_add(1),
                        ..t.counters
                    },
                    ..t
                },
                a.push(Action::Release { event: self.events[n - 1].event }),
            )
        }
    }
}

impl GpuState {
    /// The answer to a wait for a fence, and the table after it.
    pub open spec fn fence_awaited(self, fence_id: u64, block: u64) -> (FenceWaitPrep, FenceState) {
        self.fences.wait_answer(self.queue.failed, self.queue.inflight, fence_id, block)
    }

    /// The answer to an event registration, and the table after it.
    pub open spec fn event_attached(self, fence_id: u64, event: u64) -> (FenceEventReg, FenceState) {
        self.fences.event_answer(self.queue.failed, self.queue.inflight, fence_id, event)
    }
}

impl FenceTable {
    /// A table whose first id is `base`.
    pub fn new(base: u64) -> (r: Self)
        ensures
            r@ == FenceState::fresh(base),
    {
        FenceTable {
            waiters: Vec::with_capacity(MAX_FENCE_WAITERS),
            events: Vec::with_capacity(MAX_FENCE_EVENTS),
            next_wire_fence: base,
            wire_fence_base: base,
            counters: FenceCounters::new(),
        }
    }

    /// A fence has retired: wake and signal everyone registered on it.
    pub(crate) fn retire(&mut self, fence_id: u64, out: &mut Vec<Action>)
        ensures
            final(self)@ == old(self)@.fence_retired(fence_id).0,
            final(out)@ == old(out)@ + old(self)@.fence_retired(fence_id).1,
    {
        let ghost start = self@;
        let ghost log = out@;
        let mut j: usize = 0;
        while j < self.waiters.len()
            invariant
                j <= self.waiters.len(),
                start.waiters_woken(fence_id, 0).0 == self@.waiters_woken(fence_id, j as int).0,
                log + start.waiters_woken(fence_id, 0).1 =~= out@ + self@.waiters_woken(
                    fence_id,
                    j as int,
                ).1,
            decreases self.waiters.len() - j,
        {
            if self.waiters[j].fence_id == fence_id {
                let w: FenceWaiter = self.waiters.swap_remove(j);
                out.push(Action::CompleteBlock { block: w.block, copy: 0 });
            } else {
                j += 1;
            }
        }
        let ghost mid = self@;
        let ghost mid_log = out@;
        j = 0;
        while j < self.events.len()
            invariant
                j <= self.events.len(),
                mid.events_signalled(fence_id, 0).0 == self@.events_signalled(fence_id, j as int).0,
                mid_log + mid.events_signalled(fence_id, 0).1 =~= out@ + self@.events_signalled(
                    fence_id,
                    j as int,
                ).1,
            decreases self.events.len() - j,
        {
            if self.events[j].fence_id == fence_id {
                let e: FenceEventEntry = self.events.swap_remove(j);
                self.counters.event_signals = self.counters.event_signals.wrapping_add(1);
                out.push(Action::SignalAndRelease { event: e.event });
            } else {
                j += 1;
            }
        }
    }

    /// No fence will retire any more: wake every waiter.
    pub(crate) fn wake_all(&mut self, out: &mut Vec<Action>)
        ensures
            final(self)@ == old(self)@.all_woken().0,
            final(out)@ == old(out)@ + old(self)@.all_woken().1,
    {
        let ghost start = self@;
        let ghost log = out@;
        loop
            invariant
                start.all_woken().0 == self@.all_woken().0,
                log + start.all_woken().1 =~= out@ + self@.all_woken().1,
            ensures
                self@ == start.all_woken().0,
                out@ =~= log + start.all_woken().1,
            decreases self.waiters.len(),
        {
            match self.waiters.pop() {
                Some(w) => {
                    out.push(Action::FailBlock { block: w.block });
                },
                None => {
                    break ;
                },
            }
        }
    }

    /// No fence will retire any more: signal every event.
    pub(crate) fn signal_all(&mut self, out: &mut Vec<Action>)
        ensures
            final(self)@ == old(self)@.all_signalled().0,
            final(out)@ == old(out)@ + old(self)@.all_signalled().1,
    {
        let ghost start = self@;
        let ghost log = out@;
        loop
            invariant
                start.all_signalled().0 == self@.all_signalled().0,
                log + start.all_signalled().1 =~= out@ + self@.all_signalled().1,
            ensures
                self@ == start.all_signalled().0,
                out@ =~= log + start.all_signalled().1,
            decreases self.events.len(),
        {
            match self.events.pop() {
                Some(e) => {
                    self.counters.event_signals = self.counters.event_signals.wrapping_add(1);
                    out.push(Action::SignalAndRelease { event: e.event });
                },
                None => {
                    break ;
                },
            }
        }
    }

    /// The instance ends: release every event without signalling it, since its
    /// fence never retired.
    pub(crate) fn release_all(&mut self, out: &mut Vec<Action>)
        ensures
            final(self)@ == (FenceState {
                events: Seq::<FenceEventEntry>::empty(),
                ..old(self)@.all_released(old(self)@.events.len()).0
            }),
            final(out)@ == old(out)@ + old(self)@.all_released(old(self)@.events.len()).1,
    {
        let ghost start = self@;
        let ghost log = out@;
        let mut i: usize = 0;
        while i < self.events.len()
            invariant
                i <= self.events.len(),
                self@ == start.all_released(i as nat).0,
                self@.events == start.events,
                out@ =~= log + start.all_released(i as nat).1,
            decreases self.events.len() - i,
        {
            out.push(Action::Release { event: self.events[i].event });
            self.counters.event_teardown_drops = self.counters.event_teardown_drops.wrapping_add(1);
            i += 1;
        }
        self.events.clear();
    }
}

impl VirtioGpu {
    /// Prepare to wait for a fence: registers `block` if the fence is in flight.
    pub fn fence_wait_prepare(&mut self, fence_id: u64, block: u64) -> (r: FenceWaitPrep)
        ensures
            r == old(self)@.fence_awaited(fence_id, block).0,
            final(self)@ == (GpuState {
                fences: old(self)@.fence_awaited(fence_id, block).1,
                ..old(self)@
            }),
            old(self)@.wf() ==> final(self)@.wf(),
            final(self)@.follows(old(self)@),
    {
        if self.queue.failed || fence_id == 0 || fence_id >= self.fences.next_wire_fence {
            return FenceWaitPrep::Invalid;
        }
        if fence_id < self.fences.wire_fence_base {
            self.fences.counters.foreign_generation =
                self.fences.counters.foreign_generation.wrapping_add(1);
            return FenceWaitPrep::Invalid;
        }
        if !fence_in_flight(&self.queue.inflight, fence_id) {
            return FenceWaitPrep::Complete;
        }
        if self.fences.waiters.len() >= MAX_FENCE_WAITERS {
            return FenceWaitPrep::TableFull;
        }
        self.fences.waiters.push(FenceWaiter { fence_id, block });
        self.fences.counters.wait_registered = self.fences.counters.wait_registered.wrapping_add(1);
        proof {
            let before = old(self)@.fences.waiters;
            assert forall|w: FenceWaiter| #[trigger] before.contains(w) implies
                self@.fences.waiters.contains(w) by {
                let k = choose|k: int| 0 <= k < before.len() && before[k] == w;
                assert(self@.fences.waiters[k] == w);
            }
        }
        FenceWaitPrep::Registered
    }

    /// Give up a wait. `true` if the block was woken already: the fence has retired,
    /// or the transport has failed.
    pub fn fence_wait_cancel(&mut self, block: u64) -> (r: bool)
        ensures
            r == old(self)@.fences.wait_cancelled(block).0,
            final(self)@ == (GpuState {
                fences: old(self)@.fences.wait_cancelled(block).1,
                ..old(self)@
            }),
            old(self)@.wf() ==> final(self)@.wf(),
            final(self)@.advances(old(self)@),
            final(self)@.keeps_barrier(old(self)@),
            final(self)@.order_follows(old(self)@),
            final(self)@.waiters_follow(old(self)@, Some(block)),
    {
        let same = |w: &FenceWaiter| -> (b: bool)
            ensures
                b == FenceWaiter::of_block(block)(*w),
            { w.block == block };
        match position(&self.fences.waiters, same, Ghost(FenceWaiter::of_block(block))) {
            Some(i) => {
                let _ = self.fences.waiters.swap_remove(i);
                proof {
                    let before = old(self)@.fences.waiters;
                    lemma_swap_removed_contains(before, i as int);
                    assert(FenceWaiter::of_block(block)(before[i as int]));
                    assert forall|k: int| 0 <= k < self@.fences.waiters.len() implies (
                    #[trigger] self@.fences.waiters[k]) == before[if k == i {
                        before.len() - 1
                    } else {
                        k
                    }] by {}
                }
                false
            },
            None => true,
        }
    }

    /// Register an event to be signalled once when the fence retires. The table
    /// owns the caller's reference only if the answer is `Registered`.
    pub fn fence_event_register(&mut self, fence_id: u64, event: u64) -> (r: FenceEventReg)
        ensures
            r == old(self)@.event_attached(fence_id, event).0,
            final(self)@ == (GpuState {
                fences: old(self)@.event_attached(fence_id, event).1,
                ..old(self)@
            }),
            old(self)@.wf() ==> final(self)@.wf(),
            final(self)@.follows(old(self)@),
    {
        if self.queue.failed || fence_id == 0 || fence_id >= self.fences.next_wire_fence {
            return FenceEventReg::Invalid;
        }
        if fence_id < self.fences.wire_fence_base {
            self.fences.counters.foreign_generation =
                self.fences.counters.foreign_generation.wrapping_add(1);
            return FenceEventReg::Invalid;
        }
        if !fence_in_flight(&self.queue.inflight, fence_id) {
            self.fences.counters.event_already_complete =
                self.fences.counters.event_already_complete.wrapping_add(1);
            return FenceEventReg::AlreadyComplete;
        }
        let same = |e: &FenceEventEntry| -> (b: bool)
            ensures
                b == FenceEventEntry::pair(fence_id, event)(*e),
            { e.fence_id == fence_id && e.event == event };
        if any(&self.fences.events, same, Ghost(FenceEventEntry::pair(fence_id, event))) {
            self.fences.counters.event_dup_rejects =
                self.fences.counters.event_dup_rejects.wrapping_add(1);
            return FenceEventReg::Duplicate;
        }
        if self.fences.events.len() >= MAX_FENCE_EVENTS {
            self.fences.counters.event_overflows =
                self.fences.counters.event_overflows.wrapping_add(1);
            return FenceEventReg::TableFull;
        }
        self.fences.events.push(FenceEventEntry { fence_id, event });
        bump_high_water(&mut self.fences.counters.event_high_water, self.fences.events.len());
        self.fences.counters.event_registers = self.fences.counters.event_registers.wrapping_add(1);
        FenceEventReg::Registered
    }

    /// Take back a registration. `true` if it was there: the caller has its
    /// reference back.
    pub fn fence_event_unregister(&mut self, fence_id: u64, event: u64) -> (r: bool)
        ensures
            r == old(self)@.fences.event_left(fence_id, event).0,
            final(self)@ == (GpuState {
                fences: old(self)@.fences.event_left(fence_id, event).1,
                ..old(self)@
            }),
            old(self)@.wf() ==> final(self)@.wf(),
            final(self)@.follows(old(self)@),
    {
        let same = |e: &FenceEventEntry| -> (b: bool)
            ensures
                b == FenceEventEntry::pair(fence_id, event)(*e),
            { e.fence_id == fence_id && e.event == event };
        match position(&self.fences.events, same, Ghost(FenceEventEntry::pair(fence_id, event))) {
            Some(i) => {
                let _ = self.fences.events.swap_remove(i);
                proof {
                    let before = old(self)@.fences.events;
                    assert forall|k: int| 0 <= k < self@.fences.events.len() implies (
                    #[trigger] self@.fences.events[k]) == before[if k == i {
                        before.len() - 1
                    } else {
                        k
                    }] by {}
                }
                self.fences.counters.event_cancels =
                    self.fences.counters.event_cancels.wrapping_add(1);
                true
            },
            None => false,
        }
    }

    /// Registered events.
    pub fn fence_events_live(&self) -> (r: u32)
        ensures
            r == self@.fences.events.len() as u32,
    {
        self.fences.events.len() as u32
    }

    /// Every submission so far carries a fence below this.
    pub fn wire_fence_watermark(&self) -> (r: u64)
        ensures
            r == self@.fences.next_wire_fence,
    {
        self.fences.next_wire_fence
    }
}

/// An id from before this instance never counts as retired.
pub proof fn law_foreign_fence_is_invalid(
    f: FenceState,
    failed: bool,
    inflight: Seq<InFlight>,
    fence_id: u64,
    handle: u64,
)
    requires
        f.foreign(fence_id),
    ensures
        f.wait_answer(failed, inflight, fence_id, handle).0 == FenceWaitPrep::Invalid,
        f.event_answer(failed, inflight, fence_id, handle).0 == FenceEventReg::Invalid,
{
}

/// When a fence retires, no waiter and no event on it stays behind, and those on
/// other fences all stay.
pub proof fn law_retired_fence_leaves_nobody(f: FenceState, fence_id: u64)
    ensures
        !some(f.fence_retired(fence_id).0.waiters, FenceWaiter::on(fence_id)),
        !some(f.fence_retired(fence_id).0.events, FenceEventEntry::on(fence_id)),
        f.fence_retired(fence_id).0.next_wire_fence == f.next_wire_fence,
        f.fence_retired(fence_id).0.wire_fence_base == f.wire_fence_base,
        forall|w: FenceWaiter|
            w.fence_id != fence_id ==> (f.waiters.contains(w)
                <==> f.fence_retired(fence_id).0.waiters.contains(w)),
        forall|e: FenceEventEntry|
            e.fence_id != fence_id ==> (f.events.contains(e)
                <==> f.fence_retired(fence_id).0.events.contains(e)),
{
    lemma_waiters_woken(f, fence_id, 0);
    let t = f.waiters_woken(fence_id, 0).0;
    lemma_events_signalled(t, fence_id, 0);
}

proof fn lemma_waiters_woken(f: FenceState, fence_id: u64, j: int)
    requires
        0 <= j <= f.waiters.len(),
        forall|k: int| 0 <= k < j ==> (#[trigger] f.waiters[k]).fence_id != fence_id,
    ensures
        ({
            let t = f.waiters_woken(fence_id, j).0;
            &&& !some(t.waiters, FenceWaiter::on(fence_id))
            &&& t.events == f.events
            &&& t.next_wire_fence == f.next_wire_fence
            &&& t.wire_fence_base == f.wire_fence_base
            &&& forall|w: FenceWaiter|
                w.fence_id != fence_id ==> (f.waiters.contains(w) <==> t.waiters.contains(w))
        }),
    decreases f.waiters.len() - j,
{
    if j < f.waiters.len() {
        if f.waiters[j].fence_id == fence_id {
            let g = FenceState { waiters: swap_removed(f.waiters, j), ..f };
            lemma_swap_removed_contains(f.waiters, j);
            lemma_waiters_woken(g, fence_id, j);
        } else {
            lemma_waiters_woken(f, fence_id, j + 1);
        }
    }
}

proof fn lemma_events_signalled(f: FenceState, fence_id: u64, j: int)
    requires
        0 <= j <= f.events.len(),
        forall|k: int| 0 <= k < j ==> (#[trigger] f.events[k]).fence_id != fence_id,
    ensures
        ({
            let t = f.events_signalled(fence_id, j).0;
            &&& !some(t.events, FenceEventEntry::on(fence_id))
            &&& t.waiters == f.waiters
            &&& t.next_wire_fence == f.next_wire_fence
            &&& t.wire_fence_base == f.wire_fence_base
            &&& forall|e: FenceEventEntry|
                e.fence_id != fence_id ==> (f.events.contains(e) <==> t.events.contains(e))
        }),
    decreases f.events.len() - j,
{
    if j < f.events.len() {
        if f.events[j].fence_id == fence_id {
            let g = FenceState {
                events: swap_removed(f.events, j),
                counters: FenceCounters {
                    event_signals: f.counters.event_signals.wrapping_add(1),
                    ..f.counters
                },
                ..f
            };
            lemma_swap_removed_contains(f.events, j);
            lemma_events_signalled(g, fence_id, j);
        } else {
            lemma_events_signalled(f, fence_id, j + 1);
        }
    }
}

proof fn lemma_swap_removed_contains<T>(s: Seq<T>, i: int)
    requires
        0 <= i < s.len(),
    ensures
        forall|x: T| x != s[i] ==> (s.contains(x) <==> swap_removed(s, i).contains(x)),
{
    let t = swap_removed(s, i);
    assert forall|x: T| x != s[i] implies (s.contains(x) <==> t.contains(x)) by {
        if s.contains(x) {
            let k = choose|k: int| 0 <= k < s.len() && s[k] == x;
            let dst = if k == s.len() - 1 {
                i
            } else {
                k
            };
            assert(t[dst] == x);
        }
        if t.contains(x) {
            let k = choose|k: int| 0 <= k < t.len() && t[k] == x;
        }
    }
}

/// Ids of two instances never meet, as long as neither uses up its stride.
pub proof fn law_instances_do_not_share_fences(f: FenceState, g: FenceState, fence_id: u64)
    requires
        f.wire_fence_base + WIRE_FENCE_INSTANCE_STRIDE <= g.wire_fence_base,
        f.next_wire_fence <= f.wire_fence_base + WIRE_FENCE_INSTANCE_STRIDE,
    ensures
        !(f.issued(fence_id) && g.issued(fence_id)),
{
}

/// When a fence retires, every waiter on it is woken and every event on it is
/// signalled, each once for every registration and no other.
pub proof fn law_retired_fence_reaches_each_once(
    f: FenceState,
    fence_id: u64,
    block: u64,
    event: u64,
)
    ensures
        ({
            let a = f.fence_retired(fence_id).1;
            &&& tally(a, Action::completes(block)) == tally(
                f.waiters,
                FenceWaiter::pair(fence_id, block),
            )
            &&& tally(a, Action::signals(event)) == tally(
                f.events,
                FenceEventEntry::pair(fence_id, event),
            )
        }),
{
    let (t, a) = f.waiters_woken(fence_id, 0);
    let (u, b) = t.events_signalled(fence_id, 0);
    lemma_waiters_woken(f, fence_id, 0);
    assert(f.waiters.take(0) =~= Seq::empty());
    assert(t.events.take(0) =~= Seq::empty());
    lemma_woken_once(f, fence_id, block, event, 0);
    lemma_signalled_once(t, fence_id, block, event, 0);
    lemma_tally_concat(a, b, Action::completes(block));
    lemma_tally_concat(a, b, Action::signals(event));
}

proof fn lemma_woken_once(f: FenceState, fence_id: u64, block: u64, event: u64, j: int)
    requires
        0 <= j <= f.waiters.len(),
        tally(f.waiters.take(j), FenceWaiter::pair(fence_id, block)) == 0,
    ensures
        ({
            let a = f.waiters_woken(fence_id, j).1;
            &&& tally(a, Action::completes(block)) == tally(
                f.waiters,
                FenceWaiter::pair(fence_id, block),
            )
            &&& tally(a, Action::signals(event)) == 0
        }),
    decreases f.waiters.len() - j,
{
    let p = FenceWaiter::pair(fence_id, block);
    if j < f.waiters.len() {
        if f.waiters[j].fence_id == fence_id {
            let g = FenceState { waiters: swap_removed(f.waiters, j), ..f };
            let first = seq![Action::CompleteBlock { block: f.waiters[j].block, copy: 0 }];
            let rest = g.waiters_woken(fence_id, j).1;
            assert(g.waiters.take(j) =~= f.waiters.take(j));
            lemma_woken_once(g, fence_id, block, event, j);
            lemma_tally_swap_removed(f.waiters, j, p);
            lemma_tally_concat(first, rest, Action::completes(block));
            lemma_tally_concat(first, rest, Action::signals(event));
            lemma_tally_one(first[0], Action::completes(block));
            lemma_tally_one(first[0], Action::signals(event));
        } else {
            assert(f.waiters.take(j + 1).drop_last() =~= f.waiters.take(j));
            lemma_woken_once(f, fence_id, block, event, j + 1);
        }
    } else {
        assert(f.waiters.take(j) =~= f.waiters);
    }
}

proof fn lemma_signalled_once(f: FenceState, fence_id: u64, block: u64, event: u64, j: int)
    requires
        0 <= j <= f.events.len(),
        tally(f.events.take(j), FenceEventEntry::pair(fence_id, event)) == 0,
    ensures
        ({
            let a = f.events_signalled(fence_id, j).1;
            &&& tally(a, Action::signals(event)) == tally(
                f.events,
                FenceEventEntry::pair(fence_id, event),
            )
            &&& tally(a, Action::completes(block)) == 0
        }),
    decreases f.events.len() - j,
{
    let p = FenceEventEntry::pair(fence_id, event);
    if j < f.events.len() {
        if f.events[j].fence_id == fence_id {
            let g = FenceState {
                events: swap_removed(f.events, j),
                counters: FenceCounters {
                    event_signals: f.counters.event_signals.wrapping_add(1),
                    ..f.counters
                },
                ..f
            };
            let first = seq![Action::SignalAndRelease { event: f.events[j].event }];
            let rest = g.events_signalled(fence_id, j).1;
            assert(g.events.take(j) =~= f.events.take(j));
            lemma_signalled_once(g, fence_id, block, event, j);
            lemma_tally_swap_removed(f.events, j, p);
            lemma_tally_concat(first, rest, Action::completes(block));
            lemma_tally_concat(first, rest, Action::signals(event));
            lemma_tally_one(first[0], Action::completes(block));
            lemma_tally_one(first[0], Action::signals(event));
        } else {
            assert(f.events.take(j + 1).drop_last() =~= f.events.take(j));
            lemma_signalled_once(f, fence_id, block, event, j + 1);
        }
    } else {
        assert(f.events.take(j) =~= f.events);
    }
}

pub(crate) proof fn lemma_tally_one(a: Action, p: spec_fn(Action) -> bool)
    ensures
        tally(seq![a], p) == if p(a) {
            1nat
        } else {
            0nat
        },
{
    assert(seq![a].drop_last() =~= Seq::empty());
    assert(tally(seq![a].drop_last(), p) == 0);
    assert(seq![a].last() == a);
}

} // verus!
