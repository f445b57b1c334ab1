//! Registered present streams.
//!
//! A context registers one stream. Submissions tagged with the stream advance
//! its submitted value, and its retired value once the host has run them. Other
//! queues wait on a value of a stream by a boundary that names the stream's
//! handle, which dies with the registration.
use crate::counters::{bump_high_water, raised, StreamCounters};
use crate::error::VirtioError;
use crate::gpu::{GpuState, VirtioGpu};
use crate::inflight::{async_retired_up_to, retired_up_to, PresentStreamRetire, RetireDomain};
use crate::owner::{same_owner, DeviceOwner};
use crate::present_stream::{advance_retired, boundary_of, decode_present_stream_boundary,
    encode_present_stream_boundary, handle_index, handle_of, index_of, later, marker_lookahead,
    slot_handle, stream_of, GENERATION_MAX, MAX_STREAMS};
use crate::seqs::{any, first_index, position, some};
use crate::tables::ContextSlot;
use vstd::prelude::*;

verus! {

/// One registered stream, or a free slot.
#[derive(Clone, Copy, Debug)]
pub struct PresentStreamSlot {
    pub live: bool,
    pub owner: Option<DeviceOwner>,
    pub ctx_id: u32,
    /// The ring of its submissions; 0 until the first.
    pub ring_idx: u8,
    /// Registrations that this slot has seen.
    pub generation: u32,
    /// The capability handed out at registration.
    pub cookie: u64,
    pub creator_process: usize,
    pub submitted_value: u32,
    pub retired_value: u32,
}

impl PresentStreamSlot {
    /// A free slot that has seen `generation` registrations.
    pub open spec fn free(generation: u32) -> PresentStreamSlot {
        PresentStreamSlot {
            live: false,
            owner: None,
            ctx_id: 0,
            ring_idx: 0,
            generation,
            cookie: 0,
            creator_process: 0,
            submitted_value: 0,
            retired_value: 0,
        }
    }

    pub fn empty(generation: u32) -> (r: Self)
        ensures
            r == Self::free(generation),
    {
        PresentStreamSlot {
            live: false,
            owner: None,
            ctx_id: 0,
            ring_idx: 0,
            generation,
            cookie: 0,
            creator_process: 0,
            submitted_value: 0,
            retired_value: 0,
        }
    }

    pub open spec fn wf(self) -> bool {
        &&& self.generation <= GENERATION_MAX
        &&& self.live ==> self.generation > 0
    }

    /// The slot at `index` is the stream `handle`.
    pub open spec fn is_stream(self, index: int, handle: u32) -> bool {
        self.live && handle_of(self.generation, index) == handle
    }

    /// The stream has retired `value`. A dead stream has retired nothing.
    pub open spec fn is_ready(self, index: int, handle: u32, value: u32) -> bool {
        self.is_stream(index, handle) && self.retired_value >= value
    }

    pub open spec fn of_context(owner: DeviceOwner, ctx_id: u32) -> spec_fn(
        PresentStreamSlot,
    ) -> bool {
        |s: PresentStreamSlot| s.live && s.owner == Some(owner) && s.ctx_id == ctx_id
    }

    pub open spec fn named(owner: DeviceOwner, ctx_id: u32, cookie: u64) -> spec_fn(
        PresentStreamSlot,
    ) -> bool {
        |s: PresentStreamSlot|
            s.live && s.owner == Some(owner) && s.ctx_id == ctx_id && s.cookie == cookie
    }

    pub open spec fn marked(ctx_id: u32, cookie: u64, creator_process: usize) -> spec_fn(
        PresentStreamSlot,
    ) -> bool {
        |s: PresentStreamSlot|
            s.live && s.ctx_id == ctx_id && s.cookie == cookie && s.creator_process
                == creator_process
    }

    pub open spec fn anyone() -> spec_fn(PresentStreamSlot) -> bool {
        |s: PresentStreamSlot| true
    }

    pub open spec fn owned_by(owner: Option<DeviceOwner>) -> spec_fn(PresentStreamSlot) -> bool {
        |s: PresentStreamSlot| s.owner == owner
    }

    pub open spec fn on_context(owner: Option<DeviceOwner>, ctx_id: u32) -> spec_fn(
        PresentStreamSlot,
    ) -> bool {
        |s: PresentStreamSlot| s.owner == owner && s.ctx_id == ctx_id
    }

    pub open spec fn reusable() -> spec_fn(PresentStreamSlot) -> bool {
        |s: PresentStreamSlot| !s.live && s.generation < GENERATION_MAX
    }
}

/// What a [`StreamTable`] holds.
#[verifier::ext_equal]
pub struct StreamState {
    pub slots: Seq<PresentStreamSlot>,
    pub next_cookie: u64,
    pub counters: StreamCounters,
}

/// The registered streams.
pub struct StreamTable {
    pub slots: Vec<PresentStreamSlot>,
    /// The next capability; 0 is never one.
    pub next_cookie: u64,
    pub counters: StreamCounters,
}

impl View for StreamTable {
    type V = StreamState;

    open spec fn view(&self) -> StreamState {
        StreamState {
            slots: self.slots@,
            next_cookie: self.next_cookie,
            counters: self.counters,
        }
    }
}

/// Live streams in `s`.
pub open spec fn live_count(s: Seq<PresentStreamSlot>) -> nat
    decreases s.len(),
{
    if s.len() == 0 {
        0
    } else {
        live_count(s.drop_last()) + if s.last().live {
            1nat
        } else {
            0nat
        }
    }
}

impl StreamState {
    /// No stream is registered yet.
    pub open spec fn fresh() -> StreamState {
        StreamState {
            slots: Seq::new(MAX_STREAMS as nat, |i: int| PresentStreamSlot::free(0)),
            next_cookie: 1,
            counters: StreamCounters::zero(),
        }
    }

    /// The count of live streams is right, and every live stream has a capability
    /// that was handed out, and to no other.
    pub open spec fn wf(self) -> bool {
        &&& self.slots.len() == MAX_STREAMS
        &&& forall|i: int| 0 <= i < self.slots.len() ==> (#[trigger] self.slots[i]).wf()
        &&& self.counters.live == live_count(self.slots)
        &&& self.next_cookie > 0
        &&& forall|i: int|
            0 <= i < self.slots.len() && (#[trigger] self.slots[i]).live ==> 0
                < self.slots[i].cookie < self.next_cookie
        &&& forall|i: int, j: int|
            0 <= i < j < self.slots.len() && (#[trigger] self.slots[i]).live && (
            #[trigger] self.slots[j]).live ==> self.slots[i].cookie != self.slots[j].cookie
    }

    pub open spec fn rejected(self) -> StreamState {
        StreamState {
            counters: StreamCounters {
                rejects: self.counters.rejects.wrapping_add(1),
                ..self.counters
            },
            ..self
        }
    }

    /// The stream in slot `i` dies; the slot keeps its generation.
    pub open spec fn slot_retired(self, i: int) -> StreamState {
        StreamState {
            slots: self.slots.update(i, PresentStreamSlot::free(self.slots[i].generation)),
            counters: StreamCounters {
                live: if self.counters.live > 0 {
                    (self.counters.live - 1) as u32
                } else {
                    0
                },
                ..self.counters
            },
            ..self
        }
    }

    /// `handle` names a live stream.
    pub open spec fn handle_live(self, handle: u32) -> bool {
        match index_of(handle) {
            Some(i) => self.slots[i].is_stream(i, handle),
            None => false,
        }
    }

    /// `boundary` names a live stream. A wire fence does not.
    pub open spec fn boundary_live(self, boundary: u64) -> bool {
        match stream_of(boundary) {
            Some((handle, _)) => self.handle_live(handle),
            None => false,
        }
    }

    /// A stream dependency that is a wire fence, or names a live stream.
    pub open spec fn not_dead(self, boundary: u64) -> bool {
        stream_of(boundary) is None || self.boundary_live(boundary)
    }

    pub open spec fn registered(
        self,
        i: int,
        owner: DeviceOwner,
        ctx_id: u32,
        creator_process: usize,
    ) -> StreamState {
        StreamState {
            slots: self.slots.update(
                i,
                PresentStreamSlot {
                    live: true,
                    owner: Some(owner),
                    ctx_id,
                    ring_idx: 0,
                    generation: (self.slots[i].generation + 1) as u32,
                    cookie: self.next_cookie,
                    creator_process,
                    submitted_value: 0,
                    retired_value: 0,
                },
            ),
            next_cookie: (self.next_cookie + 1) as u64,
            counters: StreamCounters {
                live: (self.counters.live + 1) as u32,
                high_water: raised(self.counters.high_water, (self.counters.live + 1) as nat),
                registers: self.counters.registers.wrapping_add(1),
                ..self.counters
            },
        }
    }

    /// The answer to a request for a stream, and the table after it.
    pub open spec fn register_answer(
        self,
        failed: bool,
        contexts: Seq<ContextSlot>,
        owner: DeviceOwner,
        ctx_id: u32,
        creator_process: usize,
    ) -> (Result<u64, VirtioError>, StreamState) {
        if failed || ctx_id == 0 || creator_process == 0 {
            (Err(VirtioError::DeviceError), self.rejected())
        } else if !some(contexts, ContextSlot::named(Some(owner), ctx_id)) {
            (Err(VirtioError::NotOwned), self.rejected())
        } else if some(self.slots, PresentStreamSlot::of_context(owner, ctx_id)) {
            (Err(VirtioError::DeviceError), self.rejected())
        } else {
            match first_index(self.slots, PresentStreamSlot::reusable()) {
                Some(i) => if self.next_cookie == u64::MAX {
                    (Err(VirtioError::OutOfMemory), self.rejected())
                } else {
                    (Ok(self.next_cookie), self.registered(i, owner, ctx_id, creator_process))
                },
                None => (Err(VirtioError::OutOfMemory), self.rejected()),
            }
        }
    }

    /// The answer to a marker, and the table after it.
    pub open spec fn marker_answer(
        self,
        ctx_id: u32,
        value: u32,
        cookie: u64,
        creator_process: usize,
    ) -> (Option<u64>, StreamState) {
        match first_index(self.slots, PresentStreamSlot::marked(ctx_id, cookie, creator_process)) {
            Some(i) => if ctx_id == 0 || value == 0 || cookie == 0 || creator_process == 0 {
                (None, self.rejected())
            } else {
                let slot = self.slots[i];
                let ahead = value - slot.submitted_value;
                (
                    Some(boundary_of(handle_of(slot.generation, i) as u32, value)),
                    StreamState {
                        counters: StreamCounters {
                            markers: self.counters.markers.wrapping_add(1),
                            marker_ahead: if ahead > 0 {
                                self.counters.marker_ahead.wrapping_add(1)
                            } else {
                                self.counters.marker_ahead
                            },
                            marker_ahead_high_water: if ahead > 0 {
                                raised(self.counters.marker_ahead_high_water, ahead as nat)
                            } else {
                                self.counters.marker_ahead_high_water
                            },
                            ..self.counters
                        },
                        ..self
                    },
                )
            },
            None => (None, self.rejected()),
        }
    }

    /// The answer to a submission's tag; a refused one is counted.
    pub open spec fn tag_answer(
        self,
        failed: bool,
        owner: DeviceOwner,
        ctx_id: u32,
        ring_idx: u32,
        cookie: u64,
        value: u32,
    ) -> Result<PresentStreamRetire, VirtioError> {
        if failed || ctx_id == 0 || cookie == 0 || value == 0 || ring_idx == 0 || ring_idx > 255 {
            Err(VirtioError::DeviceError)
        } else {
            match first_index(self.slots, PresentStreamSlot::named(owner, ctx_id, cookie)) {
                Some(i) => {
                    let slot = self.slots[i];
                    if (slot.ring_idx != 0 && slot.ring_idx != ring_idx) || value
                        <= slot.submitted_value {
                        Err(VirtioError::DeviceError)
                    } else {
                        Ok(
                            PresentStreamRetire {
                                handle: handle_of(slot.generation, i) as u32,
                                value,
                            },
                        )
                    }
                },
                None => Err(VirtioError::NotOwned),
            }
        }
    }

    /// The table after a tagged submission was queued.
    pub open spec fn tag_committed(self, retire: PresentStreamRetire, ring_idx: u32) -> StreamState {
        match index_of(retire.handle) {
            Some(i) => {
                let slot = self.slots[i];
                if slot.is_stream(i, retire.handle) && (slot.ring_idx == 0 || slot.ring_idx
                    == ring_idx % 256) && retire.value > slot.submitted_value {
                    StreamState {
                        slots: self.slots.update(
                            i,
                            PresentStreamSlot {
                                ring_idx: (ring_idx % 256) as u8,
                                submitted_value: retire.value,
                                ..slot
                            },
                        ),
                        counters: StreamCounters {
                            tags: self.counters.tags.wrapping_add(1),
                            ..self.counters
                        },
                        ..self
                    }
                } else {
                    self.rejected()
                }
            },
            None => self.rejected(),
        }
    }

    /// The table after a tagged submission ran: the stream's retired value rises
    /// to it. A dead or later stream in the slot is left alone.
    pub open spec fn value_retired(self, retire: PresentStreamRetire) -> StreamState {
        match index_of(retire.handle) {
            Some(i) => if self.slots[i].is_stream(i, retire.handle) && retire.value
                > self.slots[i].retired_value {
                StreamState {
                    slots: self.slots.update(
                        i,
                        PresentStreamSlot { retired_value: retire.value, ..self.slots[i] },
                    ),
                    counters: StreamCounters {
                        retires: self.counters.retires.wrapping_add(1),
                        ..self.counters
                    },
                    ..self
                }
            } else {
                self
            },
            None => self,
        }
    }

    /// The table after the host refused a tagged submission: its stream dies.
    pub open spec fn value_failed(self, retire: PresentStreamRetire) -> StreamState {
        if self.handle_live(retire.handle) {
            self.slot_retired(index_of(retire.handle)->0).rejected()
        } else {
            self
        }
    }

    /// The table after every live stream below slot `n` that `p` picks has died.
    pub open spec fn purged(self, p: spec_fn(PresentStreamSlot) -> bool, n: nat) -> StreamState
        decreases n,
    {
        if n == 0 {
            self
        } else {
            let t = self.purged(p, (n - 1) as nat);
            if t.slots[n - 1].live && p(t.slots[n - 1]) {
                t.slot_retired(n - 1)
            } else {
                t
            }
        }
    }
}

impl GpuState {
    /// The dependency is met: the stream has retired the value, or every wire
    /// fence below the watermark has retired.
    pub open spec fn boundary_ready(self, boundary: u64) -> bool {
        match stream_of(boundary) {
            Some((handle, value)) => match index_of(handle) {
                Some(i) => self.streams.slots[i].is_ready(i, handle, value),
                None => false,
            },
            None => retired_up_to(self.queue.inflight, boundary, RetireDomain::IncludingGpu),
        }
    }
}

impl GpuState {
    /// The answer to a request for a stream, and the streams after it.
    pub open spec fn stream_registered(
        self,
        owner: DeviceOwner,
        ctx_id: u32,
        creator_process: usize,
    ) -> (Result<u64, VirtioError>, StreamState) {
        self.streams.register_answer(
            self.queue.failed,
            self.tables.contexts,
            owner,
            ctx_id,
            creator_process,
        )
    }

    /// The answer to a submission's tag.
    pub open spec fn tag_checked(
        self,
        owner: DeviceOwner,
        ctx_id: u32,
        ring_idx: u32,
        cookie: u64,
        value: u32,
    ) -> Result<PresentStreamRetire, VirtioError> {
        self.streams.tag_answer(self.queue.failed, owner, ctx_id, ring_idx, cookie, value)
    }

    /// What stands for a boundary whose stream is dead: everything sent so far.
    pub open spec fn boundary_replacement(self, boundary: u64) -> Option<u64> {
        if self.streams.not_dead(boundary) {
            None
        } else {
            Some(self.fences.next_wire_fence)
        }
    }
}

pub(crate) proof fn lemma_live_count_update(
    s: Seq<PresentStreamSlot>,
    i: int,
    slot: PresentStreamSlot,
)
    requires
        0 <= i < s.len(),
    ensures
        live_count(s.update(i, slot)) == live_count(s) - (if s[i].live {
            1int
        } else {
            0int
        }) + (if slot.live {
            1int
        } else {
            0int
        }),
        s[i].live ==> live_count(s) > 0,
    decreases s.len(),
{
    let t = s.update(i, slot);
    if i == s.len() - 1 {
        assert(t.drop_last() =~= s.drop_last());
    } else {
        lemma_live_count_update(s.drop_last(), i, slot);
        assert(t.drop_last() =~= s.drop_last().update(i, slot));
    }
}

pub(crate) proof fn lemma_live_count_bound(s: Seq<PresentStreamSlot>)
    ensures
        live_count(s) <= s.len(),
    decreases s.len(),
{
    if s.len() > 0 {
        lemma_live_count_bound(s.drop_last());
    }
}

/// Fewer than all slots are live if one is not.
proof fn lemma_live_count_room(s: Seq<PresentStreamSlot>, i: int)
    requires
        0 <= i < s.len(),
        !s[i].live,
    ensures
        live_count(s) < s.len(),
{
    let full = PresentStreamSlot { live: true, ..s[i] };
    lemma_live_count_update(s, i, full);
    lemma_live_count_bound(s.update(i, full));
}

pub(crate) proof fn lemma_slot_retired_wf(s: StreamState, i: int)
    requires
        s.wf(),
        0 <= i < MAX_STREAMS,
        s.slots[i].live,
    ensures
        s.slot_retired(i).wf(),
        s.slot_retired(i).counters.live == s.counters.live - 1,
{
    lemma_live_count_update(s.slots, i, PresentStreamSlot::free(s.slots[i].generation));
}

/// Streams purged so far keep the table consistent and leave later slots alone.
pub(crate) proof fn lemma_purged(
    s: StreamState,
    p: spec_fn(PresentStreamSlot) -> bool,
    n: nat,
)
    requires
        s.wf(),
        n <= MAX_STREAMS,
    ensures
        s.purged(p, n).wf(),
        forall|j: int| n <= j < MAX_STREAMS ==> s.purged(p, n).slots[j] == s.slots[j],
    decreases n,
{
    if n > 0 {
        lemma_purged(s, p, (n - 1) as nat);
        let t = s.purged(p, (n - 1) as nat);
        if t.slots[n - 1].live && p(t.slots[n - 1]) {
            lemma_slot_retired_wf(t, n - 1);
        }
    }
}

impl StreamTable {
    /// A table of free slots.
    pub fn new() -> (r: Self)
        ensures
            r@ == StreamState::fresh(),
            r@.wf(),
    {
        let mut slots: Vec<PresentStreamSlot> = Vec::with_capacity(MAX_STREAMS);
        let mut i: usize = 0;
        while i < MAX_STREAMS
            invariant
                i <= MAX_STREAMS,
                slots@.len() == i,
                forall|k: int| 0 <= k < i ==> #[trigger] slots@[k] == PresentStreamSlot::free(0),
                live_count(slots@) == 0,
            decreases MAX_STREAMS - i,
        {
            let ghost before = slots@;
            slots.push(PresentStreamSlot::empty(0));
            proof {
                assert(slots@.drop_last() =~= before);
            }
            i += 1;
        }
        StreamTable { slots, next_cookie: 1, counters: StreamCounters::new() }
    }

    pub(crate) fn reject(&mut self)
        ensures
            final(self)@ == old(self)@.rejected(),
    {
        self.counters.rejects = self.counters.rejects.wrapping_add(1);
    }

    /// End the life of the stream in slot `index`.
    pub(crate) fn retire_slot(&mut self, index: usize)
        requires
            index < old(self)@.slots.len(),
        ensures
            final(self)@ == old(self)@.slot_retired(index as int),
    {
        let generation: u32 = self.slots[index].generation;
        self.slots[index] = PresentStreamSlot::empty(generation);
        if self.counters.live > 0 {
            self.counters.live = self.counters.live - 1;
        }
    }

    /// Whether `handle` names a live stream.
    pub fn handle_live(&self, handle: u32) -> (r: bool)
        requires
            self@.wf(),
        ensures
            r == self@.handle_live(handle),
    {
        match handle_index(handle) {
            Some(index) => {
                let slot: PresentStreamSlot = self.slots[index];
                slot.live && slot_handle(slot.generation, index) == handle
            },
            None => false,
        }
    }

    /// Whether `boundary` names a live stream.
    pub fn boundary_live(&self, boundary: u64) -> (r: bool)
        requires
            self@.wf(),
        ensures
            r == self@.boundary_live(boundary),
    {
        match decode_present_stream_boundary(boundary) {
            Some((handle, _)) => self.handle_live(handle),
            None => false,
        }
    }

    /// Whether the dependency is a wire fence or names a live stream.
    pub fn not_dead(&self, boundary: u64) -> (r: bool)
        requires
            self@.wf(),
        ensures
            r == self@.not_dead(boundary),
    {
        match decode_present_stream_boundary(boundary) {
            Some((handle, _)) => self.handle_live(handle),
            None => true,
        }
    }

    /// Record that a tagged submission was queued.
    pub(crate) fn commit_tag(&mut self, retire: PresentStreamRetire, ring_idx: u32)
        requires
            old(self)@.wf(),
        ensures
            final(self)@ == old(self)@.tag_committed(retire, ring_idx),
            final(self)@.wf(),
    {
        let index: usize = match handle_index(retire.handle) {
            Some(i) => i,
            None => {
                self.reject();
                return ;
            },
        };
        let slot: PresentStreamSlot = self.slots[index];
        let ring: u8 = (ring_idx % 256) as u8;
        if !slot.live || slot_handle(slot.generation, index) != retire.handle || (slot.ring_idx != 0
            && slot.ring_idx != ring) || retire.value <= slot.submitted_value {
            self.reject();
            return ;
        }
        proof {
            lemma_live_count_update(
                self@.slots,
                index as int,
                PresentStreamSlot { ring_idx: ring, submitted_value: retire.value, ..slot },
            );
        }
        self.slots[index] = PresentStreamSlot {
            ring_idx: ring,
            submitted_value: retire.value,
            ..slot
        };
        self.counters.tags = self.counters.tags.wrapping_add(1);
    }

    /// Record that a tagged submission ran.
    pub(crate) fn retire_value(&mut self, retire: PresentStreamRetire)
        requires
            old(self)@.wf(),
        ensures
            final(self)@ == old(self)@.value_retired(retire),
            final(self)@.wf(),
    {
        let index: usize = match handle_index(retire.handle) {
            Some(i) => i,
            None => return ,
        };
        let slot: PresentStreamSlot = self.slots[index];
        let advanced: u32 = advance_retired(slot.retired_value, retire.value);
        if slot.live && slot_handle(slot.generation, index) == retire.handle && advanced
            != slot.retired_value {
            proof {
                lemma_live_count_update(
                    self@.slots,
                    index as int,
                    PresentStreamSlot { retired_value: advanced, ..slot },
                );
            }
            self.slots[index] = PresentStreamSlot { retired_value: advanced, ..slot };
            self.counters.retires = self.counters.retires.wrapping_add(1);
        }
    }

    /// Record that the host refused a tagged submission: its stream dies.
    pub(crate) fn fail_value(&mut self, retire: PresentStreamRetire)
        requires
            old(self)@.wf(),
        ensures
            final(self)@ == old(self)@.value_failed(retire),
            final(self)@.wf(),
    {
        if self.handle_live(retire.handle) {
            if let Some(index) = handle_index(retire.handle) {
                proof {
                    lemma_slot_retired_wf(self@, index as int);
                }
                self.retire_slot(index);
                self.reject();
            }
        }
    }

    /// End the life of every stream that `f` picks, which decides `p`. Returns how
    /// many died.
    pub(crate) fn purge<F: Fn(&PresentStreamSlot) -> bool>(
        &mut self,
        f: F,
        Ghost(p): Ghost<spec_fn(PresentStreamSlot) -> bool>,
    ) -> (r: u32)
        requires
            old(self)@.wf(),
            forall|x: &PresentStreamSlot| call_requires(f, (x,)),
            forall|x: &PresentStreamSlot, b: bool| call_ensures(f, (x,), b) ==> b == p(*x),
        ensures
            final(self)@ == old(self)@.purged(p, MAX_STREAMS as nat),
            final(self)@.wf(),
            r == old(self)@.counters.live - final(self)@.counters.live,
    {
        let ghost before = self@;
        let mut count: u32 = 0;
        let mut i: usize = 0;
        while i < MAX_STREAMS
            invariant
                i <= MAX_STREAMS,
                count <= i,
                before.wf(),
                forall|x: &PresentStreamSlot| call_requires(f, (x,)),
                forall|x: &PresentStreamSlot, b: bool| call_ensures(f, (x,), b) ==> b == p(*x),
                self@ == before.purged(p, i as nat),
                self@.wf(),
                count == before.counters.live - self@.counters.live,
            decreases MAX_STREAMS - i,
        {
            proof {
                lemma_purged(before, p, (i + 1) as nat);
            }
            let slot: PresentStreamSlot = self.slots[i];
            if slot.live && f(&slot) {
                proof {
                    lemma_slot_retired_wf(self@, i as int);
                }
                self.retire_slot(i);
                count += 1;
            }
            i += 1;
        }
        count
    }

    /// End the life of every stream.
    pub(crate) fn purge_all(&mut self)
        requires
            old(self)@.wf(),
        ensures
            final(self)@ == old(self)@.purged(PresentStreamSlot::anyone(), MAX_STREAMS as nat),
            final(self)@.wf(),
    {
        let all = |s: &PresentStreamSlot| -> (b: bool)
            ensures
                b == PresentStreamSlot::anyone()(*s),
            { true };
        let _ = self.purge(all, Ghost(PresentStreamSlot::anyone()));
    }
}

impl VirtioGpu {
    /// Register a stream for a context of `owner`: one per context, bound to the
    /// process that created it. Returns the stream's capability.
    pub fn register_present_stream(
        &mut self,
        owner: DeviceOwner,
        ctx_id: u32,
        creator_process: usize,
    ) -> (r: Result<u64, VirtioError>)
        requires
            old(self)@.streams.wf(),
        ensures
            r == old(self)@.stream_registered(owner, ctx_id, creator_process).0,
            final(self)@ == (GpuState {
                streams: old(self)@.stream_registered(owner, ctx_id, creator_process).1,
                ..old(self)@
            }),
            final(self)@.streams.wf(),
            final(self)@.follows(old(self)@),
    {
        if self.queue.failed || ctx_id == 0 || creator_process == 0 {
            self.streams.reject();
            return Err(VirtioError::DeviceError);
        }
        if self.resolve_owned_ctx(Some(owner), ctx_id).is_none() {
            self.streams.reject();
            return Err(VirtioError::NotOwned);
        }
        let same = |s: &PresentStreamSlot| -> (b: bool)
            ensures
                b == PresentStreamSlot::of_context(owner, ctx_id)(*s),
            { s.live && same_owner(s.owner, Some(owner)) && s.ctx_id == ctx_id };
        if any(
            &self.streams.slots,
            same,
            Ghost(PresentStreamSlot::of_context(owner, ctx_id)),
        ) {
            self.streams.reject();
            return Err(VirtioError::DeviceError);
        }
        let reusable = |s: &PresentStreamSlot| -> (b: bool)
            ensures
                b == PresentStreamSlot::reusable()(*s),
            { !s.live && s.generation < GENERATION_MAX };
        let index: usize = match position(
            &self.streams.slots,
            reusable,
            Ghost(PresentStreamSlot::reusable()),
        ) {
            Some(i) => i,
            None => {
                self.streams.reject();
                return Err(VirtioError::OutOfMemory);
            },
        };
        if self.streams.next_cookie == u64::MAX {
            self.streams.reject();
            return Err(VirtioError::OutOfMemory);
        }
        let generation: u32 = self.streams.slots[index].generation + 1;
        let cookie: u64 = self.streams.next_cookie;
        let slot = PresentStreamSlot {
            live: true,
            owner: Some(owner),
            ctx_id,
            ring_idx: 0,
            generation,
            cookie,
            creator_process,
            submitted_value: 0,
            retired_value: 0,
        };
        proof {
            lemma_live_count_update(self@.streams.slots, index as int, slot);
            lemma_live_count_room(self@.streams.slots, index as int);
        }
        self.streams.next_cookie = cookie + 1;
        self.streams.slots[index] = slot;
        self.streams.counters.live = self.streams.counters.live + 1;
        let live: usize = self.streams.counters.live as usize;
        bump_high_water(&mut self.streams.counters.high_water, live);
        self.streams.counters.registers = self.streams.counters.registers.wrapping_add(1);
        Ok(cookie)
    }

    /// The boundary of `value` in the stream that the marker names, if the marker
    /// holds the stream's capability and comes from the process that created it.
    pub fn present_stream_marker_boundary(
        &mut self,
        ctx_id: u32,
        value: u32,
        cookie: u64,
        creator_process: usize,
    ) -> (r: Option<u64>)
        requires
            old(self)@.streams.wf(),
        ensures
            ({
                let answer = old(self)@.streams.marker_answer(
                    ctx_id,
                    value,
                    cookie,
                    creator_process,
                );
                &&& r == answer.0
                &&& final(self)@ == (GpuState { streams: answer.1, ..old(self)@ })
            }),
            final(self)@.streams.wf(),
            r is Some ==> final(self)@.streams.boundary_live(r->0),
            final(self)@.follows(old(self)@),
    {
        if ctx_id == 0 || value == 0 || cookie == 0 || creator_process == 0 {
            self.streams.reject();
            return None;
        }
        let marked = |s: &PresentStreamSlot| -> (b: bool)
            ensures
                b == PresentStreamSlot::marked(ctx_id, cookie, creator_process)(*s),
            {
                s.live && s.ctx_id == ctx_id && s.cookie == cookie && s.creator_process
                    == creator_process
            };
        let index: usize = match position(
            &self.streams.slots,
            marked,
            Ghost(PresentStreamSlot::marked(ctx_id, cookie, creator_process)),
        ) {
            Some(i) => i,
            None => {
                self.streams.reject();
                return None;
            },
        };
        let slot: PresentStreamSlot = self.streams.slots[index];
        let ahead: u32 = marker_lookahead(value, slot.submitted_value);
        if ahead != 0 {
            self.streams.counters.marker_ahead = self.streams.counters.marker_ahead.wrapping_add(1);
            bump_high_water(&mut self.streams.counters.marker_ahead_high_water, ahead as usize);
        }
        self.streams.counters.markers = self.streams.counters.markers.wrapping_add(1);
        let handle: u32 = slot_handle(slot.generation, index);
        proof {
            crate::present_stream::law_handles_are_unique(
                slot.generation,
                index as int,
                slot.generation,
                index as int,
            );
            crate::present_stream::law_boundary_round_trip(handle, value);
        }
        Some(encode_present_stream_boundary(handle, value))
    }

    /// Check a submission's tag against its stream. The caller does so before it
    /// hands a tagged submission to the device queue.
    pub fn check_present_stream_tag(
        &self,
        owner: DeviceOwner,
        ctx_id: u32,
        ring_idx: u32,
        cookie: u64,
        value: u32,
    ) -> (r: Result<PresentStreamRetire, VirtioError>)
        requires
            self@.streams.wf(),
        ensures
            r == self@.tag_checked(owner, ctx_id, ring_idx, cookie, value),
    {
        if self.queue.failed || ctx_id == 0 || cookie == 0 || value == 0 || ring_idx == 0
            || ring_idx > 255 {
            return Err(VirtioError::DeviceError);
        }
        let named = |s: &PresentStreamSlot| -> (b: bool)
            ensures
                b == PresentStreamSlot::named(owner, ctx_id, cookie)(*s),
            {
                s.live && same_owner(s.owner, Some(owner)) && s.ctx_id == ctx_id && s.cookie
                    == cookie
            };
        let index: usize = match position(
            &self.streams.slots,
            named,
            Ghost(PresentStreamSlot::named(owner, ctx_id, cookie)),
        ) {
            Some(i) => i,
            None => return Err(VirtioError::NotOwned),
        };
        let slot: PresentStreamSlot = self.streams.slots[index];
        if (slot.ring_idx != 0 && slot.ring_idx as u32 != ring_idx) || value
            <= slot.submitted_value {
            return Err(VirtioError::DeviceError);
        }
        Ok(PresentStreamRetire { handle: slot_handle(slot.generation, index), value })
    }

    /// Check a submission's tag, and count a refused one.
    pub(crate) fn prepare_present_stream_tag(
        &mut self,
        owner: DeviceOwner,
        ctx_id: u32,
        ring_idx: u32,
        cookie: u64,
        value: u32,
    ) -> (r: Result<PresentStreamRetire, VirtioError>)
        requires
            old(self)@.streams.wf(),
        ensures
            r == old(self)@.tag_checked(owner, ctx_id, ring_idx, cookie, value),
            final(self)@ == (GpuState {
                streams: if r is Ok {
                    old(self)@.streams
                } else {
                    old(self)@.streams.rejected()
                },
                ..old(self)@
            }),
            final(self)@.streams.wf(),
            final(self)@.follows(old(self)@),
    {
        let r = self.check_present_stream_tag(owner, ctx_id, ring_idx, cookie, value);
        if r.is_err() {
            self.streams.reject();
        }
        r
    }

    /// Whether a dependency is met.
    pub fn scanout_boundary_ready(&self, boundary: u64) -> (r: bool)
        requires
            self@.streams.wf(),
        ensures
            r == self@.boundary_ready(boundary),
    {
        match decode_present_stream_boundary(boundary) {
            Some((handle, value)) => match handle_index(handle) {
                Some(index) => {
                    let slot: PresentStreamSlot = self.streams.slots[index];
                    slot.live && slot_handle(slot.generation, index) == handle && slot.retired_value
                        >= value
                },
                None => false,
            },
            None => async_retired_up_to(
                &self.queue.inflight,
                boundary,
                RetireDomain::IncludingGpu,
            ),
        }
    }

    /// The wire watermark that replaces a boundary whose stream is dead; `None`
    /// if the boundary is a wire fence or its stream lives.
    pub fn rebase_dead_present_stream_boundary(&self, boundary: u64) -> (r: Option<u64>)
        requires
            self@.streams.wf(),
        ensures
            r == self@.boundary_replacement(boundary),
    {
        if self.streams.not_dead(boundary) {
            None
        } else {
            Some(self.fences.next_wire_fence)
        }
    }
}

/// A retired value never falls, and reaching it is what readiness means.
pub proof fn law_retired_value_rises(s: StreamState, retire: PresentStreamRetire, i: int)
    requires
        s.wf(),
        0 <= i < MAX_STREAMS,
    ensures
        s.value_retired(retire).slots[i].retired_value >= s.slots[i].retired_value,
        s.handle_live(retire.handle) ==> ({
            let k = index_of(retire.handle)->0;
            s.value_retired(retire).slots[k].is_ready(k, retire.handle, retire.value)
        }),
{
}

/// A dead stream's handle is never live again, whoever uses its slot later: a
/// slot's generation only rises, and a boundary of the earlier life is neither
/// live nor ready.
pub proof fn law_dead_handles_stay_dead(
    s: StreamState,
    i: int,
    owner: DeviceOwner,
    ctx_id: u32,
    creator_process: usize,
    handle: u32,
)
    requires
        s.wf(),
        0 <= i < MAX_STREAMS,
        s.slots[i].is_stream(i, handle),
        s.slots[i].generation < GENERATION_MAX,
    ensures
        index_of(handle) == Some(i),
        !s.slot_retired(i).handle_live(handle),
        !s.slot_retired(i).registered(i, owner, ctx_id, creator_process).handle_live(handle),
{
    crate::present_stream::law_handles_are_unique(
        s.slots[i].generation,
        i,
        s.slots[i].generation,
        i,
    );
}

/// A host refusal never counts as retirement: it kills the stream, and no value
/// of it is ready afterwards.
pub proof fn law_refusal_is_not_retirement(s: StreamState, retire: PresentStreamRetire, value: u32)
    requires
        s.wf(),
        s.handle_live(retire.handle),
    ensures
        ({
            let k = index_of(retire.handle)->0;
            &&& !s.value_failed(retire).handle_live(retire.handle)
            &&& !s.value_failed(retire).slots[k].is_ready(k, retire.handle, value)
        }),
{
}

/// A capability is never 0, and no two registrations share one.
pub proof fn law_cookies_are_fresh(
    s: StreamState,
    failed: bool,
    contexts: Seq<ContextSlot>,
    owner: DeviceOwner,
    ctx_id: u32,
    creator_process: usize,
)
    requires
        s.wf(),
    ensures
        ({
            let (r, t) = s.register_answer(failed, contexts, owner, ctx_id, creator_process);
            match r {
                Ok(cookie) => cookie > 0 && cookie == s.next_cookie && t.next_cookie > cookie,
                Err(_) => t.next_cookie == s.next_cookie,
            }
        }),
{
}

} // verus!
