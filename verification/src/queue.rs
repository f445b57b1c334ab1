//! The control queue: commands that the device has, completed ones, and the
//! buffers that are used again.
use crate::counters::{PoolCounters, QueueCounters};
use crate::enqueue::AddResult;
use crate::gpu::{GpuState, VirtioGpu};
use crate::hal::DmaBuffer;
use crate::inflight::{InFlight, InFlightKind};
use crate::progress::lemma_same_fences;
use crate::seqs::{first_index, lemma_tally_swap_removed, position, some, swap_removed, tally};
use vstd::prelude::*;

verus! {

/// Ring size of the control queue.
pub const CTRL_QUEUE_SIZE: usize = 64;

/// Most commands in flight.
pub const MAX_INFLIGHT: usize = 64;

/// Most completed commands that wait to be reaped.
pub const MAX_PARKED: usize = 256;

/// Completed commands at which new ones are refused: one drain can add at most
/// `MAX_INFLIGHT` more.
pub const PARKED_ENQUEUE_GATE: usize = 192;

/// Most buffers kept for reuse.
pub const MAX_DMA_POOL: usize = 128;

/// Largest buffer kept for reuse.
pub const MAX_DMA_POOL_BUFFER_BYTES: usize = 65536;

/// Most bytes kept for reuse.
pub const MAX_DMA_POOL_BYTES: usize = 2097152;

/// Buffers kept for SETs without a waiter.
pub const BIND_CMD_POOL: usize = 4;

/// What a [`ControlQueue`] holds.
#[verifier::ext_equal]
pub struct QueueState {
    pub inflight: Seq<InFlight>,
    pub parked: Seq<InFlight>,
    pub reap_in_progress: bool,
    pub dma_pool: Seq<DmaBuffer>,
    pub dma_pool_bytes: usize,
    pub bind_cmd_pool: Seq<DmaBuffer>,
    pub failed: bool,
    pub counters: QueueCounters,
    pub pool: PoolCounters,
}

/// The control queue.
pub struct ControlQueue {
    /// Commands that the device may still access.
    pub inflight: Vec<InFlight>,
    /// Completed commands whose buffers wait to be reaped.
    pub parked: Vec<InFlight>,
    pub reap_in_progress: bool,
    /// Buffers kept for reuse, and their bytes.
    pub dma_pool: Vec<DmaBuffer>,
    pub dma_pool_bytes: usize,
    /// Buffers for SETs without a waiter.
    pub bind_cmd_pool: Vec<DmaBuffer>,
    /// The queue can no longer be trusted.
    pub failed: bool,
    pub counters: QueueCounters,
    pub pool: PoolCounters,
}

impl View for ControlQueue {
    type V = QueueState;

    open spec fn view(&self) -> QueueState {
        QueueState {
            inflight: self.inflight@,
            parked: self.parked@,
            reap_in_progress: self.reap_in_progress,
            dma_pool: self.dma_pool@,
            dma_pool_bytes: self.dma_pool_bytes,
            bind_cmd_pool: self.bind_cmd_pool@,
            failed: self.failed,
            counters: self.counters,
            pool: self.pool,
        }
    }
}

/// Bytes of the buffers in `s`.
pub open spec fn bytes_of(s: Seq<DmaBuffer>) -> int
    decreases s.len(),
{
    if s.len() == 0 {
        0
    } else {
        bytes_of(s.drop_last()) + s.last().bytes()
    }
}

pub open spec fn all_wf(s: Seq<DmaBuffer>) -> bool {
    forall|i: int| 0 <= i < s.len() ==> (#[trigger] s[i]).wf()
}

/// `i` is the smallest buffer of `s` that holds `len` bytes, and the first such.
pub open spec fn best_fit(s: Seq<DmaBuffer>, len: usize, i: int) -> bool {
    &&& 0 <= i < s.len()
    &&& s[i].bytes() >= len
    &&& forall|j: int|
        0 <= j < s.len() && (#[trigger] s[j]).bytes() >= len ==> s[i].bytes() < s[j].bytes() || (
        s[i].bytes() == s[j].bytes() && i <= j)
}

impl QueueState {
    /// A waiter leaves its command: what it finds, and the queue after it.
    pub open spec fn waiter_left(self, token: u16, block: u64) -> (SyncOutcome, QueueState) {
        match first_index(self.inflight, InFlight::tokened(token)) {
            None => (SyncOutcome::AlreadyCompleted, self),
            Some(i) => match self.inflight[i].kind {
                InFlightKind::Sync { waiter, scanout_bind } => if waiter == Some(block) {
                    (
                        SyncOutcome::Abandoned,
                        QueueState {
                            inflight: self.inflight.update(
                                i,
                                InFlight {
                                    kind: InFlightKind::Sync { waiter: None, scanout_bind },
                                    ..self.inflight[i]
                                },
                            ),
                            ..self
                        },
                    )
                } else {
                    (SyncOutcome::NotOurs, self)
                },
                _ => (SyncOutcome::NotOurs, self),
            },
        }
    }

    /// Nothing is in flight, and `bind_cmd_pool` are the buffers for SETs without a
    /// waiter.
    pub open spec fn fresh(bind_cmd_pool: Seq<DmaBuffer>) -> QueueState {
        QueueState {
            inflight: Seq::empty(),
            parked: Seq::empty(),
            reap_in_progress: false,
            dma_pool: Seq::empty(),
            dma_pool_bytes: 0,
            bind_cmd_pool,
            failed: false,
            counters: QueueCounters::zero(),
            pool: PoolCounters::zero(),
        }
    }

    /// Commands and pooled buffers are sound; the pool's byte count is
    /// right and bounded; in-flight commands and command buffers of SETs stay
    /// within their tables; completed commands leave room for all in flight. No two
    /// commands in flight have the same token.
    pub open spec fn wf(self) -> bool {
        &&& forall|i: int| 0 <= i < self.inflight.len() ==> (#[trigger] self.inflight[i]).wf()
        &&& forall|i: int| 0 <= i < self.parked.len() ==> (#[trigger] self.parked[i]).wf()
        &&& self.inflight.len() <= MAX_INFLIGHT
        &&& self.parked.len() + self.inflight.len() <= MAX_PARKED
        &&& all_wf(self.dma_pool)
        &&& all_wf(self.bind_cmd_pool)
        &&& self.dma_pool.len() <= MAX_DMA_POOL
        &&& self.dma_pool_bytes == bytes_of(self.dma_pool)
        &&& self.dma_pool_bytes <= MAX_DMA_POOL_BYTES
        &&& self.bind_cmd_pool.len() <= BIND_CMD_POOL
        &&& forall|i: int, j: int|
            0 <= i < j < self.inflight.len() ==> (#[trigger] self.inflight[i]).token != (
            #[trigger] self.inflight[j]).token
    }

    /// The device queue's answer names a free token, if it names one: a token is
    /// free again only once its element was popped.
    pub open spec fn hands_out(self, added: AddResult) -> bool {
        added matches AddResult::Token(t) ==> !some(self.inflight, InFlight::tokened(t))
    }

    /// A new command may be queued.
    pub open spec fn has_room(self) -> bool {
        self.inflight.len() < MAX_INFLIGHT && self.parked.len() < PARKED_ENQUEUE_GATE
    }

    /// The pool after `buf` of `buffers` was offered to it.
    pub open spec fn takes(self, buf: DmaBuffer) -> bool {
        &&& buf.bytes() <= MAX_DMA_POOL_BUFFER_BYTES
        &&& self.dma_pool.len() < MAX_DMA_POOL
        &&& self.dma_pool_bytes + buf.bytes() <= MAX_DMA_POOL_BYTES
    }

    /// Offer `buffers` from index `i` on; returns the queue and what is left.
    pub open spec fn recycled(self, buffers: Seq<DmaBuffer>, i: int) -> (QueueState, Seq<DmaBuffer>)
        decreases buffers.len() - i,
    {
        if i < 0 || i >= buffers.len() {
            (
                QueueState {
                    pool: PoolCounters {
                        cached_bytes: self.dma_pool_bytes as u32,
                        ..self.pool
                    },
                    ..self
                },
                buffers,
            )
        } else if self.takes(buffers[i]) {
            QueueState {
                dma_pool: self.dma_pool.push(buffers[i]),
                dma_pool_bytes: (self.dma_pool_bytes + buffers[i].bytes()) as usize,
                ..self
            }.recycled(swap_removed(buffers, i), i)
        } else {
            QueueState {
                pool: PoolCounters { drops: self.pool.drops.wrapping_add(1), ..self.pool },
                ..self
            }.recycled(buffers, i + 1)
        }
    }
}

/// Recycling touches the pool and its counters only.
pub(crate) proof fn lemma_recycled_keeps(q: QueueState, buffers: Seq<DmaBuffer>, i: int)
    ensures
        ({
            let t = q.recycled(buffers, i).0;
            t == (QueueState {
                dma_pool: t.dma_pool,
                dma_pool_bytes: t.dma_pool_bytes,
                pool: t.pool,
                ..q
            })
        }),
    decreases buffers.len() - i,
{
    if 0 <= i < buffers.len() {
        if q.takes(buffers[i]) {
            lemma_recycled_keeps(
                QueueState {
                    dma_pool: q.dma_pool.push(buffers[i]),
                    dma_pool_bytes: (q.dma_pool_bytes + buffers[i].bytes()) as usize,
                    ..q
                },
                swap_removed(buffers, i),
                i,
            );
        } else {
            lemma_recycled_keeps(
                QueueState {
                    pool: PoolCounters { drops: q.pool.drops.wrapping_add(1), ..q.pool },
                    ..q
                },
                buffers,
                i + 1,
            );
        }
    }
}

/// A receipt for one command with a waiter. It cannot be copied, so it is given
/// up once.
#[derive(Debug)]
pub struct SyncTicket {
    token: u16,
}

impl SyncTicket {
    pub closed spec fn spec_token(self) -> u16 {
        self.token
    }

    pub(crate) fn issue(token: u16) -> (r: Self)
        ensures
            r.spec_token() == token,
    {
        SyncTicket { token }
    }

    /// What the queue calls the command.
    pub fn raw(&self) -> (r: u16)
        ensures
            r == self.spec_token(),
    {
        self.token
    }
}

/// What a waiter that gives up finds.
#[derive(Debug, Clone, Copy, PartialEq, Eq, Structural)]
pub enum SyncOutcome {
    /// The command has completed; the response is there.
    AlreadyCompleted,
    /// The waiter is detached; the response was never written.
    Abandoned,
    /// The command is not this waiter's; the response was never written.
    NotOurs,
}

pub(crate) proof fn lemma_bytes_push(s: Seq<DmaBuffer>, b: DmaBuffer)
    ensures
        bytes_of(s.push(b)) == bytes_of(s) + b.bytes(),
{
    assert(s.push(b).drop_last() =~= s);
}

proof fn lemma_bytes_update(s: Seq<DmaBuffer>, i: int, b: DmaBuffer)
    requires
        0 <= i < s.len(),
    ensures
        bytes_of(s.update(i, b)) == bytes_of(s) - s[i].bytes() + b.bytes(),
    decreases s.len(),
{
    if i == s.len() - 1 {
        assert(s.update(i, b).drop_last() =~= s.drop_last());
    } else {
        lemma_bytes_update(s.drop_last(), i, b);
        assert(s.update(i, b).drop_last() =~= s.drop_last().update(i, b));
    }
}

proof fn lemma_bytes_swap_removed(s: Seq<DmaBuffer>, i: int)
    requires
        0 <= i < s.len(),
    ensures
        bytes_of(swap_removed(s, i)) == bytes_of(s) - s[i].bytes(),
{
    lemma_bytes_update(s, i, s.last());
}

impl ControlQueue {
    /// An empty queue with the command buffers that SETs will use.
    pub fn new(bind_cmd_pool: Vec<DmaBuffer>) -> (r: Self)
        requires
            all_wf(bind_cmd_pool@),
            bind_cmd_pool@.len() <= BIND_CMD_POOL,
        ensures
            r@ == QueueState::fresh(bind_cmd_pool@),
            r@.wf(),
    {
        ControlQueue {
            inflight: Vec::with_capacity(MAX_INFLIGHT),
            parked: Vec::with_capacity(MAX_PARKED),
            reap_in_progress: false,
            dma_pool: Vec::with_capacity(MAX_DMA_POOL),
            dma_pool_bytes: 0,
            bind_cmd_pool,
            failed: false,
            counters: QueueCounters::new(),
            pool: PoolCounters::new(),
        }
    }
}

/// The buffers of finished commands, in order.
pub open spec fn buffers_of(s: Seq<InFlight>) -> Seq<DmaBuffer>
    decreases s.len(),
{
    if s.len() == 0 {
        Seq::empty()
    } else {
        let front = buffers_of(s.drop_last()).push(s.last().meta);
        match s.last().venus {
            Some(v) => front.push(v),
            None => front,
        }
    }
}

/// Append the buffers of finished commands to `out`.
pub(crate) fn split_entries(entries: Vec<InFlight>, out: &mut Vec<DmaBuffer>)
    ensures
        final(out)@ == old(out)@ + buffers_of(entries@),
        all_wf(old(out)@) && (forall|i: int|
            0 <= i < entries@.len() ==> (#[trigger] entries@[i]).wf()) ==> all_wf(final(out)@),
{
    let ghost all = entries@;
    let ghost sound = all_wf(out@) && (forall|i: int|
        0 <= i < all.len() ==> (#[trigger] all[i]).wf());
    let ghost log = out@;
    let mut left: Vec<InFlight> = entries;
    let ghost mut done: Seq<InFlight> = Seq::empty();
    while left.len() > 0
        invariant
            done + left@ =~= all,
            out@ == log + buffers_of(done),
            sound ==> all_wf(out@),
            sound ==> (forall|k: int| 0 <= k < left@.len() ==> (#[trigger] left@[k]).wf()),
        decreases left.len(),
    {
        let entry: InFlight = left.remove(0);
        proof {
            assert(done.push(entry).drop_last() =~= done);
            done = done.push(entry);
        }
        let (meta, venus) = entry.into_dma_buffers();
        out.push(meta);
        if let Some(v) = venus {
            out.push(v);
        }
    }
}

impl VirtioGpu {
    /// Completed commands that wait to be reaped.
    pub fn parked_len(&self) -> (r: usize)
        ensures
            r == self@.queue.parked.len(),
    {
        self.queue.parked.len()
    }

    /// Begin to reap: hands over every completed command. `None` if there is none
    /// or another reap is under way.
    pub fn begin_parked_reap(&mut self) -> (r: Option<(Vec<InFlight>, Vec<DmaBuffer>)>)
        ensures
            r is Some <==> !old(self)@.queue.reap_in_progress && old(self)@.queue.parked.len() > 0,
            r is None ==> final(self)@ == old(self)@,
            r matches Some((entries, buffers)) ==> {
                &&& entries@ == old(self)@.queue.parked
                &&& buffers@.len() == 0
                &&& final(self)@ == (GpuState {
                    queue: QueueState {
                        parked: Seq::<InFlight>::empty(),
                        reap_in_progress: true,
                        ..old(self)@.queue
                    },
                    ..old(self)@
                })
            },
            final(self)@.follows(old(self)@),
    {
        if self.queue.reap_in_progress || self.queue.parked.len() == 0 {
            return None;
        }
        self.queue.reap_in_progress = true;
        let mut dead: Vec<InFlight> = Vec::with_capacity(MAX_PARKED);
        std::mem::swap(&mut dead, &mut self.queue.parked);
        Some((dead, Vec::new()))
    }

    /// End a reap. Buffers that are left are handed back to be freed.
    pub fn finish_parked_reap(&mut self, entries: Vec<InFlight>, buffers: Vec<DmaBuffer>) -> (r:
        Vec<DmaBuffer>)
        ensures
            r@ == buffers_of(entries@) + buffers@,
            final(self)@ == (GpuState {
                queue: QueueState { reap_in_progress: false, ..old(self)@.queue },
                ..old(self)@
            }),
            final(self)@.follows(old(self)@),
    {
        self.queue.reap_in_progress = false;
        let mut left: Vec<DmaBuffer> = Vec::new();
        split_entries(entries, &mut left);
        let mut rest: Vec<DmaBuffer> = buffers;
        left.append(&mut rest);
        left
    }

    /// End a reap that could not be carried out. Its buffers are handed back to be
    /// freed.
    pub fn abort_parked_reap(&mut self, entries: Vec<InFlight>, buffers: Vec<DmaBuffer>) -> (r: Vec<
        DmaBuffer,
    >)
        ensures
            r@ == buffers_of(entries@) + buffers@,
            final(self)@ == (GpuState {
                queue: QueueState {
                    reap_in_progress: false,
                    counters: QueueCounters {
                        reap_abandoned: old(self)@.queue.counters.reap_abandoned.wrapping_add(1),
                        ..old(self)@.queue.counters
                    },
                    ..old(self)@.queue
                },
                ..old(self)@
            }),
            final(self)@.follows(old(self)@),
    {
        self.queue.counters.reap_abandoned = self.queue.counters.reap_abandoned.wrapping_add(1);
        self.finish_parked_reap(entries, buffers)
    }

    /// Take the smallest kept buffer that holds `len` bytes.
    pub fn take_dma_buffer(&mut self, len: usize) -> (r: Option<DmaBuffer>)
        requires
            old(self)@.queue.wf(),
        ensures
            final(self)@.queue.wf(),
            match r {
                Some(buf) => exists|i: int|
                    #![trigger best_fit(old(self)@.queue.dma_pool, len, i)]
                    {
                        let pool = old(self)@.queue.dma_pool;
                        &&& best_fit(pool, len, i)
                        &&& len > 0
                        &&& buf == (DmaBuffer { len, ..pool[i] })
                        &&& final(self)@ == (GpuState {
                            queue: QueueState {
                                dma_pool: swap_removed(pool, i),
                                dma_pool_bytes: (old(self)@.queue.dma_pool_bytes
                                    - pool[i].bytes()) as usize,
                                pool: PoolCounters {
                                    hits: old(self)@.queue.pool.hits.wrapping_add(1),
                                    cached_bytes: (old(self)@.queue.dma_pool_bytes
                                        - pool[i].bytes()) as u32,
                                    ..old(self)@.queue.pool
                                },
                                ..old(self)@.queue
                            },
                            ..old(self)@
                        })
                    },
                None => {
                    &&& len == 0 || forall|i: int|
                        0 <= i < old(self)@.queue.dma_pool.len() ==> (
                        #[trigger] old(self)@.queue.dma_pool[i]).bytes() < len
                    &&& final(self)@ == (GpuState {
                        queue: QueueState {
                            pool: PoolCounters {
                                misses: old(self)@.queue.pool.misses.wrapping_add(1),
                                ..old(self)@.queue.pool
                            },
                            ..old(self)@.queue
                        },
                        ..old(self)@
                    })
                },
            },
            final(self)@.follows(old(self)@),
    {
        if len == 0 {
            self.queue.pool.misses = self.queue.pool.misses.wrapping_add(1);
            return None;
        }
        let ghost pool = self@.queue.dma_pool;
        let mut best: Option<usize> = None;
        let mut i: usize = 0;
        while i < self.queue.dma_pool.len()
            invariant
                self@ == old(self)@,
                pool == self@.queue.dma_pool,
                all_wf(pool),
                i <= pool.len(),
                match best {
                    Some(k) => {
                        &&& k < i
                        &&& pool[k as int].bytes() >= len
                        &&& forall|j: int|
                            0 <= j < i && (#[trigger] pool[j]).bytes() >= len
                                ==> pool[k as int].bytes() < pool[j].bytes() || (
                            pool[k as int].bytes() == pool[j].bytes() && k <= j)
                    },
                    None => forall|j: int|
                        0 <= j < i ==> (#[trigger] pool[j]).bytes() < len,
                },
            decreases pool.len() - i,
        {
            let capacity: usize = self.queue.dma_pool[i].capacity();
            if capacity >= len {
                match best {
                    Some(k) => {
                        if capacity < self.queue.dma_pool[k].capacity() {
                            best = Some(i);
                        }
                    },
                    None => {
                        best = Some(i);
                    },
                }
            }
            i += 1;
        }
        let idx: usize = match best {
            Some(k) => k,
            None => {
                self.queue.pool.misses = self.queue.pool.misses.wrapping_add(1);
                return None;
            },
        };
        proof {
            lemma_bytes_swap_removed(pool, idx as int);
            lemma_bytes_nonneg(swap_removed(pool, idx as int));
            assert(best_fit(pool, len, idx as int));
        }
        let mut buf: DmaBuffer = self.queue.dma_pool.swap_remove(idx);
        let capacity: usize = buf.capacity();
        self.queue.dma_pool_bytes = self.queue.dma_pool_bytes - capacity;
        self.queue.pool.cached_bytes = self.queue.dma_pool_bytes as u32;
        let _ = buf.reset(len);
        self.queue.pool.hits = self.queue.pool.hits.wrapping_add(1);
        Some(buf)
    }

    /// Keep what the pool has room for; the rest is handed back.
    pub fn recycle_dma_buffers(&mut self, buffers: Vec<DmaBuffer>) -> (r: Vec<DmaBuffer>)
        requires
            old(self)@.queue.wf(),
            all_wf(buffers@),
        ensures
            final(self)@ == (GpuState {
                queue: old(self)@.queue.recycled(buffers@, 0).0,
                ..old(self)@
            }),
            r@ == old(self)@.queue.recycled(buffers@, 0).1,
            final(self)@.queue.wf(),
            final(self)@.follows(old(self)@),
    {
        let mut left: Vec<DmaBuffer> = buffers;
        let mut i: usize = 0;
        let ghost target = self@.queue.recycled(left@, 0);
        proof {
            lemma_recycled_keeps(self@.queue, left@, 0);
        }
        while i < left.len()
            invariant
                self@.queue.wf(),
                all_wf(left@),
                i <= left@.len(),
                self@.queue.recycled(left@, i as int) == target,
                self@ == (GpuState { queue: self@.queue, ..old(self)@ }),
            decreases left@.len() - i,
        {
            let capacity: usize = left[i].capacity();
            let bytes: usize = self.queue.dma_pool_bytes;
            if capacity <= MAX_DMA_POOL_BUFFER_BYTES && self.queue.dma_pool.len() < MAX_DMA_POOL
                && bytes + capacity <= MAX_DMA_POOL_BYTES {
                let buf: DmaBuffer = left.swap_remove(i);
                proof {
                    lemma_bytes_push(self@.queue.dma_pool, buf);
                }
                self.queue.dma_pool_bytes = bytes + capacity;
                self.queue.dma_pool.push(buf);
            } else {
                self.queue.pool.drops = self.queue.pool.drops.wrapping_add(1);
                i += 1;
            }
        }
        self.queue.pool.cached_bytes = self.queue.dma_pool_bytes as u32;
        left
    }

    /// Give up waiting for a command: its completion will wake nobody. Tells
    /// whether the response was written.
    pub fn abandon_sync(&mut self, ticket: SyncTicket, block: u64) -> (r: SyncOutcome)
        requires
            old(self)@.wf(),
        ensures
            final(self)@.wf(),
            r == old(self)@.queue.waiter_left(ticket.spec_token(), block).0,
            final(self)@ == (GpuState {
                queue: old(self)@.queue.waiter_left(ticket.spec_token(), block).1,
                ..old(self)@
            }),
            final(self)@.follows(old(self)@),
    {
        let token: u16 = ticket.raw();
        let same = |e: &InFlight| -> (b: bool)
            ensures
                b == InFlight::tokened(token)(*e),
            { e.token == token };
        match position(&self.queue.inflight, same, Ghost(InFlight::tokened(token))) {
            None => SyncOutcome::AlreadyCompleted,
            Some(i) => {
                match self.queue.inflight[i].kind {
                    InFlightKind::Sync { waiter, scanout_bind } => {
                        if waiter == Some(block) {
                            self.queue.inflight[i].kind = InFlightKind::Sync {
                                waiter: None,
                                scanout_bind,
                            };
                            proof {
                                lemma_same_fences(old(self)@, self@);
                            }
                            SyncOutcome::Abandoned
                        } else {
                            SyncOutcome::NotOurs
                        }
                    },
                    _ => SyncOutcome::NotOurs,
                }
            },
        }
    }

    /// Take a command buffer for a SET without a waiter; `None` if all are in use.
    pub fn take_bind_cmd_buffer(&mut self) -> (r: Option<DmaBuffer>)
        requires
            old(self)@.queue.wf(),
        ensures
            final(self)@.queue.wf(),
            match r {
                Some(buf) => {
                    &&& old(self)@.queue.bind_cmd_pool.len() > 0
                    &&& buf == old(self)@.queue.bind_cmd_pool.last()
                    &&& buf.wf()
                    &&& final(self)@ == (GpuState {
                        queue: QueueState {
                            bind_cmd_pool: old(self)@.queue.bind_cmd_pool.drop_last(),
                            ..old(self)@.queue
                        },
                        ..old(self)@
                    })
                },
                None => old(self)@.queue.bind_cmd_pool.len() == 0 && final(self)@ == old(self)@,
            },
            final(self)@.follows(old(self)@),
    {
        self.queue.bind_cmd_pool.pop()
    }

    /// Put a command buffer back. One too many is dropped, not kept.
    pub(crate) fn return_bind_cmd_buffer(&mut self, buf: DmaBuffer)
        requires
            old(self)@.queue.wf(),
            buf.wf(),
        ensures
            final(self)@.queue.wf(),
            final(self)@ == (GpuState {
                queue: old(self)@.queue.with_bind_buffer(buf),
                ..old(self)@
            }),
            final(self)@.follows(old(self)@),
    {
        if self.queue.bind_cmd_pool.len() < BIND_CMD_POOL {
            self.queue.bind_cmd_pool.push(buf);
        }
    }
}

impl QueueState {
    pub open spec fn with_bind_buffer(self, buf: DmaBuffer) -> QueueState {
        QueueState {
            bind_cmd_pool: if self.bind_cmd_pool.len() < BIND_CMD_POOL {
                self.bind_cmd_pool.push(buf)
            } else {
                self.bind_cmd_pool
            },
            ..self
        }
    }
}

proof fn lemma_bytes_nonneg(s: Seq<DmaBuffer>)
    ensures
        bytes_of(s) >= 0,
    decreases s.len(),
{
    if s.len() > 0 {
        lemma_bytes_nonneg(s.drop_last());
    }
}

/// Taking a command buffer and putting it back restores the pool.
pub proof fn law_bind_buffer_comes_back(q: QueueState)
    requires
        q.bind_cmd_pool.len() > 0,
        q.bind_cmd_pool.len() <= BIND_CMD_POOL,
    ensures
        (QueueState { bind_cmd_pool: q.bind_cmd_pool.drop_last(), ..q }).with_bind_buffer(
            q.bind_cmd_pool.last(),
        ) == q,
{
}

/// Recycling loses and doubles no buffer: each one that was offered or pooled is
/// pooled or left over afterwards, as often as before.
pub proof fn law_recycling_keeps_every_buffer(
    q: QueueState,
    buffers: Seq<DmaBuffer>,
    i: int,
    b: DmaBuffer,
)
    ensures
        ({
            let (t, left) = q.recycled(buffers, i);
            tally(t.dma_pool, DmaBuffer::same_as(b)) + tally(left, DmaBuffer::same_as(b)) == tally(
                q.dma_pool,
                DmaBuffer::same_as(b),
            ) + tally(buffers, DmaBuffer::same_as(b))
        }),
    decreases buffers.len() - i,
{
    if 0 <= i < buffers.len() {
        if q.takes(buffers[i]) {
            let u = QueueState {
                dma_pool: q.dma_pool.push(buffers[i]),
                dma_pool_bytes: (q.dma_pool_bytes + buffers[i].bytes()) as usize,
                ..q
            };
            lemma_tally_swap_removed(buffers, i, DmaBuffer::same_as(b));
            assert(u.dma_pool.drop_last() =~= q.dma_pool);
            law_recycling_keeps_every_buffer(u, swap_removed(buffers, i), i, b);
        } else {
            law_recycling_keeps_every_buffer(
                QueueState {
                    pool: PoolCounters { drops: q.pool.drops.wrapping_add(1), ..q.pool },
                    ..q
                },
                buffers,
                i + 1,
                b,
            );
        }
    }
}

} // verus!
