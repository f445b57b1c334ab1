//! Windowed copies of a transport, from reservation to teardown.
use crate::error::VirtioError;
use crate::gpu::{GpuState, VirtioGpu};
use crate::inflight::Action;
use crate::present_stream::{names_same_stream, same_stream};
use crate::seqs::{any, first_index, lemma_first_index_exists, position, some};
use crate::streams::StreamState;
use crate::windowed_blt::{BltState, WindowedBltPending, WindowedBltState,
    WindowedBltTerminalPrefix, MAX_WINDOWED_BLT_PENDING};
use vstd::prelude::*;

verus! {

impl WindowedBltPending {
    /// Not sent, and its stream is dead.
    pub open spec fn orphaned(streams: StreamState) -> spec_fn(WindowedBltPending) -> bool {
        |r: WindowedBltPending| !r.dispatched && !streams.boundary_live(r.stream_boundary)
    }

    /// Not sent, and reads or writes the resource.
    pub open spec fn unsent_user(resource_id: u32) -> spec_fn(WindowedBltPending) -> bool {
        |r: WindowedBltPending| !r.dispatched && r.uses(resource_id)
    }

    /// On the GPU, and reads or writes the resource.
    pub open spec fn running_user(resource_id: u32) -> spec_fn(WindowedBltPending) -> bool {
        |r: WindowedBltPending| r.dispatched && !r.ring_complete && r.uses(resource_id)
    }

    /// Done on the GPU, and names the resource.
    pub open spec fn finished_user(resource_id: u32) -> spec_fn(WindowedBltPending) -> bool {
        |r: WindowedBltPending| r.ring_complete && r.uses(resource_id)
    }

    pub open spec fn everyone() -> spec_fn(WindowedBltPending) -> bool {
        |r: WindowedBltPending| true
    }
}

impl BltState {
    pub open spec fn has_room(self) -> bool {
        self.pending.len() + self.terminal.len() < MAX_WINDOWED_BLT_PENDING && self.next_token
            < u64::MAX
    }

    /// A copy is reserved under the next token.
    pub open spec fn queued(self, r: WindowedBltPending) -> BltState {
        BltState {
            pending: self.pending.push(r),
            next_token: (self.next_token + 1) as u64,
            ..self
        }
    }

    /// The copy that the worker takes next: the oldest admitted one, if its
    /// producer is done.
    pub open spec fn next_ready(self) -> Option<int> {
        if self.ready.len() == 0 {
            None
        } else {
            first_index(self.pending, WindowedBltPending::tokened(self.ready[0]))
        }
    }

    /// Copies that were not sent and name the resource end: an admitted one leaves
    /// its end for the completion that waits for it.
    pub open spec fn resource_cancelled(self, adapter: u64, resource_id: u32) -> (
        BltState,
        Seq<Action>,
    )
        decreases self.pending.len(),
    {
        match first_index(self.pending, WindowedBltPending::unsent_user(resource_id)) {
            Some(i) => {
                let r = self.pending[i];
                let (t, a) = if r.admitted {
                    self.ended(adapter, r.token, r.stream_boundary, false)
                } else {
                    self.cancelled(adapter, r.token, r.stream_boundary)
                };
                if t.pending.len() < self.pending.len() {
                    let (u, b) = t.resource_cancelled(adapter, resource_id);
                    (u, a + b)
                } else {
                    (self, Seq::empty())
                }
            },
            None => (self, Seq::empty()),
        }
    }

    /// The finished copies of a resource end, unless one is still running: whether
    /// none was.
    pub open spec fn teardown_finished(self, adapter: u64, resource_id: u32) -> (
        bool,
        BltState,
        Seq<Action>,
    ) {
        if some(self.pending, WindowedBltPending::running_user(resource_id)) {
            (false, self, Seq::empty())
        } else {
            let (t, a) = self.resource_finished(adapter, resource_id);
            (true, t, a)
        }
    }

    /// The first finished copy whose result must be mirrored is claimed.
    pub open spec fn mirror_taken(self) -> (Option<WindowedBltPending>, BltState) {
        match first_index(self.pending, WindowedBltPending::mirrorable()) {
            Some(i) => {
                let claimed = WindowedBltPending { mirror_claimed: true, ..self.pending[i] };
                (
                    Some(claimed),
                    BltState { pending: self.pending.update(i, claimed), ..self },
                )
            },
            None => (None, self),
        }
    }

    /// Copies that the GPU has finished and that name the resource end.
    pub open spec fn resource_finished(self, adapter: u64, resource_id: u32) -> (
        BltState,
        Seq<Action>,
    )
        decreases self.pending.len(),
    {
        match first_index(self.pending, WindowedBltPending::finished_user(resource_id)) {
            Some(i) => {
                let r = self.pending[i];
                let (t, a) = self.ended(adapter, r.token, r.stream_boundary, false);
                if t.pending.len() < self.pending.len() {
                    let (u, b) = t.resource_finished(adapter, resource_id);
                    (u, a + b)
                } else {
                    (self, Seq::empty())
                }
            },
            None => (self, Seq::empty()),
        }
    }
}

impl GpuState {
    /// A copy between these resources behind this boundary cannot be reserved.
    pub open spec fn blt_malformed(
        self,
        source_resource_id: u32,
        destination_resource_id: u32,
        stream_boundary: u64,
    ) -> bool {
        self.queue.failed || !self.streams.boundary_live(stream_boundary) || source_resource_id == 0
            || source_resource_id == destination_resource_id
    }

    /// Whether a copy can be reserved.
    pub open spec fn blt_planned(
        self,
        source_resource_id: u32,
        destination_resource_id: u32,
        stream_boundary: u64,
    ) -> Result<(), VirtioError> {
        if self.blt_malformed(source_resource_id, destination_resource_id, stream_boundary) {
            Err(VirtioError::DeviceError)
        } else if !self.blt.has_room() {
            Err(VirtioError::OutOfMemory)
        } else {
            Ok(())
        }
    }

    /// The answer to a reservation, and the copies after it.
    pub open spec fn blt_queued(
        self,
        adapter: u64,
        source_resource_id: u32,
        destination_resource_id: u32,
        prepared: u64,
        stream_boundary: u64,
        system_backing: bool,
        ledger_ticket: Option<u64>,
    ) -> (Result<u64, VirtioError>, BltState) {
        match self.blt_planned(source_resource_id, destination_resource_id, stream_boundary) {
            Err(e) => (Err(e), self.blt),
            Ok(_) => match ledger_ticket {
                None => (
                    Err(VirtioError::OutOfMemory),
                    BltState { next_token: (self.blt.next_token + 1) as u64, ..self.blt },
                ),
                Some(ticket) => (
                    Ok(self.blt.next_token),
                    self.blt.queued(
                        WindowedBltPending {
                            adapter,
                            token: self.blt.next_token,
                            stream_boundary,
                            source_resource_id,
                            destination_resource_id,
                            prepared,
                            ledger_ticket: ticket,
                            admitted: false,
                            dispatched: false,
                            ring_complete: false,
                            ledger_retired: false,
                            wddm_completion_required: true,
                            system_backing,
                            mirror_claimed: false,
                        },
                    ),
                ),
            },
        }
    }

    /// The copy that is handed to the worker, and the copies after it.
    pub open spec fn ready_taken(self) -> (Option<WindowedBltPending>, BltState) {
        match self.blt.next_ready() {
            Some(i) => {
                let p = self.blt.pending[i];
                if p.admitted && !p.dispatched && self.boundary_ready(p.stream_boundary) {
                    let sent = WindowedBltPending { dispatched: true, ..p };
                    (
                        Some(sent),
                        BltState {
                            pending: self.blt.pending.update(i, sent),
                            ready: self.blt.ready.remove(0),
                            ..self.blt
                        },
                    )
                } else {
                    (None, self.blt)
                }
            },
            None => (None, self.blt),
        }
    }

    /// The scheduler's submission admits a stream's copies up to a token.
    pub open spec fn blt_admitted(self, stream_boundary: u64, max_token: u64) -> BltState {
        if max_token == 0 || !self.streams.boundary_live(stream_boundary) {
            self.blt
        } else {
            self.blt.admitted(stream_boundary, max_token, self.blt.pending.len())
        }
    }
}

impl WindowedBltState {
    /// Admit the copies of a stream up to a token.
    pub(crate) fn admit_prefix(&mut self, stream_boundary: u64, max_token: u64)
        requires
            old(self)@.wf(),
        ensures
            final(self)@ == old(self)@.admitted(
                stream_boundary,
                max_token,
                old(self)@.pending.len(),
            ),
            final(self)@.wf(),
    {
        let ghost before = self@;
        let mut i: usize = 0;
        while i < self.pending.len()
            invariant
                i <= before.pending.len(),
                self@ == before.admitted(stream_boundary, max_token, i as nat),
                self@.pending.len() == before.pending.len(),
                self@.terminal == before.terminal,
                self@.next_token == before.next_token,
                forall|k: int|
                    i <= k < before.pending.len() ==> #[trigger] self@.pending[k]
                        == before.pending[k],
                forall|k: int|
                    0 <= k < before.pending.len() ==> (#[trigger] self@.pending[k]).token
                        == before.pending[k].token,
            decreases self.pending.len() - i,
        {
            let r: WindowedBltPending = self.pending[i];
            if names_same_stream(r.stream_boundary, stream_boundary) && !r.admitted && r.token
                <= max_token {
                self.pending[i] = WindowedBltPending { admitted: true, ..r };
                self.ready.push(r.token);
            }
            i += 1;
        }
        proof {
            assert forall|a: int, b: int| 0 <= a < b < self@.pending.len() implies (
            #[trigger] self@.pending[a]).token != (#[trigger] self@.pending[b]).token by {
                assert(before.pending[a].token != before.pending[b].token);
            }
        }
    }

    /// Copies that were not sent must be admitted anew.
    pub(crate) fn preempt(&mut self)
        requires
            old(self)@.wf(),
        ensures
            final(self)@ == old(self)@.preempted(),
            final(self)@.wf(),
    {
        let ghost before = self@;
        let mut i: usize = 0;
        while i < self.pending.len()
            invariant
                i <= self.pending.len(),
                self.pending@.len() == before.pending.len(),
                self@ == (BltState { pending: self@.pending, ..before }),
                forall|k: int|
                    0 <= k < i ==> #[trigger] self@.pending[k] == before.preempted().pending[k],
                forall|k: int|
                    i <= k < before.pending.len() ==> #[trigger] self@.pending[k]
                        == before.pending[k],
            decreases self.pending.len() - i,
        {
            let r: WindowedBltPending = self.pending[i];
            if !r.dispatched {
                self.pending[i] = WindowedBltPending { admitted: false, ..r };
            }
            i += 1;
        }
        self.ready.clear();
        proof {
            assert(self@.pending =~= before.preempted().pending);
            assert forall|a: int| 0 <= a < self@.pending.len() implies (
            #[trigger] self@.pending[a]).token == before.pending[a].token by {}
            assert forall|a: int, b: int| 0 <= a < b < self@.pending.len() implies (
            #[trigger] self@.pending[a]).token != (#[trigger] self@.pending[b]).token by {
                assert(before.pending[a].token != before.pending[b].token);
            }
        }
    }
}

/// A copy leaves the table when it is cancelled or ends.
proof fn lemma_end_shrinks(s: BltState, adapter: u64, i: int, ok: bool)
    requires
        0 <= i < s.pending.len(),
    ensures
        ({
            let r = s.pending[i];
            &&& s.ended(adapter, r.token, r.stream_boundary, ok).0.pending.len() < s.pending.len()
            &&& s.cancelled(adapter, r.token, r.stream_boundary).0.pending.len() < s.pending.len()
        }),
{
    crate::windowed_blt::lemma_named_exists(s.pending, i);
    lemma_first_index_exists(
        s.pending,
        WindowedBltPending::named(s.pending[i].token, s.pending[i].stream_boundary),
    );
}

impl VirtioGpu {
    /// Whether a copy could be reserved now. The caller claims the reader of the
    /// snapshot only where it could.
    pub fn plan_windowed_blt(
        &self,
        source_resource_id: u32,
        destination_resource_id: u32,
        stream_boundary: u64,
    ) -> (r: Result<(), VirtioError>)
        requires
            self@.streams.wf(),
            self@.blt.wf(),
        ensures
            r == self@.blt_planned(source_resource_id, destination_resource_id, stream_boundary),
    {
        if self.queue.failed || !self.streams.boundary_live(stream_boundary) || source_resource_id
            == 0 || source_resource_id == destination_resource_id {
            return Err(VirtioError::DeviceError);
        }
        if self.blt.pending.len() + self.blt.terminal.len() >= MAX_WINDOWED_BLT_PENDING
            || self.blt.next_token == u64::MAX {
            return Err(VirtioError::OutOfMemory);
        }
        Ok(())
    }

    /// Reserve a copy. `ledger_ticket` is the claim on the snapshot that it reads;
    /// without one the copy is refused, and its token is spent.
    pub fn queue_windowed_blt(
        &mut self,
        adapter: u64,
        source_resource_id: u32,
        destination_resource_id: u32,
        prepared: u64,
        stream_boundary: u64,
        system_backing: bool,
        ledger_ticket: Option<u64>,
    ) -> (r: Result<u64, VirtioError>)
        requires
            old(self)@.wf(),
        ensures
            final(self)@.wf(),
            ({
                let s = old(self)@.blt_queued(
                    adapter,
                    source_resource_id,
                    destination_resource_id,
                    prepared,
                    stream_boundary,
                    system_backing,
                    ledger_ticket,
                );
                r == s.0 && final(self)@ == (GpuState { blt: s.1, ..old(self)@ })
            }),
            final(self)@.follows(old(self)@),
    {
        if self.queue.failed || !self.streams.boundary_live(stream_boundary) || source_resource_id
            == 0 || source_resource_id == destination_resource_id {
            return Err(VirtioError::DeviceError);
        }
        let token: u64 = match self.blt.issue_token() {
            Some(t) => t,
            None => return Err(VirtioError::OutOfMemory),
        };
        let ledger_ticket: u64 = match ledger_ticket {
            Some(t) => t,
            None => return Err(VirtioError::OutOfMemory),
        };
        self.blt.pending.push(
            WindowedBltPending {
                adapter,
                token,
                stream_boundary,
                source_resource_id,
                destination_resource_id,
                prepared,
                ledger_ticket,
                admitted: false,
                dispatched: false,
                ring_complete: false,
                ledger_retired: false,
                wddm_completion_required: true,
                system_backing,
                mirror_claimed: false,
            },
        );
        Ok(token)
    }

    /// Admit a stream's copies up to a token; a dead stream admits none.
    pub(crate) fn admit_windowed_blt_prefix(&mut self, stream_boundary: u64, max_token: u64)
        requires
            old(self)@.streams.wf(),
            old(self)@.blt.wf(),
        ensures
            final(self)@ == (GpuState {
                blt: old(self)@.blt_admitted(stream_boundary, max_token),
                ..old(self)@
            }),
            final(self)@.blt.wf(),
            final(self)@.follows(old(self)@),
    {
        if max_token != 0 && self.streams.boundary_live(stream_boundary) {
            self.blt.admit_prefix(stream_boundary, max_token);
        }
    }

    /// Take the next copy to send: the one admitted first, once its producer is
    /// done. A copy that was not admitted is never taken.
    pub fn take_ready_windowed_blt(&mut self) -> (r: Option<WindowedBltPending>)
        requires
            old(self)@.wf(),
        ensures
            final(self)@.wf(),
            r == old(self)@.ready_taken().0,
            final(self)@ == (GpuState { blt: old(self)@.ready_taken().1, ..old(self)@ }),
            final(self)@.follows(old(self)@),
    {
        if self.blt.ready.len() == 0 {
            return None;
        }
        let token: u64 = self.blt.ready[0];
        let same = |p: &WindowedBltPending| -> (b: bool)
            ensures
                b == WindowedBltPending::tokened(token)(*p),
            { p.token == token };
        let index: usize = match position(
            &self.blt.pending,
            same,
            Ghost(WindowedBltPending::tokened(token)),
        ) {
            Some(i) => i,
            None => return None,
        };
        let request: WindowedBltPending = self.blt.pending[index];
        if !request.admitted || request.dispatched || !self.scanout_boundary_ready(
            request.stream_boundary,
        ) {
            return None;
        }
        let sent = WindowedBltPending { dispatched: true, ..request };
        self.blt.pending[index] = sent;
        let _ = self.blt.ready.remove(0);
        Some(sent)
    }

    /// The GPU has answered a copy. Its reader ends here; a result that must be
    /// mirrored keeps the copy until it is.
    pub fn complete_windowed_blt_ring(
        &mut self,
        adapter: u64,
        token: u64,
        stream_boundary: u64,
        ok: bool,
        out: &mut Vec<Action>,
    )
        requires
            old(self)@.wf(),
        ensures
            final(self)@.wf(),
            final(self)@ == (GpuState {
                blt: old(self)@.blt.ring_completed(adapter, token, stream_boundary, ok).0,
                ..old(self)@
            }),
            final(out)@ == old(out)@ + old(self)@.blt.ring_completed(
                adapter,
                token,
                stream_boundary,
                ok,
            ).1,
            final(self)@.follows(old(self)@),
    {
        self.blt.complete_ring(adapter, token, stream_boundary, ok, out);
    }

    /// A copy's result was mirrored, or need not be any more.
    pub fn complete_windowed_blt_mirror(
        &mut self,
        adapter: u64,
        token: u64,
        stream_boundary: u64,
        ok: bool,
        out: &mut Vec<Action>,
    )
        requires
            old(self)@.wf(),
        ensures
            final(self)@.wf(),
            final(self)@ == (GpuState {
                blt: old(self)@.blt.ended(adapter, token, stream_boundary, ok).0,
                ..old(self)@
            }),
            final(out)@ == old(out)@ + old(self)@.blt.ended(adapter, token, stream_boundary, ok).1,
            final(self)@.follows(old(self)@),
    {
        self.blt.end(adapter, token, stream_boundary, ok, out);
    }

    /// Give up a copy that no submission will name.
    pub fn cancel_windowed_blt(
        &mut self,
        adapter: u64,
        token: u64,
        stream_boundary: u64,
        out: &mut Vec<Action>,
    )
        requires
            old(self)@.wf(),
        ensures
            final(self)@.wf(),
            final(self)@ == (GpuState {
                blt: old(self)@.blt.cancelled(adapter, token, stream_boundary).0,
                ..old(self)@
            }),
            final(out)@ == old(out)@ + old(self)@.blt.cancelled(
                adapter,
                token,
                stream_boundary,
            ).1,
            final(self)@.follows(old(self)@),
    {
        self.blt.cancel(adapter, token, stream_boundary, out);
    }

    /// Give up every copy that was not sent and whose stream is dead.
    pub(crate) fn cancel_dead_undispatched_windowed_blt(&mut self, out: &mut Vec<Action>)
        requires
            old(self)@.streams.wf(),
            old(self)@.blt.wf(),
        ensures
            final(self)@ == (GpuState {
                blt: old(self)@.blt.all_cancelled(
                    WindowedBltPending::orphaned(old(self)@.streams),
                ).0,
                ..old(self)@
            }),
            final(out)@ == old(out)@ + old(self)@.blt.all_cancelled(
                WindowedBltPending::orphaned(old(self)@.streams),
            ).1,
            final(self)@.blt.wf(),
            final(self)@.follows(old(self)@),
    {
        let ghost p = WindowedBltPending::orphaned(self@.streams);
        let streams = &self.streams;
        let dead = |r: &WindowedBltPending| -> (b: bool)
            ensures
                b == WindowedBltPending::orphaned(streams@)(*r),
            { !r.dispatched && !streams.boundary_live(r.stream_boundary) };
        self.blt.cancel_all(dead, Ghost(p), out);
    }

    /// End the copies that were not sent and name a resource that goes away. An
    /// admitted one leaves its end, so that no completion waits for it forever.
    pub fn cancel_windowed_blt_for_resource(
        &mut self,
        adapter: u64,
        resource_id: u32,
        out: &mut Vec<Action>,
    )
        requires
            old(self)@.wf(),
        ensures
            final(self)@.wf(),
            final(self)@ == (GpuState {
                blt: old(self)@.blt.resource_cancelled(adapter, resource_id).0,
                ..old(self)@
            }),
            final(out)@ == old(out)@ + old(self)@.blt.resource_cancelled(adapter, resource_id).1,
            final(self)@.follows(old(self)@),
    {
        let ghost start = self@.blt;
        let ghost log = out@;
        loop
            invariant
                self@.wf(),
                self@ == (GpuState { blt: self@.blt, ..old(self)@ }),
                start.resource_cancelled(adapter, resource_id).0
                    == self@.blt.resource_cancelled(adapter, resource_id).0,
                log + start.resource_cancelled(adapter, resource_id).1 =~= out@
                    + self@.blt.resource_cancelled(adapter, resource_id).1,
            ensures
                self@.wf(),
                self@ == (GpuState {
                    blt: start.resource_cancelled(adapter, resource_id).0,
                    ..old(self)@
                }),
                out@ =~= log + start.resource_cancelled(adapter, resource_id).1,
            decreases self.blt.pending.len(),
        {
            let unsent = |r: &WindowedBltPending| -> (b: bool)
                ensures
                    b == WindowedBltPending::unsent_user(resource_id)(*r),
                { !r.dispatched && r.uses_resource(resource_id) };
            match position(
                &self.blt.pending,
                unsent,
                Ghost(WindowedBltPending::unsent_user(resource_id)),
            ) {
                Some(i) => {
                    let r: WindowedBltPending = self.blt.pending[i];
                    proof {
                        lemma_end_shrinks(self@.blt, adapter, i as int, false);
                    }
                    if r.admitted {
                        self.blt.end(adapter, r.token, r.stream_boundary, false, out);
                    } else {
                        self.blt.cancel(adapter, r.token, r.stream_boundary, out);
                    }
                },
                None => {
                    break ;
                },
            }
        }
    }

    /// End the finished copies that name a resource that goes away. `false`, and
    /// nothing changes, while the GPU may still access the resource.
    pub fn finish_windowed_blt_teardown_for_resource(
        &mut self,
        adapter: u64,
        resource_id: u32,
        out: &mut Vec<Action>,
    ) -> (r: bool)
        requires
            old(self)@.wf(),
        ensures
            final(self)@.wf(),
            r == old(self)@.blt.teardown_finished(adapter, resource_id).0,
            final(self)@ == (GpuState {
                blt: old(self)@.blt.teardown_finished(adapter, resource_id).1,
                ..old(self)@
            }),
            final(out)@ == old(out)@ + old(self)@.blt.teardown_finished(adapter, resource_id).2,
            final(self)@.follows(old(self)@),
    {
        let running = |r: &WindowedBltPending| -> (b: bool)
            ensures
                b == WindowedBltPending::running_user(resource_id)(*r),
            { r.dispatched && !r.ring_complete && r.uses_resource(resource_id) };
        if any(
            &self.blt.pending,
            running,
            Ghost(WindowedBltPending::running_user(resource_id)),
        ) {
            return false;
        }
        let ghost start = self@.blt;
        let ghost log = out@;
        loop
            invariant
                self@.wf(),
                self@ == (GpuState { blt: self@.blt, ..old(self)@ }),
                start.resource_finished(adapter, resource_id).0
                    == self@.blt.resource_finished(adapter, resource_id).0,
                log + start.resource_finished(adapter, resource_id).1 =~= out@
                    + self@.blt.resource_finished(adapter, resource_id).1,
            ensures
                self@.wf(),
                self@ == (GpuState {
                    blt: start.resource_finished(adapter, resource_id).0,
                    ..old(self)@
                }),
                out@ =~= log + start.resource_finished(adapter, resource_id).1,
            decreases self.blt.pending.len(),
        {
            let finished = |r: &WindowedBltPending| -> (b: bool)
                ensures
                    b == WindowedBltPending::finished_user(resource_id)(*r),
                { r.ring_complete && r.uses_resource(resource_id) };
            match position(
                &self.blt.pending,
                finished,
                Ghost(WindowedBltPending::finished_user(resource_id)),
            ) {
                Some(i) => {
                    let r: WindowedBltPending = self.blt.pending[i];
                    proof {
                        lemma_end_shrinks(self@.blt, adapter, i as int, false);
                    }
                    self.blt.end(adapter, r.token, r.stream_boundary, false, out);
                },
                None => {
                    break ;
                },
            }
        }
        true
    }

    /// Claim a finished copy whose result must be mirrored; each is claimed once.
    pub fn take_windowed_blt_mirror(&mut self) -> (r: Option<WindowedBltPending>)
        requires
            old(self)@.wf(),
        ensures
            final(self)@.wf(),
            r == old(self)@.blt.mirror_taken().0,
            final(self)@ == (GpuState { blt: old(self)@.blt.mirror_taken().1, ..old(self)@ }),
            final(self)@.follows(old(self)@),
    {
        let wanted = |r: &WindowedBltPending| -> (b: bool)
            ensures
                b == WindowedBltPending::mirrorable()(*r),
            { r.ring_complete && r.system_backing && !r.mirror_claimed };
        match position(&self.blt.pending, wanted, Ghost(WindowedBltPending::mirrorable())) {
            Some(i) => {
                let claimed = WindowedBltPending { mirror_claimed: true, ..self.blt.pending[i] };
                self.blt.pending[i] = claimed;
                Some(claimed)
            },
            None => None,
        }
    }

    /// Whether the end of this copy waits to be taken.
    pub fn windowed_blt_terminal(&self, token: u64, stream_boundary: u64) -> (r: bool)
        ensures
            r == self@.blt.has_end(token, stream_boundary),
    {
        self.blt.terminal_contains(token, stream_boundary)
    }

    /// Take the ends that a delivered completion stood for.
    pub fn consume_windowed_blt_terminal_prefix(&mut self, prefix: WindowedBltTerminalPrefix)
        requires
            old(self)@.wf(),
        ensures
            final(self)@.wf(),
            final(self)@ == (GpuState { blt: old(self)@.blt.consumed(prefix), ..old(self)@ }),
            final(self)@.follows(old(self)@),
    {
        self.blt.consume_terminal_prefix(prefix);
    }
}

/// Taking a prefix's ends takes all of them and no other stream's.
pub proof fn law_consume_takes_exactly_the_prefix(
    s: BltState,
    prefix: WindowedBltTerminalPrefix,
    end: (u64, u64),
)
    ensures
        s.consumed(prefix).terminal.contains(end) <==> s.terminal.contains(end) && !prefix.holds(
            end.0,
            end.1,
        ),
        !same_stream(prefix.max_boundary, end.1) && s.terminal.contains(end) ==> s.consumed(
            prefix,
        ).terminal.contains(end),
{
    let p = crate::windowed_blt::ends_outside(prefix);
    lemma_filter_contains(s.terminal, p, end);
}

pub(crate) proof fn lemma_filter_contains<T>(s: Seq<T>, p: spec_fn(T) -> bool, x: T)
    ensures
        s.filter(p).contains(x) <==> s.contains(x) && p(x),
    decreases s.len(),
{
    reveal(Seq::filter);
    if s.len() > 0 {
        let t = s.drop_last();
        lemma_filter_contains(t, p, x);
        if s.filter(p).contains(x) {
            let i = choose|i: int| 0 <= i < s.filter(p).len() && s.filter(p)[i] == x;
            if p(s.last()) && i == t.filter(p).len() {
                assert(s.last() == x);
            } else {
                assert(t.filter(p)[i] == x);
                assert(t.contains(x));
                let k = choose|k: int| 0 <= k < t.len() && t[k] == x;
                assert(s[k] == x);
            }
        }
        if s.contains(x) && p(x) {
            let k = choose|k: int| 0 <= k < s.len() && s[k] == x;
            if k == s.len() - 1 {
                assert(s.filter(p) == t.filter(p).push(x));
                assert(s.filter(p).last() == x);
            } else {
                assert(t[k] == x);
                let i = choose|i: int| 0 <= i < t.filter(p).len() && t.filter(p)[i] == x;
                assert(s.filter(p)[i] == x);
            }
        }
    }
}

/// Cancelling every copy that a predicate picks leaves none that it picks.
pub proof fn law_cancel_all_leaves_none(s: BltState, p: spec_fn(WindowedBltPending) -> bool)
    ensures
        !some(s.all_cancelled(p).0.pending, p),
    decreases s.pending.len(),
{
    lemma_first_index_exists(s.pending, p);
    match first_index(s.pending, p) {
        Some(i) => {
            let r = s.pending[i];
            lemma_end_shrinks(s, r.adapter, i, false);
            law_cancel_all_leaves_none(s.cancelled(r.adapter, r.token, r.stream_boundary).0, p);
        },
        None => {},
    }
}

/// Cancelling the copies that a predicate picks keeps every other copy.
pub proof fn law_cancel_all_keeps_the_rest(
    s: BltState,
    p: spec_fn(WindowedBltPending) -> bool,
    r: WindowedBltPending,
)
    requires
        s.wf(),
        s.pending.contains(r),
        !p(r),
    ensures
        s.all_cancelled(p).0.pending.contains(r),
        s.all_cancelled(p).0.terminal == s.terminal,
    decreases s.pending.len(),
{
    lemma_first_index_exists(s.pending, p);
    match first_index(s.pending, p) {
        Some(i) => {
            let x = s.pending[i];
            lemma_end_shrinks(s, x.adapter, i, false);
            let q = WindowedBltPending::named(x.token, x.stream_boundary);
            crate::windowed_blt::lemma_named_exists(s.pending, i);
            lemma_first_index_exists(s.pending, q);
            let j = first_index(s.pending, q)->0;
            assert(s.pending[j].token == x.token);
            assert(j == i);
            let t = s.cancelled(x.adapter, x.token, x.stream_boundary).0;
            crate::windowed_blt::lemma_remove_wf(s, i, t);
            let k = choose|k: int| 0 <= k < s.pending.len() && s.pending[k] == r;
            assert(k != i);
            assert(t.pending[if k < i { k } else { k - 1 }] == r);
            law_cancel_all_keeps_the_rest(t, p, r);
        },
        None => {},
    }
}

/// Abandoning a prefix leaves the copies of other streams as they are.
pub proof fn law_abandon_keeps_other_streams(
    s: BltState,
    prefix: WindowedBltTerminalPrefix,
    r: WindowedBltPending,
)
    requires
        s.wf(),
        s.pending.contains(r),
        !same_stream(prefix.max_boundary, r.stream_boundary),
    ensures
        s.abandoned(prefix).0.pending.contains(r),
{
    let c = s.consumed(prefix);
    lemma_filter_len(s.terminal, crate::windowed_blt::ends_outside(prefix));
    let p = WindowedBltPending::undispatched_in(prefix);
    law_cancel_all_keeps_the_rest(c, p, r);
    let t = c.all_cancelled(p).0;
    let k = choose|k: int| 0 <= k < t.pending.len() && t.pending[k] == r;
    assert(t.disowned(WindowedBltPending::dispatched_in(prefix)).pending[k] == r);
}

pub(crate) proof fn lemma_filter_len<T>(s: Seq<T>, p: spec_fn(T) -> bool)
    ensures
        s.filter(p).len() <= s.len(),
    decreases s.len(),
{
    reveal(Seq::filter);
    if s.len() > 0 {
        lemma_filter_len(s.drop_last(), p);
    }
}

/// Once a prefix is ready, its own end is there and none of its copies can still
/// add one; taking it then leaves no end of the prefix behind.
pub proof fn law_ready_prefix_is_complete(s: BltState, prefix: WindowedBltTerminalPrefix)
    requires
        s.prefix_ready(prefix),
        prefix.holds(prefix.max_token, prefix.max_boundary),
    ensures
        !s.consumed(prefix).has_end(prefix.max_token, prefix.max_boundary),
        forall|i: int|
            0 <= i < s.pending.len() && prefix.holds(
                (#[trigger] s.pending[i]).token,
                s.pending[i].stream_boundary,
            ) ==> !s.pending[i].wddm_completion_required,
{
    assert forall|i: int|
        0 <= i < s.pending.len() && prefix.holds(
            (#[trigger] s.pending[i]).token,
            s.pending[i].stream_boundary,
        ) implies !s.pending[i].wddm_completion_required by {
        assert(!WindowedBltPending::owed_in(prefix)(s.pending[i]));
    }
    law_consume_takes_exactly_the_prefix(s, prefix, (prefix.max_token, prefix.max_boundary));
    let t = s.consumed(prefix);
    let q = crate::windowed_blt::is_end(prefix.max_token, prefix.max_boundary);
    assert forall|i: int| 0 <= i < t.terminal.len() implies !q(#[trigger] t.terminal[i]) by {
        if q(t.terminal[i]) {
            assert(t.terminal[i] == (prefix.max_token, prefix.max_boundary));
            assert(t.terminal.contains((prefix.max_token, prefix.max_boundary)));
        }
    }
}

/// A copy that the scheduler did not admit is never taken, however long its
/// producer has been done, and preemption revokes every admission that was not
/// used.
pub proof fn law_preemption_revokes_admission(s: BltState, i: int)
    requires
        0 <= i < s.pending.len(),
    ensures
        s.preempted().next_ready() is None,
        !s.pending[i].dispatched ==> !s.preempted().pending[i].admitted,
        s.pending[i].dispatched ==> s.preempted().pending[i] == s.pending[i],
{
}

} // verus!
