//! Windowed copies: reserved at present time, admitted by the scheduler, sent to
//! the GPU, and finished by its answer.
//!
//! A copy is named by its token together with its stream boundary. Tokens are
//! comparable within one stream only.
use crate::inflight::Action;
use crate::present_stream::{decode_present_stream_boundary, names_same_stream, same_stream,
    stream_of};
use crate::seqs::{any, find, first_index, lemma_first_index_exists, position, some};
use vstd::prelude::*;

verus! {

/// Most copies that are pending or whose end nobody has taken yet.
pub const MAX_WINDOWED_BLT_PENDING: usize = 64;

/// Every end of one stream's copies up to a token.
#[derive(Clone, Copy, Debug, PartialEq, Eq, Structural)]
pub struct WindowedBltTerminalPrefix {
    pub max_token: u64,
    pub max_boundary: u64,
}

impl WindowedBltTerminalPrefix {
    pub open spec fn of(max_token: u64, max_boundary: u64) -> Option<WindowedBltTerminalPrefix> {
        if stream_of(max_boundary) is Some && max_token != 0 {
            Some(WindowedBltTerminalPrefix { max_token, max_boundary })
        } else {
            None
        }
    }

    /// The prefix up to `max_token`; `None` without a token or a stream.
    pub fn new(max_token: u64, max_boundary: u64) -> (r: Option<Self>)
        ensures
            r == Self::of(max_token, max_boundary),
    {
        if decode_present_stream_boundary(max_boundary).is_some() && max_token != 0 {
            Some(WindowedBltTerminalPrefix { max_token, max_boundary })
        } else {
            None
        }
    }

    pub open spec fn holds(self, token: u64, boundary: u64) -> bool {
        same_stream(self.max_boundary, boundary) && token <= self.max_token
    }

    /// Whether the copy belongs to the prefix.
    pub fn contains(self, token: u64, boundary: u64) -> (r: bool)
        ensures
            r == self.holds(token, boundary),
    {
        names_same_stream(self.max_boundary, boundary) && token <= self.max_token
    }
}

/// One copy.
#[derive(Clone, Copy, Debug, PartialEq, Eq, Structural)]
pub struct WindowedBltPending {
    pub adapter: u64,
    pub token: u64,
    pub stream_boundary: u64,
    pub source_resource_id: u32,
    pub destination_resource_id: u32,
    /// The caller's handle of the prepared commands.
    pub prepared: u64,
    /// The claim on the snapshot that is read.
    pub ledger_ticket: u64,
    /// The scheduler has made the destination resident.
    pub admitted: bool,
    /// The copy is on its way to the GPU.
    pub dispatched: bool,
    pub ring_complete: bool,
    pub ledger_retired: bool,
    /// A completion of the scheduler waits for the copy's end.
    pub wddm_completion_required: bool,
    /// The result must be mirrored into system memory.
    pub system_backing: bool,
    pub mirror_claimed: bool,
}

impl WindowedBltPending {
    pub open spec fn named(token: u64, boundary: u64) -> spec_fn(WindowedBltPending) -> bool {
        |r: WindowedBltPending| r.token == token && r.stream_boundary == boundary
    }

    pub open spec fn tokened(token: u64) -> spec_fn(WindowedBltPending) -> bool {
        |r: WindowedBltPending| r.token == token
    }

    pub open spec fn owed_in(prefix: WindowedBltTerminalPrefix) -> spec_fn(
        WindowedBltPending,
    ) -> bool {
        |r: WindowedBltPending|
            r.wddm_completion_required && prefix.holds(r.token, r.stream_boundary)
    }

    pub open spec fn undispatched_in(prefix: WindowedBltTerminalPrefix) -> spec_fn(
        WindowedBltPending,
    ) -> bool {
        |r: WindowedBltPending| !r.dispatched && prefix.holds(r.token, r.stream_boundary)
    }

    pub open spec fn dispatched_in(prefix: WindowedBltTerminalPrefix) -> spec_fn(
        WindowedBltPending,
    ) -> bool {
        |r: WindowedBltPending| r.dispatched && prefix.holds(r.token, r.stream_boundary)
    }

    pub open spec fn undispatched() -> spec_fn(WindowedBltPending) -> bool {
        |r: WindowedBltPending| !r.dispatched
    }

    pub open spec fn uses(self, resource_id: u32) -> bool {
        self.source_resource_id == resource_id || self.destination_resource_id == resource_id
    }

    pub open spec fn mirrorable() -> spec_fn(WindowedBltPending) -> bool {
        |r: WindowedBltPending| r.ring_complete && r.system_backing && !r.mirror_claimed
    }

    pub fn uses_resource(&self, resource_id: u32) -> (r: bool)
        ensures
            r == self.uses(resource_id),
    {
        self.source_resource_id == resource_id || self.destination_resource_id == resource_id
    }
}

/// What a [`WindowedBltState`] holds.
#[verifier::ext_equal]
pub struct BltState {
    pub pending: Seq<WindowedBltPending>,
    pub ready: Seq<u64>,
    pub terminal: Seq<(u64, u64)>,
    pub next_token: u64,
}

/// All copies.
pub struct WindowedBltState {
    pub pending: Vec<WindowedBltPending>,
    /// Tokens in the order of admission.
    pub ready: Vec<u64>,
    /// Ends that a completion still has to take.
    pub terminal: Vec<(u64, u64)>,
    pub next_token: u64,
}

impl View for WindowedBltState {
    type V = BltState;

    open spec fn view(&self) -> BltState {
        BltState {
            pending: self.pending@,
            ready: self.ready@,
            terminal: self.terminal@,
            next_token: self.next_token,
        }
    }
}

pub open spec fn retire_read(r: WindowedBltPending, cancelled: bool) -> Seq<Action> {
    if r.ledger_retired {
        Seq::empty()
    } else {
        seq![Action::RetireRead { ticket: r.ledger_ticket, cancelled }]
    }
}

pub open spec fn ends_outside(prefix: WindowedBltTerminalPrefix) -> spec_fn((u64, u64)) -> bool {
    |t: (u64, u64)| !prefix.holds(t.0, t.1)
}

pub open spec fn other_than(token: u64) -> spec_fn(u64) -> bool {
    |t: u64| t != token
}

pub open spec fn is_end(token: u64, boundary: u64) -> spec_fn((u64, u64)) -> bool {
    |t: (u64, u64)| t.0 == token && t.1 == boundary
}

impl BltState {
    /// No copy yet.
    pub open spec fn fresh() -> BltState {
        BltState {
            pending: Seq::empty(),
            ready: Seq::empty(),
            terminal: Seq::empty(),
            next_token: 1,
        }
    }

    /// Copies and ends together fit the table, and every pending copy has its own
    /// token, already issued.
    pub open spec fn wf(self) -> bool {
        &&& self.pending.len() + self.terminal.len() <= MAX_WINDOWED_BLT_PENDING
        &&& forall|i: int|
            0 <= i < self.pending.len() ==> (#[trigger] self.pending[i]).token < self.next_token
        &&& forall|i: int, j: int|
            0 <= i < j < self.pending.len() ==> (#[trigger] self.pending[i]).token != (
            #[trigger] self.pending[j]).token
        &&& self.next_token > 0
    }

    pub open spec fn has_end(self, token: u64, boundary: u64) -> bool {
        some(self.terminal, is_end(token, boundary))
    }

    /// The prefix's own end is there, and no copy in the prefix still owes one.
    pub open spec fn prefix_ready(self, prefix: WindowedBltTerminalPrefix) -> bool {
        &&& self.has_end(prefix.max_token, prefix.max_boundary)
        &&& !some(self.pending, WindowedBltPending::owed_in(prefix))
    }

    pub open spec fn consumed(self, prefix: WindowedBltTerminalPrefix) -> BltState {
        BltState { terminal: self.terminal.filter(ends_outside(prefix)), ..self }
    }

    /// A copy is cancelled: its reader ends and it leaves no end behind.
    pub open spec fn cancelled(self, adapter: u64, token: u64, boundary: u64) -> (
        BltState,
        Seq<Action>,
    ) {
        match first_index(self.pending, WindowedBltPending::named(token, boundary)) {
            Some(i) => (
                BltState {
                    pending: self.pending.remove(i),
                    ready: self.ready.filter(other_than(token)),
                    ..self
                },
                retire_read(self.pending[i], true) + seq![Action::WakeDisplay { adapter }],
            ),
            None => (self, Seq::empty()),
        }
    }

    /// Every copy that `p` picks is cancelled, in order.
    pub open spec fn all_cancelled(self, p: spec_fn(WindowedBltPending) -> bool) -> (
        BltState,
        Seq<Action>,
    )
        decreases self.pending.len(),
    {
        match first_index(self.pending, p) {
            Some(i) => {
                let r = self.pending[i];
                let (t, a) = self.cancelled(r.adapter, r.token, r.stream_boundary);
                if t.pending.len() < self.pending.len() {
                    let (u, b) = t.all_cancelled(p);
                    (u, a + b)
                } else {
                    (self, Seq::empty())
                }
            },
            None => (self, Seq::empty()),
        }
    }

    /// A copy ends: its reader ends and, if a completion waits for it, its end is
    /// kept.
    pub open spec fn ended(self, adapter: u64, token: u64, boundary: u64, ok: bool) -> (
        BltState,
        Seq<Action>,
    ) {
        match first_index(self.pending, WindowedBltPending::named(token, boundary)) {
            Some(i) => (
                BltState {
                    pending: self.pending.remove(i),
                    terminal: if self.pending[i].wddm_completion_required {
                        self.terminal.push((token, boundary))
                    } else {
                        self.terminal
                    },
                    ..self
                },
                retire_read(self.pending[i], !ok) + seq![
                    Action::RetireWanted { adapter },
                    Action::WakeDisplay { adapter },
                ],
            ),
            None => (self, Seq::empty()),
        }
    }

    /// The GPU has answered: the reader ends, and so does the copy unless its
    /// result must be mirrored first.
    pub open spec fn ring_completed(self, adapter: u64, token: u64, boundary: u64, ok: bool) -> (
        BltState,
        Seq<Action>,
    ) {
        match first_index(self.pending, WindowedBltPending::named(token, boundary)) {
            Some(i) => {
                let r = self.pending[i];
                let t = BltState {
                    pending: self.pending.update(
                        i,
                        WindowedBltPending { ring_complete: true, ledger_retired: true, ..r },
                    ),
                    ..self
                };
                if !ok || !r.system_backing {
                    let (u, b) = t.ended(adapter, token, boundary, ok);
                    (u, retire_read(r, !ok) + b)
                } else {
                    (t, retire_read(r, !ok) + seq![Action::WakeDisplay { adapter }])
                }
            },
            None => (self, Seq::empty()),
        }
    }

    /// No completion waits any more for the copies that `p` picks.
    pub open spec fn disowned(self, p: spec_fn(WindowedBltPending) -> bool) -> BltState {
        BltState {
            pending: self.pending.map_values(
                |r: WindowedBltPending|
                    if p(r) {
                        (WindowedBltPending { wddm_completion_required: false, ..r })
                    } else {
                        r
                    },
            ),
            ..self
        }
    }

    /// The completion that owned the prefix is gone: its ends and its copies that
    /// were not sent go too, and those that were sent owe no end any more.
    pub open spec fn abandoned(self, prefix: WindowedBltTerminalPrefix) -> (BltState, Seq<Action>) {
        let (t, a) = self.consumed(prefix).all_cancelled(
            WindowedBltPending::undispatched_in(prefix),
        );
        (t.disowned(WindowedBltPending::dispatched_in(prefix)), a)
    }

    /// Every copy's reader ends and nothing is left.
    pub open spec fn aborted(self) -> (BltState, Seq<Action>)
        decreases self.pending.len(),
    {
        if self.pending.len() == 0 {
            (
                BltState {
                    ready: Seq::empty(),
                    terminal: Seq::empty(),
                    ..self
                },
                Seq::empty(),
            )
        } else {
            let (t, a) = BltState { pending: self.pending.drop_first(), ..self }.aborted();
            (t, retire_read(self.pending.first(), true) + a)
        }
    }

    /// The copies of a stream up to a token are admitted, in order.
    pub open spec fn admitted(self, boundary: u64, max_token: u64, n: nat) -> BltState
        decreases n,
    {
        if n == 0 {
            self
        } else {
            let t = self.admitted(boundary, max_token, (n - 1) as nat);
            let r = self.pending[n - 1];
            if same_stream(r.stream_boundary, boundary) && !r.admitted && r.token <= max_token {
                BltState {
                    pending: t.pending.update(n - 1, WindowedBltPending { admitted: true, ..r }),
                    ready: t.ready.push(r.token),
                    ..t
                }
            } else {
                t
            }
        }
    }

    /// Copies that were not sent must be admitted anew.
    pub open spec fn preempted(self) -> BltState {
        BltState {
            pending: self.pending.map_values(
                |r: WindowedBltPending|
                    if r.dispatched {
                        r
                    } else {
                        (WindowedBltPending { admitted: false, ..r })
                    },
            ),
            ready: Seq::empty(),
            ..self
        }
    }
}

pub(crate) proof fn lemma_remove_wf(s: BltState, i: int, t: BltState)
    requires
        s.wf(),
        0 <= i < s.pending.len(),
        t.pending == s.pending.remove(i),
        t.terminal.len() <= s.terminal.len() + 1,
        t.next_token == s.next_token,
    ensures
        t.wf(),
{
    assert forall|a: int| 0 <= a < t.pending.len() implies (#[trigger] t.pending[a]).token
        < t.next_token by {
        let x = if a < i {
            a
        } else {
            a + 1
        };
        assert(t.pending[a] == s.pending[x]);
    }
    assert forall|a: int, b: int| 0 <= a < b < t.pending.len() implies (#[trigger] t.pending[a]).token
        != (#[trigger] t.pending[b]).token by {
        let x = if a < i {
            a
        } else {
            a + 1
        };
        let y = if b < i {
            b
        } else {
            b + 1
        };
        assert(t.pending[a] == s.pending[x] && t.pending[b] == s.pending[y]);
    }
}

impl WindowedBltState {
    pub fn new() -> (r: Self)
        ensures
            r@ == BltState::fresh(),
            r@.wf(),
    {
        WindowedBltState {
            pending: Vec::with_capacity(MAX_WINDOWED_BLT_PENDING),
            ready: Vec::with_capacity(MAX_WINDOWED_BLT_PENDING),
            terminal: Vec::with_capacity(MAX_WINDOWED_BLT_PENDING),
            next_token: 1,
        }
    }

    /// Issue the next token, if there is room for another copy.
    pub(crate) fn issue_token(&mut self) -> (r: Option<u64>)
        requires
            old(self)@.wf(),
        ensures
            r is Some <==> old(self)@.pending.len() + old(self)@.terminal.len()
                < MAX_WINDOWED_BLT_PENDING && old(self)@.next_token < u64::MAX,
            r matches Some(t) ==> t == old(self)@.next_token,
            final(self)@ == if r is Some {
                (BltState { next_token: (old(self)@.next_token + 1) as u64, ..old(self)@ })
            } else {
                old(self)@
            },
            final(self)@.wf(),
    {
        if self.pending.len() + self.terminal.len() >= MAX_WINDOWED_BLT_PENDING {
            return None;
        }
        let token: u64 = self.next_token;
        match token.checked_add(1) {
            Some(next) => {
                self.next_token = next;
                Some(token)
            },
            None => None,
        }
    }

    /// Whether the end of this copy waits to be taken.
    pub fn terminal_contains(&self, token: u64, boundary: u64) -> (r: bool)
        ensures
            r == self@.has_end(token, boundary),
    {
        let same = |t: &(u64, u64)| -> (b: bool)
            ensures
                b == is_end(token, boundary)(*t),
            { t.0 == token && t.1 == boundary };
        any(&self.terminal, same, Ghost(is_end(token, boundary)))
    }

    /// Whether the prefix's own end is there and no copy in it owes one.
    pub fn terminal_prefix_ready(&self, prefix: WindowedBltTerminalPrefix) -> (r: bool)
        ensures
            r == self@.prefix_ready(prefix),
    {
        let owed = |p: &WindowedBltPending| -> (b: bool)
            ensures
                b == WindowedBltPending::owed_in(prefix)(*p),
            { p.wddm_completion_required && prefix.contains(p.token, p.stream_boundary) };
        self.terminal_contains(prefix.max_token, prefix.max_boundary) && !any(
            &self.pending,
            owed,
            Ghost(WindowedBltPending::owed_in(prefix)),
        )
    }

    /// Take the ends of the prefix; those of other streams stay.
    pub(crate) fn consume_terminal_prefix(&mut self, prefix: WindowedBltTerminalPrefix)
        requires
            old(self)@.wf(),
        ensures
            final(self)@ == old(self)@.consumed(prefix),
            final(self)@.wf(),
    {
        let ghost all = self.terminal@;
        let ghost p = ends_outside(prefix);
        let mut kept: Vec<(u64, u64)> = Vec::with_capacity(MAX_WINDOWED_BLT_PENDING);
        let mut i: usize = 0;
        proof {
            reveal(Seq::filter);
            assert(all.take(0).filter(p) =~= Seq::empty());
        }
        while i < self.terminal.len()
            invariant
                self@ == old(self)@,
                all == self.terminal@,
                p == ends_outside(prefix),
                i <= all.len(),
                kept@ == all.take(i as int).filter(p),
                kept@.len() <= i,
            decreases all.len() - i,
        {
            let t: (u64, u64) = self.terminal[i];
            proof {
                reveal(Seq::filter);
                assert(all.take(i + 1).drop_last() =~= all.take(i as int));
            }
            if !prefix.contains(t.0, t.1) {
                kept.push(t);
            }
            i += 1;
        }
        proof {
            assert(all.take(i as int) =~= all);
        }
        self.terminal = kept;
    }

    fn drop_ready(&mut self, token: u64)
        ensures
            final(self)@ == (BltState {
                ready: old(self)@.ready.filter(other_than(token)),
                ..old(self)@
            }),
    {
        let ghost all = self.ready@;
        let ghost p = other_than(token);
        let mut kept: Vec<u64> = Vec::with_capacity(MAX_WINDOWED_BLT_PENDING);
        let mut i: usize = 0;
        proof {
            reveal(Seq::filter);
            assert(all.take(0).filter(p) =~= Seq::empty());
        }
        while i < self.ready.len()
            invariant
                self@ == old(self)@,
                all == self.ready@,
                p == other_than(token),
                i <= all.len(),
                kept@ == all.take(i as int).filter(p),
            decreases all.len() - i,
        {
            let t: u64 = self.ready[i];
            proof {
                reveal(Seq::filter);
                assert(all.take(i + 1).drop_last() =~= all.take(i as int));
            }
            if t != token {
                kept.push(t);
            }
            i += 1;
        }
        proof {
            assert(all.take(i as int) =~= all);
        }
        self.ready = kept;
    }

    /// Cancel a copy.
    pub(crate) fn cancel(&mut self, adapter: u64, token: u64, boundary: u64, out: &mut Vec<Action>)
        requires
            old(self)@.wf(),
        ensures
            final(self)@ == old(self)@.cancelled(adapter, token, boundary).0,
            final(out)@ == old(out)@ + old(self)@.cancelled(adapter, token, boundary).1,
            final(self)@.wf(),
    {
        let same = |r: &WindowedBltPending| -> (b: bool)
            ensures
                b == WindowedBltPending::named(token, boundary)(*r),
            { r.token == token && r.stream_boundary == boundary };
        match position(&self.pending, same, Ghost(WindowedBltPending::named(token, boundary))) {
            Some(i) => {
                let ghost before = self@;
                let r: WindowedBltPending = self.pending.remove(i);
                proof {
                    lemma_remove_wf(before, i as int, self@);
                }
                if !r.ledger_retired {
                    out.push(Action::RetireRead { ticket: r.ledger_ticket, cancelled: true });
                }
                self.drop_ready(token);
                out.push(Action::WakeDisplay { adapter });
            },
            None => {},
        }
    }

    /// End a copy.
    pub(crate) fn end(
        &mut self,
        adapter: u64,
        token: u64,
        boundary: u64,
        ok: bool,
        out: &mut Vec<Action>,
    )
        requires
            old(self)@.wf(),
        ensures
            final(self)@ == old(self)@.ended(adapter, token, boundary, ok).0,
            final(out)@ == old(out)@ + old(self)@.ended(adapter, token, boundary, ok).1,
            final(self)@.wf(),
    {
        let same = |r: &WindowedBltPending| -> (b: bool)
            ensures
                b == WindowedBltPending::named(token, boundary)(*r),
            { r.token == token && r.stream_boundary == boundary };
        match position(&self.pending, same, Ghost(WindowedBltPending::named(token, boundary))) {
            Some(i) => {
                let ghost before = self@;
                let r: WindowedBltPending = self.pending.remove(i);
                if !r.ledger_retired {
                    out.push(Action::RetireRead { ticket: r.ledger_ticket, cancelled: !ok });
                }
                if r.wddm_completion_required {
                    self.terminal.push((token, boundary));
                }
                out.push(Action::RetireWanted { adapter });
                out.push(Action::WakeDisplay { adapter });
                proof {
                    lemma_remove_wf(before, i as int, self@);
                }
            },
            None => {},
        }
    }

    /// The GPU has answered a copy.
    pub(crate) fn complete_ring(
        &mut self,
        adapter: u64,
        token: u64,
        boundary: u64,
        ok: bool,
        out: &mut Vec<Action>,
    )
        requires
            old(self)@.wf(),
        ensures
            final(self)@ == old(self)@.ring_completed(adapter, token, boundary, ok).0,
            final(out)@ == old(out)@ + old(self)@.ring_completed(adapter, token, boundary, ok).1,
            final(self)@.wf(),
    {
        let same = |r: &WindowedBltPending| -> (b: bool)
            ensures
                b == WindowedBltPending::named(token, boundary)(*r),
            { r.token == token && r.stream_boundary == boundary };
        match position(&self.pending, same, Ghost(WindowedBltPending::named(token, boundary))) {
            Some(i) => {
                let r: WindowedBltPending = self.pending[i];
                if !r.ledger_retired {
                    out.push(Action::RetireRead { ticket: r.ledger_ticket, cancelled: !ok });
                }
                self.pending[i] = WindowedBltPending {
                    ring_complete: true,
                    ledger_retired: true,
                    ..r
                };
                if !ok || !r.system_backing {
                    self.end(adapter, token, boundary, ok, out);
                } else {
                    out.push(Action::WakeDisplay { adapter });
                }
            },
            None => {},
        }
    }

    /// Cancel every copy that `f` picks, which decides `p`.
    pub(crate) fn cancel_all<F: Fn(&WindowedBltPending) -> bool>(
        &mut self,
        f: F,
        Ghost(p): Ghost<spec_fn(WindowedBltPending) -> bool>,
        out: &mut Vec<Action>,
    )
        requires
            old(self)@.wf(),
            forall|x: &WindowedBltPending| call_requires(f, (x,)),
            forall|x: &WindowedBltPending, b: bool| call_ensures(f, (x,), b) ==> b == p(*x),
        ensures
            final(self)@ == old(self)@.all_cancelled(p).0,
            final(out)@ == old(out)@ + old(self)@.all_cancelled(p).1,
            final(self)@.wf(),
    {
        let ghost start = self@;
        let ghost log = out@;
        loop
            invariant
                self@.wf(),
                forall|x: &WindowedBltPending| call_requires(f, (x,)),
                forall|x: &WindowedBltPending, b: bool| call_ensures(f, (x,), b) ==> b == p(*x),
                start.all_cancelled(p).0 == self@.all_cancelled(p).0,
                log + start.all_cancelled(p).1 =~= out@ + self@.all_cancelled(p).1,
            ensures
                self@.wf(),
                self@ == start.all_cancelled(p).0,
                out@ =~= log + start.all_cancelled(p).1,
            decreases self.pending.len(),
        {
            match find(&self.pending, &f, Ghost(p)) {
                Some(i) => {
                    let r: WindowedBltPending = self.pending[i];
                    proof {
                        lemma_named_exists(self@.pending, i as int);
                    }
                    self.cancel(r.adapter, r.token, r.stream_boundary, out);
                },
                None => {
                    break ;
                },
            }
        }
    }

    /// No completion waits any more for the copies that `f` picks, which decides
    /// `p`.
    pub(crate) fn disown<F: Fn(&WindowedBltPending) -> bool>(
        &mut self,
        f: F,
        Ghost(p): Ghost<spec_fn(WindowedBltPending) -> bool>,
    )
        requires
            old(self)@.wf(),
            forall|x: &WindowedBltPending| call_requires(f, (x,)),
            forall|x: &WindowedBltPending, b: bool| call_ensures(f, (x,), b) ==> b == p(*x),
        ensures
            final(self)@ == old(self)@.disowned(p),
            final(self)@.wf(),
    {
        let ghost before = self@;
        let mut i: usize = 0;
        while i < self.pending.len()
            invariant
                i <= self.pending.len(),
                forall|x: &WindowedBltPending| call_requires(f, (x,)),
                forall|x: &WindowedBltPending, b: bool| call_ensures(f, (x,), b) ==> b == p(*x),
                self.pending@.len() == before.pending.len(),
                self@ == (BltState { pending: self@.pending, ..before }),
                forall|k: int|
                    0 <= k < i ==> #[trigger] self@.pending[k] == before.disowned(p).pending[k],
                forall|k: int|
                    i <= k < before.pending.len() ==> #[trigger] self@.pending[k]
                        == before.pending[k],
            decreases self.pending.len() - i,
        {
            let r: WindowedBltPending = self.pending[i];
            if f(&r) {
                self.pending[i] = WindowedBltPending { wddm_completion_required: false, ..r };
            }
            i += 1;
        }
        proof {
            assert(self@.pending =~= before.disowned(p).pending);
            lemma_disowned_wf(before, p);
        }
    }

    /// The completion that owned the prefix is gone.
    pub(crate) fn abandon(&mut self, prefix: WindowedBltTerminalPrefix, out: &mut Vec<Action>)
        requires
            old(self)@.wf(),
        ensures
            final(self)@ == old(self)@.abandoned(prefix).0,
            final(out)@ == old(out)@ + old(self)@.abandoned(prefix).1,
            final(self)@.wf(),
    {
        self.consume_terminal_prefix(prefix);
        let unsent = |r: &WindowedBltPending| -> (b: bool)
            ensures
                b == WindowedBltPending::undispatched_in(prefix)(*r),
            { !r.dispatched && prefix.contains(r.token, r.stream_boundary) };
        self.cancel_all(unsent, Ghost(WindowedBltPending::undispatched_in(prefix)), out);
        let sent = |r: &WindowedBltPending| -> (b: bool)
            ensures
                b == WindowedBltPending::dispatched_in(prefix)(*r),
            { r.dispatched && prefix.contains(r.token, r.stream_boundary) };
        self.disown(sent, Ghost(WindowedBltPending::dispatched_in(prefix)));
    }

    /// The transport has failed: no copy will be answered.
    pub(crate) fn abort(&mut self, out: &mut Vec<Action>)
        requires
            old(self)@.wf(),
        ensures
            final(self)@ == old(self)@.aborted().0,
            final(out)@ == old(out)@ + old(self)@.aborted().1,
            final(self)@.wf(),
            final(self)@.pending.len() == 0,
            final(self)@.terminal.len() == 0,
    {
        let ghost start = self@;
        let ghost log = out@;
        loop
            invariant
                self@.wf(),
                start.aborted().0 == self@.aborted().0,
                log + start.aborted().1 =~= out@ + self@.aborted().1,
            ensures
                self@.pending.len() == 0,
                self@.wf(),
                start.aborted().0 == self@.aborted().0,
                out@ =~= log + start.aborted().1,
            decreases self.pending.len(),
        {
            if self.pending.len() == 0 {
                break ;
            }
            let ghost before = self@;
            let r: WindowedBltPending = self.pending.remove(0);
            proof {
                assert(before.pending.remove(0) =~= before.pending.drop_first());
                lemma_remove_wf(before, 0, self@);
            }
            if !r.ledger_retired {
                out.push(Action::RetireRead { ticket: r.ledger_ticket, cancelled: true });
            }
        }
        self.ready.clear();
        self.terminal.clear();
    }
}

pub(crate) proof fn lemma_named_exists(pending: Seq<WindowedBltPending>, i: int)
    requires
        0 <= i < pending.len(),
    ensures
        first_index(
            pending,
            WindowedBltPending::named(pending[i].token, pending[i].stream_boundary),
        ) is Some,
{
    let p = WindowedBltPending::named(pending[i].token, pending[i].stream_boundary);
    lemma_first_index_exists(pending, p);
    assert(p(pending[i]));
}

pub(crate) proof fn lemma_disowned_wf(s: BltState, p: spec_fn(WindowedBltPending) -> bool)
    requires
        s.wf(),
    ensures
        s.disowned(p).wf(),
{
    let t = s.disowned(p);
    assert forall|a: int| 0 <= a < t.pending.len() implies (#[trigger] t.pending[a]).token
        < t.next_token by {
        assert(t.pending[a].token == s.pending[a].token);
    }
    assert forall|a: int, b: int| 0 <= a < b < t.pending.len() implies (#[trigger] t.pending[a]).token
        != (#[trigger] t.pending[b]).token by {
        assert(t.pending[a].token == s.pending[a].token);
        assert(t.pending[b].token == s.pending[b].token);
    }
}

} // verus!
