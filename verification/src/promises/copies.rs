//! What becomes of a windowed copy, and whose memory it still uses.
use crate::blt_ops::{law_cancel_all_keeps_the_rest, law_cancel_all_leaves_none};
use crate::error::VirtioError;
use crate::gpu::GpuState;
use crate::inflight::Action;
use crate::promises::{is_done, law_boundary_is_met_when_done, law_live_boundary_names_a_stream,
    law_same_stream_is_same_handle, names_a_stream, of_one_stream};
use crate::seqs::{first_index, lemma_first_index, lemma_first_index_exists, lemma_no_first_index,
    some};
use crate::windowed_blt::{lemma_disowned_wf, lemma_remove_wf, BltState, WindowedBltPending,
    WindowedBltTerminalPrefix};
use vstd::prelude::*;

verus! {

/// The copy reads or writes the resource.
pub open spec fn touches(r: WindowedBltPending, resource_id: u32) -> bool {
    r.source_resource_id == resource_id || r.destination_resource_id == resource_id
}

/// The copy is on the GPU.
pub open spec fn runs(r: WindowedBltPending) -> bool {
    r.dispatched && !r.ring_complete
}

/// A copy is reserved exactly when the transport works, the stream it waits for is
/// registered, its source is a resource other than its destination, the table has
/// room, and the snapshot it reads is claimed. It gets a token that no copy had, and
/// is neither admitted nor sent.
pub proof fn law_reservation_names_its_copy(
    g: GpuState,
    adapter: u64,
    source: u32,
    destination: u32,
    prepared: u64,
    boundary: u64,
    system_backing: bool,
    ticket: Option<u64>,
)
    requires
        g.wf(),
    ensures
        ({
            let (r, t) = g.blt_queued(
                adapter,
                source,
                destination,
                prepared,
                boundary,
                system_backing,
                ticket,
            );
            let sound = !g.queue.failed && names_a_stream(g.streams, boundary) && source != 0
                && source != destination;
            let room = g.blt.pending.len() + g.blt.terminal.len() < 64 && g.blt.next_token
                < u64::MAX;
            &&& r is Ok <==> sound && room && ticket is Some
            &&& !sound ==> r == Err::<u64, VirtioError>(VirtioError::DeviceError)
            &&& sound && r is Err ==> r == Err::<u64, VirtioError>(VirtioError::OutOfMemory)
            &&& r is Err ==> t.pending == g.blt.pending && t.ready == g.blt.ready && t.terminal
                == g.blt.terminal
            &&& r matches Ok(token) ==> {
                let c = t.pending.last();
                &&& t.pending.len() == g.blt.pending.len() + 1
                &&& t.pending.drop_last() == g.blt.pending
                &&& t.ready == g.blt.ready
                &&& t.terminal == g.blt.terminal
                &&& c.token == token
                &&& token < t.next_token
                &&& forall|i: int|
                    0 <= i < g.blt.pending.len() ==> (#[trigger] g.blt.pending[i]).token < token
                &&& c.adapter == adapter
                &&& c.stream_boundary == boundary
                &&& c.source_resource_id == source
                &&& c.destination_resource_id == destination
                &&& c.prepared == prepared
                &&& Some(c.ledger_ticket) == ticket
                &&& c.system_backing == system_backing
                &&& !c.admitted && !c.dispatched && !c.ring_complete && !c.ledger_retired
                    && !c.mirror_claimed
                &&& c.wddm_completion_required
            }
            &&& g.blt_planned(source, destination, boundary) is Ok <==> sound && room
            &&& t.next_token >= g.blt.next_token
        }),
{
    law_live_boundary_names_a_stream(g.streams, boundary);
    let t = g.blt_queued(
        adapter,
        source,
        destination,
        prepared,
        boundary,
        system_backing,
        ticket,
    ).1;
    if t.pending.len() > g.blt.pending.len() {
        assert(t.pending.drop_last() =~= g.blt.pending);
    }
}

/// A submission admits exactly its stream's copies up to its token, if the stream is
/// registered, and lines them up behind those admitted before.
pub proof fn law_admission_is_for_the_named_copies(g: GpuState, boundary: u64, token: u64)
    requires
        g.wf(),
    ensures
        ({
            let t = g.blt_admitted(boundary, token);
            let live = token != 0 && names_a_stream(g.streams, boundary);
            &&& t.pending.len() == g.blt.pending.len()
            &&& t.terminal == g.blt.terminal
            &&& t.next_token == g.blt.next_token
            &&& forall|i: int|
                0 <= i < t.pending.len() ==> #[trigger] t.pending[i] == if live && of_one_stream(
                    g.blt.pending[i].stream_boundary,
                    boundary,
                ) && g.blt.pending[i].token <= token {
                    WindowedBltPending { admitted: true, ..g.blt.pending[i] }
                } else {
                    g.blt.pending[i]
                }
            &&& t.ready.len() >= g.blt.ready.len()
            &&& t.ready.take(g.blt.ready.len() as int) == g.blt.ready
            &&& forall|i: int|
                0 <= i < t.pending.len() && (#[trigger] t.pending[i]).admitted
                    && !g.blt.pending[i].admitted ==> t.ready.contains(t.pending[i].token)
            &&& forall|k: int|
                g.blt.ready.len() <= k < t.ready.len() ==> exists|i: int|
                    0 <= i < t.pending.len() && (#[trigger] g.blt.pending[i]).token
                        == #[trigger] t.ready[k] && t.pending[i].admitted
                        && !g.blt.pending[i].admitted
        }),
{
    law_live_boundary_names_a_stream(g.streams, boundary);
    if token != 0 && names_a_stream(g.streams, boundary) {
        lemma_admitted(g.blt, boundary, token, g.blt.pending.len());
    } else {
        assert(g.blt.ready.take(g.blt.ready.len() as int) =~= g.blt.ready);
    }
}

proof fn lemma_admitted(s: BltState, boundary: u64, token: u64, n: nat)
    requires
        n <= s.pending.len(),
    ensures
        ({
            let t = s.admitted(boundary, token, n);
            &&& t.pending.len() == s.pending.len()
            &&& t.terminal == s.terminal
            &&& t.next_token == s.next_token
            &&& forall|i: int|
                0 <= i < t.pending.len() ==> #[trigger] t.pending[i] == if i < n && of_one_stream(
                    s.pending[i].stream_boundary,
                    boundary,
                ) && s.pending[i].token <= token {
                    WindowedBltPending { admitted: true, ..s.pending[i] }
                } else {
                    s.pending[i]
                }
            &&& t.ready.len() >= s.ready.len()
            &&& t.ready.take(s.ready.len() as int) == s.ready
            &&& forall|i: int|
                0 <= i < t.pending.len() && (#[trigger] t.pending[i]).admitted
                    && !s.pending[i].admitted ==> t.ready.contains(t.pending[i].token)
            &&& forall|k: int|
                s.ready.len() <= k < t.ready.len() ==> exists|i: int|
                    0 <= i < t.pending.len() && (#[trigger] s.pending[i]).token
                        == #[trigger] t.ready[k] && t.pending[i].admitted && !s.pending[i].admitted
        }),
    decreases n,
{
    let t = s.admitted(boundary, token, n);
    if n == 0 {
        assert(t.ready.take(s.ready.len() as int) =~= s.ready);
    } else {
        lemma_admitted(s, boundary, token, (n - 1) as nat);
        let u = s.admitted(boundary, token, (n - 1) as nat);
        let r = s.pending[n - 1];
        law_same_stream_is_same_handle(r.stream_boundary, boundary);
        assert(u.pending[n - 1] == r);
        if r.admitted {
            assert(r == (WindowedBltPending { admitted: true, ..r }));
        }
        assert forall|i: int| 0 <= i < t.pending.len() implies #[trigger] t.pending[i] == if i < n
            && of_one_stream(s.pending[i].stream_boundary, boundary) && s.pending[i].token
            <= token {
            WindowedBltPending { admitted: true, ..s.pending[i] }
        } else {
            s.pending[i]
        } by {
            if i != n - 1 {
                assert(t.pending[i] == u.pending[i]);
            }
        }
        assert(t.ready.take(s.ready.len() as int) =~= u.ready.take(s.ready.len() as int));
        assert forall|i: int|
            0 <= i < t.pending.len() && (#[trigger] t.pending[i]).admitted
                && !s.pending[i].admitted implies t.ready.contains(t.pending[i].token) by {
            if i == n - 1 {
                assert(t.ready[t.ready.len() - 1] == r.token);
            } else {
                assert(u.pending[i] == t.pending[i]);
                let k = choose|k: int| 0 <= k < u.ready.len() && u.ready[k] == t.pending[i].token;
                assert(t.ready[k] == u.ready[k]);
            }
        }
        assert forall|k: int| s.ready.len() <= k < t.ready.len() implies exists|i: int|
            0 <= i < t.pending.len() && (#[trigger] s.pending[i]).token == #[trigger] t.ready[k]
                && t.pending[i].admitted && !s.pending[i].admitted by {
            if k < u.ready.len() {
                assert(t.ready[k] == u.ready[k]);
                let i = choose|i: int|
                    0 <= i < u.pending.len() && (#[trigger] s.pending[i]).token == u.ready[k]
                        && u.pending[i].admitted && !s.pending[i].admitted;
                assert(s.pending[i].token == t.ready[k]);
                assert(t.pending[i].admitted);
            } else {
                assert(s.pending[n - 1].token == t.ready[k]);
                assert(t.pending[n - 1].admitted);
            }
        }
    }
}

/// The worker gets the copy that was admitted first, exactly when its producer is
/// done; it is marked as sent, once. No other copy moves.
pub proof fn law_sent_copy_was_admitted_and_ready(g: GpuState)
    requires
        g.wf(),
    ensures
        ({
            let (r, t) = g.ready_taken();
            &&& r matches Some(c) ==> {
                &&& g.blt.ready.len() > 0 && c.token == g.blt.ready[0]
                &&& t.ready == g.blt.ready.skip(1)
                &&& is_done(g, c.stream_boundary)
                &&& c.admitted && c.dispatched
                &&& t.pending.len() == g.blt.pending.len()
                &&& exists|i: int|
                    0 <= i < g.blt.pending.len() && c == (WindowedBltPending {
                        dispatched: true,
                        ..#[trigger] g.blt.pending[i]
                    }) && !g.blt.pending[i].dispatched && t.pending == g.blt.pending.update(i, c)
            }
            &&& r is None ==> t == g.blt
            &&& forall|i: int|
                0 <= i < g.blt.pending.len() && g.blt.ready.len() > 0 && (
                #[trigger] g.blt.pending[i]).token == g.blt.ready[0] && g.blt.pending[i].admitted
                    && !g.blt.pending[i].dispatched && is_done(g, g.blt.pending[i].stream_boundary)
                    ==> r is Some
            &&& t.terminal == g.blt.terminal
            &&& t.next_token == g.blt.next_token
        }),
{
    let (r, t) = g.ready_taken();
    if g.blt.ready.len() > 0 {
        let p = WindowedBltPending::tokened(g.blt.ready[0]);
        lemma_first_index_exists(g.blt.pending, p);
        if let Some(i) = first_index(g.blt.pending, p) {
            law_boundary_is_met_when_done(g, g.blt.pending[i].stream_boundary);
            assert(g.blt.pending[i].token == g.blt.ready[0]);
            assert forall|k: int|
                0 <= k < g.blt.pending.len() && (#[trigger] g.blt.pending[k]).token
                    == g.blt.ready[0] implies k == i by {
                if k < i {
                    assert(g.blt.pending[k].token != g.blt.pending[i].token);
                } else if i < k {
                    assert(g.blt.pending[i].token != g.blt.pending[k].token);
                }
            }
            assert(g.blt.ready.remove(0) =~= g.blt.ready.skip(1));
        } else {
            assert forall|k: int| 0 <= k < g.blt.pending.len() implies (
            #[trigger] g.blt.pending[k]).token != g.blt.ready[0] by {
                assert(!p(g.blt.pending[k]));
            }
        }
    }
}

/// The name of a copy is its own.
proof fn lemma_own_name(s: BltState, i: int)
    requires
        s.wf(),
        0 <= i < s.pending.len(),
    ensures
        first_index(
            s.pending,
            WindowedBltPending::named(s.pending[i].token, s.pending[i].stream_boundary),
        ) == Some(i),
{
    let p = WindowedBltPending::named(s.pending[i].token, s.pending[i].stream_boundary);
    assert forall|j: int| 0 <= j < i implies !p(#[trigger] s.pending[j]) by {
        assert(s.pending[j].token != s.pending[i].token);
    }
    lemma_first_index(s.pending, p, i);
}

/// A copy that ends leaves the table. Its reader of the snapshot ends now, unless it
/// has before, and as cancelled where the copy failed; a completion that waits for
/// the copy finds its end. Other copies and ends stay.
pub proof fn law_end_of_a_copy(s: BltState, adapter: u64, i: int, ok: bool)
    requires
        s.wf(),
        0 <= i < s.pending.len(),
    ensures
        ({
            let c = s.pending[i];
            let (t, a) = s.ended(adapter, c.token, c.stream_boundary, ok);
            &&& t.pending == s.pending.remove(i)
            &&& t.terminal == if c.wddm_completion_required {
                s.terminal.push((c.token, c.stream_boundary))
            } else {
                s.terminal
            }
            &&& t.next_token == s.next_token
            &&& t.ready == s.ready
            &&& c.ledger_retired ==> a == seq![
                Action::RetireWanted { adapter },
                Action::WakeDisplay { adapter },
            ]
            &&& !c.ledger_retired ==> a == seq![
                Action::RetireRead { ticket: c.ledger_ticket, cancelled: !ok },
                Action::RetireWanted { adapter },
                Action::WakeDisplay { adapter },
            ]
            &&& t.wf()
        }),
{
    lemma_own_name(s, i);
    let c = s.pending[i];
    let (t, a) = s.ended(adapter, c.token, c.stream_boundary, ok);
    lemma_remove_wf(s, i, t);
    if c.ledger_retired {
        assert(a =~= seq![Action::RetireWanted { adapter }, Action::WakeDisplay { adapter }]);
    } else {
        assert(a =~= seq![
            Action::RetireRead { ticket: c.ledger_ticket, cancelled: !ok },
            Action::RetireWanted { adapter },
            Action::WakeDisplay { adapter },
        ]);
    }
}

/// The GPU's answer ends a copy's reader, once. A copy whose result must be mirrored
/// stays until it is, if it succeeded; any other ends with it.
pub proof fn law_answer_to_a_copy(s: BltState, adapter: u64, i: int, ok: bool)
    requires
        s.wf(),
        0 <= i < s.pending.len(),
        !s.pending[i].ledger_retired,
    ensures
        ({
            let c = s.pending[i];
            let (t, a) = s.ring_completed(adapter, c.token, c.stream_boundary, ok);
            let read = Action::RetireRead { ticket: c.ledger_ticket, cancelled: !ok };
            if ok && c.system_backing {
                &&& t.pending == s.pending.update(
                    i,
                    WindowedBltPending { ring_complete: true, ledger_retired: true, ..c },
                )
                &&& t.terminal == s.terminal
                &&& a == seq![read, Action::WakeDisplay { adapter }]
            } else {
                &&& t.pending == s.pending.remove(i)
                &&& t.terminal == if c.wddm_completion_required {
                    s.terminal.push((c.token, c.stream_boundary))
                } else {
                    s.terminal
                }
                &&& a == seq![
                    read,
                    Action::RetireWanted { adapter },
                    Action::WakeDisplay { adapter },
                ]
            }
        }),
{
    lemma_own_name(s, i);
    let c = s.pending[i];
    let (t, a) = s.ring_completed(adapter, c.token, c.stream_boundary, ok);
    let read = Action::RetireRead { ticket: c.ledger_ticket, cancelled: !ok };
    let done = WindowedBltPending { ring_complete: true, ledger_retired: true, ..c };
    let u = BltState { pending: s.pending.update(i, done), ..s };
    assert forall|x: int, y: int| 0 <= x < y < u.pending.len() implies (
    #[trigger] u.pending[x]).token != (#[trigger] u.pending[y]).token by {
        assert(s.pending[x].token != s.pending[y].token);
    }
    assert forall|x: int| 0 <= x < u.pending.len() implies (#[trigger] u.pending[x]).token
        < u.next_token by {
        assert(s.pending[x].token < s.next_token);
    }
    law_end_of_a_copy(u, adapter, i, ok);
    if ok && c.system_backing {
        assert(a =~= seq![read, Action::WakeDisplay { adapter }]);
    } else {
        assert(t.pending =~= s.pending.remove(i));
        assert(a =~= seq![read, Action::RetireWanted { adapter }, Action::WakeDisplay { adapter }]);
    }
}

/// An answer or an end for a copy that is not there changes nothing.
pub proof fn law_unknown_copy_changes_nothing(
    s: BltState,
    adapter: u64,
    token: u64,
    boundary: u64,
    ok: bool,
)
    requires
        forall|i: int|
            0 <= i < s.pending.len() ==> (#[trigger] s.pending[i]).token != token
                || s.pending[i].stream_boundary != boundary,
    ensures
        s.ended(adapter, token, boundary, ok) == (s, Seq::<Action>::empty()),
        s.ring_completed(adapter, token, boundary, ok) == (s, Seq::<Action>::empty()),
        s.cancelled(adapter, token, boundary) == (s, Seq::<Action>::empty()),
{
    lemma_no_first_index(s.pending, WindowedBltPending::named(token, boundary));
}

/// A copy that is given up leaves the table and the line of admitted ones, without an
/// end; its reader ends as cancelled.
pub proof fn law_given_up_copy_leaves_no_end(s: BltState, adapter: u64, i: int)
    requires
        s.wf(),
        0 <= i < s.pending.len(),
    ensures
        ({
            let c = s.pending[i];
            let (t, a) = s.cancelled(adapter, c.token, c.stream_boundary);
            &&& t.pending == s.pending.remove(i)
            &&& t.terminal == s.terminal
            &&& t.next_token == s.next_token
            &&& forall|x: u64| #[trigger]
                t.ready.contains(x) <==> s.ready.contains(x) && x != c.token
            &&& c.ledger_retired ==> a == seq![Action::WakeDisplay { adapter }]
            &&& !c.ledger_retired ==> a == seq![
                Action::RetireRead { ticket: c.ledger_ticket, cancelled: true },
                Action::WakeDisplay { adapter },
            ]
            &&& t.wf()
        }),
{
    lemma_own_name(s, i);
    let c = s.pending[i];
    let (t, a) = s.cancelled(adapter, c.token, c.stream_boundary);
    lemma_remove_wf(s, i, t);
    assert forall|x: u64| #[trigger] t.ready.contains(x) <==> s.ready.contains(x) && x
        != c.token by {
        crate::blt_ops::lemma_filter_contains(
            s.ready,
            crate::windowed_blt::other_than(c.token),
            x,
        );
    }
    if c.ledger_retired {
        assert(a =~= seq![Action::WakeDisplay { adapter }]);
    } else {
        assert(a =~= seq![
            Action::RetireRead { ticket: c.ledger_ticket, cancelled: true },
            Action::WakeDisplay { adapter },
        ]);
    }
}

/// A resource may be freed exactly when no copy that reads or writes it is on the GPU;
/// while one is, nothing changes. Afterwards no copy that the GPU has had uses the
/// resource: each has left, with its end where a completion waits for it. Copies of
/// other resources and ends stay.
pub proof fn law_freed_memory_is_not_in_use(s: BltState, adapter: u64, resource_id: u32)
    requires
        s.wf(),
    ensures
        ({
            let (free, t, a) = s.teardown_finished(adapter, resource_id);
            &&& free <==> forall|i: int|
                0 <= i < s.pending.len() && runs(#[trigger] s.pending[i]) ==> !touches(
                    s.pending[i],
                    resource_id,
                )
            &&& !free ==> t == s && a.len() == 0
            &&& free ==> forall|i: int|
                0 <= i < t.pending.len() && touches(#[trigger] t.pending[i], resource_id)
                    ==> !t.pending[i].dispatched && !t.pending[i].ring_complete
            &&& forall|c: WindowedBltPending| #[trigger]
                t.pending.contains(c) ==> s.pending.contains(c)
            &&& forall|c: WindowedBltPending| #[trigger]
                s.pending.contains(c) && !(c.ring_complete && touches(c, resource_id))
                    ==> t.pending.contains(c)
            &&& forall|c: WindowedBltPending| #[trigger]
                s.pending.contains(c) && !t.pending.contains(c) && c.wddm_completion_required
                    ==> t.terminal.contains((c.token, c.stream_boundary))
            &&& forall|e: (u64, u64)| #[trigger] s.terminal.contains(e) ==> t.terminal.contains(e)
        }),
{
    let running = WindowedBltPending::running_user(resource_id);
    let (free, t, a) = s.teardown_finished(adapter, resource_id);
    assert forall|i: int| 0 <= i < s.pending.len() implies (running(#[trigger] s.pending[i])
        <==> runs(s.pending[i]) && touches(s.pending[i], resource_id)) by {}
    if !(forall|i: int|
        0 <= i < s.pending.len() && runs(#[trigger] s.pending[i]) ==> !touches(
            s.pending[i],
            resource_id,
        )) {
        let i = choose|i: int|
            0 <= i < s.pending.len() && runs(#[trigger] s.pending[i]) && touches(
                s.pending[i],
                resource_id,
            );
        assert(running(s.pending[i]));
    }
    if free {
        lemma_finished(s, adapter, resource_id);
        assert forall|i: int|
            0 <= i < t.pending.len() && touches(#[trigger] t.pending[i], resource_id) implies
            !t.pending[i].dispatched && !t.pending[i].ring_complete by {
            let c = t.pending[i];
            assert(t.pending.contains(c));
            let k = choose|k: int| 0 <= k < s.pending.len() && s.pending[k] == c;
            assert(!running(s.pending[k]));
            assert(!WindowedBltPending::finished_user(resource_id)(t.pending[i]));
        }
    }
}

proof fn lemma_finished(s: BltState, adapter: u64, resource_id: u32)
    requires
        s.wf(),
    ensures
        ({
            let t = s.resource_finished(adapter, resource_id).0;
            &&& forall|i: int|
                0 <= i < t.pending.len() ==> !WindowedBltPending::finished_user(resource_id)(
                    #[trigger] t.pending[i],
                )
            &&& forall|c: WindowedBltPending| #[trigger]
                t.pending.contains(c) ==> s.pending.contains(c)
            &&& forall|c: WindowedBltPending| #[trigger]
                s.pending.contains(c) && !(c.ring_complete && touches(c, resource_id))
                    ==> t.pending.contains(c)
            &&& forall|c: WindowedBltPending| #[trigger]
                s.pending.contains(c) && !t.pending.contains(c) && c.wddm_completion_required
                    ==> t.terminal.contains((c.token, c.stream_boundary))
            &&& forall|e: (u64, u64)| #[trigger] s.terminal.contains(e) ==> t.terminal.contains(e)
        }),
    decreases s.pending.len(),
{
    let p = WindowedBltPending::finished_user(resource_id);
    lemma_first_index_exists(s.pending, p);
    let t = s.resource_finished(adapter, resource_id).0;
    if let Some(i) = first_index(s.pending, p) {
        let r = s.pending[i];
        assert(p(r));
        law_end_of_a_copy(s, adapter, i, false);
        let u = s.ended(adapter, r.token, r.stream_boundary, false).0;
        lemma_finished(u, adapter, resource_id);
        lemma_without(s, u, i);
        assert(u.pending.len() < s.pending.len());
        assert(t == u.resource_finished(adapter, resource_id).0);
        assert forall|c: WindowedBltPending| #[trigger] t.pending.contains(c) implies
            s.pending.contains(c) by {
            assert(u.pending.contains(c));
        }
        assert forall|c: WindowedBltPending| #[trigger]
            s.pending.contains(c) && !t.pending.contains(c) && c.wddm_completion_required implies
            t.terminal.contains((c.token, c.stream_boundary)) by {
            if c == r {
                assert(u.terminal.contains((c.token, c.stream_boundary)));
            } else {
                assert(u.pending.contains(c));
            }
        }
        assert forall|c: WindowedBltPending| #[trigger]
            s.pending.contains(c) && !(c.ring_complete && touches(c, resource_id)) implies
            t.pending.contains(c) by {
            assert(u.pending.contains(c));
        }
        assert forall|e: (u64, u64)| #[trigger] s.terminal.contains(e) implies t.terminal.contains(
            e,
        ) by {
            assert(u.terminal.contains(e));
        }
    }
}

/// What the table holds without one of its copies.
proof fn lemma_without(s: BltState, u: BltState, i: int)
    requires
        0 <= i < s.pending.len(),
        u.pending == s.pending.remove(i),
        u.terminal == s.terminal || exists|e: (u64, u64)| u.terminal == #[trigger] s.terminal.push(
            e,
        ),
    ensures
        forall|c: WindowedBltPending| #[trigger] u.pending.contains(c) ==> s.pending.contains(c),
        forall|c: WindowedBltPending| #[trigger]
            s.pending.contains(c) && c != s.pending[i] ==> u.pending.contains(c),
        forall|e: (u64, u64)| #[trigger] s.terminal.contains(e) ==> u.terminal.contains(e),
        u.terminal != s.terminal ==> u.terminal.contains(u.terminal.last()),
{
    assert forall|c: WindowedBltPending| #[trigger] u.pending.contains(c) implies
        s.pending.contains(c) by {
        let k = choose|k: int| 0 <= k < u.pending.len() && u.pending[k] == c;
        assert(s.pending[if k < i {
            k
        } else {
            k + 1
        }] == c);
    }
    assert forall|c: WindowedBltPending| #[trigger]
        s.pending.contains(c) && c != s.pending[i] implies u.pending.contains(c) by {
        let k = choose|k: int| 0 <= k < s.pending.len() && s.pending[k] == c;
        assert(u.pending[if k < i {
            k
        } else {
            k - 1
        }] == c);
    }
    assert forall|e: (u64, u64)| #[trigger] s.terminal.contains(e) implies u.terminal.contains(
        e,
    ) by {
        let k = choose|k: int| 0 <= k < s.terminal.len() && s.terminal[k] == e;
        assert(u.terminal[k] == e);
    }
    if u.terminal != s.terminal {
        assert(u.terminal[u.terminal.len() - 1] == u.terminal.last());
    }
}

/// A resource that goes away takes with it every copy that names it and was not sent.
/// An admitted one leaves its end, so that no completion waits for it; copies that
/// were sent, and those of other resources, stay.
pub proof fn law_unsent_copies_go_with_the_resource(s: BltState, adapter: u64, resource_id: u32)
    requires
        s.wf(),
    ensures
        ({
            let t = s.resource_cancelled(adapter, resource_id).0;
            &&& forall|i: int|
                0 <= i < t.pending.len() && touches(#[trigger] t.pending[i], resource_id)
                    ==> t.pending[i].dispatched
            &&& forall|c: WindowedBltPending| #[trigger]
                t.pending.contains(c) ==> s.pending.contains(c)
            &&& forall|c: WindowedBltPending| #[trigger]
                s.pending.contains(c) && (c.dispatched || !touches(c, resource_id))
                    ==> t.pending.contains(c)
            &&& forall|c: WindowedBltPending| #[trigger]
                s.pending.contains(c) && !c.dispatched && touches(c, resource_id) && c.admitted
                    && c.wddm_completion_required ==> t.terminal.contains(
                    (c.token, c.stream_boundary),
                )
            &&& forall|e: (u64, u64)| #[trigger] s.terminal.contains(e) ==> t.terminal.contains(e)
        }),
    decreases s.pending.len(),
{
    let p = WindowedBltPending::unsent_user(resource_id);
    lemma_first_index_exists(s.pending, p);
    let t = s.resource_cancelled(adapter, resource_id).0;
    match first_index(s.pending, p) {
        Some(i) => {
            let r = s.pending[i];
            assert(p(r));
            law_end_of_a_copy(s, adapter, i, false);
            law_given_up_copy_leaves_no_end(s, adapter, i);
            let u = if r.admitted {
                s.ended(adapter, r.token, r.stream_boundary, false).0
            } else {
                s.cancelled(adapter, r.token, r.stream_boundary).0
            };
            law_unsent_copies_go_with_the_resource(u, adapter, resource_id);
            lemma_without(s, u, i);
            assert(u.pending.len() < s.pending.len());
            assert(t == u.resource_cancelled(adapter, resource_id).0);
            assert forall|c: WindowedBltPending| #[trigger] t.pending.contains(c) implies
                s.pending.contains(c) by {
                assert(u.pending.contains(c));
            }
            assert forall|c: WindowedBltPending| #[trigger]
                s.pending.contains(c) && !c.dispatched && touches(c, resource_id) && c.admitted
                    && c.wddm_completion_required implies t.terminal.contains(
                (c.token, c.stream_boundary),
            ) by {
                if c == r {
                    assert(u.terminal.contains((c.token, c.stream_boundary)));
                } else {
                    assert(u.pending.contains(c));
                }
            }
            assert forall|c: WindowedBltPending| #[trigger]
                s.pending.contains(c) && (c.dispatched || !touches(c, resource_id)) implies
                t.pending.contains(c) by {
                assert(u.pending.contains(c));
            }
            assert forall|e: (u64, u64)| #[trigger] s.terminal.contains(e) implies
                t.terminal.contains(e) by {
                assert(u.terminal.contains(e));
            }
        },
        None => {
            assert forall|i: int|
                0 <= i < s.pending.len() && touches(#[trigger] s.pending[i], resource_id) implies
                s.pending[i].dispatched by {
                assert(!p(s.pending[i]));
            }
            assert forall|c: WindowedBltPending| #[trigger]
                s.pending.contains(c) && !c.dispatched && touches(c, resource_id) implies false by {
                let k = choose|k: int| 0 <= k < s.pending.len() && s.pending[k] == c;
                assert(!p(s.pending[k]));
            }
        },
    }
}

/// A completion that is given up takes with it the ends of its copies and those copies
/// that were not sent; those that were sent owe no end any more. Ends and copies of
/// other streams, and later ones of its own, stay as they are.
pub proof fn law_given_up_completion_owes_nothing(
    s: BltState,
    token: u64,
    boundary: u64,
)
    requires
        s.wf(),
    ensures
        ({
            let t = s.abandoned(
                WindowedBltTerminalPrefix { max_token: token, max_boundary: boundary },
            ).0;
            &&& forall|i: int|
                0 <= i < t.pending.len() && of_one_stream(
                    (#[trigger] t.pending[i]).stream_boundary,
                    boundary,
                ) && t.pending[i].token <= token ==> t.pending[i].dispatched
                    && !t.pending[i].wddm_completion_required
            &&& forall|e: (u64, u64)| #[trigger]
                t.terminal.contains(e) <==> s.terminal.contains(e) && !(of_one_stream(
                    e.1,
                    boundary,
                ) && e.0 <= token)
            &&& forall|c: WindowedBltPending| #[trigger]
                s.pending.contains(c) && !(of_one_stream(c.stream_boundary, boundary) && c.token
                    <= token) ==> t.pending.contains(c)
            &&& forall|c: WindowedBltPending| #[trigger]
                s.pending.contains(c) && c.dispatched && of_one_stream(c.stream_boundary, boundary)
                    && c.token <= token ==> t.pending.contains(
                    WindowedBltPending { wddm_completion_required: false, ..c },
                )
        }),
{
    let x = WindowedBltTerminalPrefix { max_token: token, max_boundary: boundary };
    let c0 = s.consumed(x);
    let p = WindowedBltPending::undispatched_in(x);
    let q = WindowedBltPending::dispatched_in(x);
    crate::blt_ops::lemma_filter_len(s.terminal, crate::windowed_blt::ends_outside(x));
    assert(c0.wf());
    law_cancel_all_leaves_none(c0, p);
    let u = c0.all_cancelled(p).0;
    let t = s.abandoned(x).0;
    assert forall|b: u64| #[trigger]
        crate::present_stream::same_stream(boundary, b) <==> of_one_stream(b, boundary) by {
        law_same_stream_is_same_handle(boundary, b);
    }
    assert forall|i: int|
        0 <= i < t.pending.len() && of_one_stream(
            (#[trigger] t.pending[i]).stream_boundary,
            boundary,
        ) && t.pending[i].token <= token implies t.pending[i].dispatched
        && !t.pending[i].wddm_completion_required by {
        assert(!p(u.pending[i]));
        assert(crate::present_stream::same_stream(boundary, u.pending[i].stream_boundary));
        assert(q(u.pending[i]));
    }
    lemma_cancel_keeps_ends(c0, p);
    assert forall|e: (u64, u64)| #[trigger]
        t.terminal.contains(e) <==> s.terminal.contains(e) && !(of_one_stream(e.1, boundary) && e.0
            <= token) by {
        assert(crate::present_stream::same_stream(boundary, e.1) <==> of_one_stream(
            e.1,
            boundary,
        ));
        crate::blt_ops::lemma_filter_contains(
            s.terminal,
            crate::windowed_blt::ends_outside(x),
            e,
        );
    }
    assert forall|c: WindowedBltPending| #[trigger]
        s.pending.contains(c) && !(of_one_stream(c.stream_boundary, boundary) && c.token
            <= token) implies t.pending.contains(c) by {
        assert(crate::present_stream::same_stream(boundary, c.stream_boundary) <==> of_one_stream(
            c.stream_boundary,
            boundary,
        ));
        law_cancel_all_keeps_the_rest(c0, p, c);
        let k = choose|k: int| 0 <= k < u.pending.len() && u.pending[k] == c;
        assert(t.pending[k] == c);
    }
    assert forall|c: WindowedBltPending| #[trigger]
        s.pending.contains(c) && c.dispatched && of_one_stream(c.stream_boundary, boundary)
            && c.token <= token implies t.pending.contains(
        WindowedBltPending { wddm_completion_required: false, ..c },
    ) by {
        assert(crate::present_stream::same_stream(boundary, c.stream_boundary));
        law_cancel_all_keeps_the_rest(c0, p, c);
        let k = choose|k: int| 0 <= k < u.pending.len() && u.pending[k] == c;
        assert(t.pending[k] == (WindowedBltPending { wddm_completion_required: false, ..c }));
    }
}

proof fn lemma_cancel_keeps_ends(s: BltState, p: spec_fn(WindowedBltPending) -> bool)
    ensures
        s.all_cancelled(p).0.terminal == s.terminal,
        s.all_cancelled(p).0.next_token == s.next_token,
    decreases s.pending.len(),
{
    if let Some(i) = first_index(s.pending, p) {
        let r = s.pending[i];
        let t = s.cancelled(r.adapter, r.token, r.stream_boundary).0;
        if t.pending.len() < s.pending.len() {
            lemma_cancel_keeps_ends(t, p);
        }
    }
}

/// A delivered completion takes the ends of its stream's copies up to its token, and no
/// other.
pub proof fn law_delivered_completion_takes_its_ends(
    s: BltState,
    token: u64,
    boundary: u64,
    end: (u64, u64),
)
    ensures
        ({
            let t = s.consumed(
                WindowedBltTerminalPrefix { max_token: token, max_boundary: boundary },
            );
            &&& t.terminal.contains(end) <==> s.terminal.contains(end) && !(of_one_stream(
                end.1,
                boundary,
            ) && end.0 <= token)
            &&& t.pending == s.pending
            &&& t.ready == s.ready
        }),
{
    let x = WindowedBltTerminalPrefix { max_token: token, max_boundary: boundary };
    law_same_stream_is_same_handle(boundary, end.1);
    crate::blt_ops::lemma_filter_contains(s.terminal, crate::windowed_blt::ends_outside(x), end);
}

/// A result is mirrored only after the GPU has finished it, where it must be, and once.
pub proof fn law_result_is_mirrored_once(s: BltState)
    ensures
        ({
            let (r, t) = s.mirror_taken();
            &&& r matches Some(c) ==> c.ring_complete && c.system_backing && c.mirror_claimed
                && exists|i: int|
                0 <= i < s.pending.len() && c == (WindowedBltPending {
                    mirror_claimed: true,
                    ..#[trigger] s.pending[i]
                }) && !s.pending[i].mirror_claimed && t.pending == s.pending.update(i, c)
            &&& r is None ==> t == s && forall|i: int|
                0 <= i < s.pending.len() && (#[trigger] s.pending[i]).ring_complete
                    && s.pending[i].system_backing ==> s.pending[i].mirror_claimed
            &&& t.ready == s.ready && t.terminal == s.terminal
        }),
{
    let p = WindowedBltPending::mirrorable();
    lemma_first_index_exists(s.pending, p);
    match first_index(s.pending, p) {
        Some(i) => {
            assert(p(s.pending[i]));
        },
        None => {
            assert forall|i: int|
                0 <= i < s.pending.len() && (#[trigger] s.pending[i]).ring_complete
                    && s.pending[i].system_backing implies s.pending[i].mirror_claimed by {
                assert(!p(s.pending[i]));
            }
        },
    }
}

/// Preemption takes back every admission that was not used, and leaves what was sent;
/// nothing is lost.
pub proof fn law_preempted_copies_wait_anew(s: BltState)
    ensures
        ({
            let t = s.preempted();
            &&& t.ready.len() == 0
            &&& t.terminal == s.terminal
            &&& t.pending.len() == s.pending.len()
            &&& forall|i: int|
                0 <= i < s.pending.len() ==> #[trigger] t.pending[i] == if s.pending[i].dispatched {
                    s.pending[i]
                } else {
                    WindowedBltPending { admitted: false, ..s.pending[i] }
                }
        }),
{
}

/// A reset of the scheduler leaves no pending submission, no copy that was not sent, no
/// end, and no copy that owes one; copies on the GPU stay.
pub proof fn law_reset_keeps_only_running_copies(g: GpuState)
    requires
        g.wf(),
    ensures
        ({
            let t = g.epoch_abandoned().0;
            &&& t.wddm.pending.len() == 0
            &&& t.blt.ready.len() == 0
            &&& t.blt.terminal.len() == 0
            &&& forall|i: int|
                0 <= i < t.blt.pending.len() ==> (#[trigger] t.blt.pending[i]).dispatched
                    && !t.blt.pending[i].wddm_completion_required
            &&& t.queue == g.queue && t.fences == g.fences && t.streams == g.streams
        }),
{
    let (t, _) = crate::wddm::prefixes_abandoned(g.blt, g.wddm.pending);
    let p = WindowedBltPending::undispatched();
    law_cancel_all_leaves_none(t, p);
    let u = t.all_cancelled(p).0;
    let v = g.epoch_abandoned().0;
    assert forall|i: int| 0 <= i < v.blt.pending.len() implies (
    #[trigger] v.blt.pending[i]).dispatched && !v.blt.pending[i].wddm_completion_required by {
        assert(!p(u.pending[i]));
    }
}

/// A copy may be submitted exactly if it was admitted and taken.
pub proof fn law_submittable_copy_was_taken(s: BltState, token: u64, boundary: u64)
    ensures
        some(s.pending, WindowedBltPending::submittable(token, boundary)) <==> exists|i: int|
            0 <= i < s.pending.len() && (#[trigger] s.pending[i]).token == token
                && s.pending[i].stream_boundary == boundary && s.pending[i].admitted
                && s.pending[i].dispatched,
{
    let p = WindowedBltPending::submittable(token, boundary);
    if some(s.pending, p) {
        let i = choose|i: int| 0 <= i < s.pending.len() && p(#[trigger] s.pending[i]);
        assert(s.pending[i].token == token);
    }
    if exists|i: int|
        0 <= i < s.pending.len() && (#[trigger] s.pending[i]).token == token
            && s.pending[i].stream_boundary == boundary && s.pending[i].admitted
            && s.pending[i].dispatched {
        let i = choose|i: int|
            0 <= i < s.pending.len() && (#[trigger] s.pending[i]).token == token
                && s.pending[i].stream_boundary == boundary && s.pending[i].admitted
                && s.pending[i].dispatched;
        assert(p(s.pending[i]));
    }
}

/// No copy of the stream up to the token is left that was not sent or that owes an end,
/// and no end of one is left.
pub open spec fn is_given_up(s: BltState, token: u64, boundary: u64) -> bool {
    &&& forall|i: int|
        0 <= i < s.pending.len() && of_one_stream(
            (#[trigger] s.pending[i]).stream_boundary,
            boundary,
        ) && s.pending[i].token <= token ==> s.pending[i].dispatched
            && !s.pending[i].wddm_completion_required
    &&& forall|k: int|
        0 <= k < s.terminal.len() ==> !(of_one_stream((#[trigger] s.terminal[k]).1, boundary)
            && s.terminal[k].0 <= token)
}

/// Giving up a completion gives up its copies, and brings none of another's back.
proof fn lemma_abandoned(s: BltState, x: WindowedBltTerminalPrefix, token: u64, boundary: u64)
    requires
        s.wf(),
        is_given_up(s, token, boundary) || (x.max_token == token && x.max_boundary == boundary),
    ensures
        s.abandoned(x).0.wf(),
        is_given_up(s.abandoned(x).0, token, boundary),
{
    let c = s.consumed(x);
    let p = WindowedBltPending::undispatched_in(x);
    let q = WindowedBltPending::dispatched_in(x);
    crate::blt_ops::lemma_filter_len(s.terminal, crate::windowed_blt::ends_outside(x));
    lemma_cancelled_subset(c, p);
    let u = c.all_cancelled(p).0;
    lemma_disowned_wf(u, q);
    let t = s.abandoned(x).0;
    law_given_up_completion_owes_nothing(s, x.max_token, x.max_boundary);
    assert forall|k: int| 0 <= k < t.terminal.len() implies !(of_one_stream(
        (#[trigger] t.terminal[k]).1,
        boundary,
    ) && t.terminal[k].0 <= token) by {
        assert(t.terminal.contains(t.terminal[k]));
        if is_given_up(s, token, boundary) {
            let m = choose|m: int| 0 <= m < s.terminal.len() && s.terminal[m] == t.terminal[k];
            assert(!(of_one_stream(s.terminal[m].1, boundary) && s.terminal[m].0 <= token));
        }
    }
    assert forall|i: int|
        0 <= i < t.pending.len() && of_one_stream(
            (#[trigger] t.pending[i]).stream_boundary,
            boundary,
        ) && t.pending[i].token <= token implies t.pending[i].dispatched
        && !t.pending[i].wddm_completion_required by {
        if is_given_up(s, token, boundary) {
            assert(u.pending.contains(u.pending[i]));
            let m = choose|m: int| 0 <= m < s.pending.len() && s.pending[m] == u.pending[i];
            assert(s.pending[m].token == t.pending[i].token);
            assert(of_one_stream(s.pending[m].stream_boundary, boundary));
        }
    }
}

proof fn lemma_cancelled_subset(s: BltState, p: spec_fn(WindowedBltPending) -> bool)
    requires
        s.wf(),
    ensures
        s.all_cancelled(p).0.wf(),
        forall|c: WindowedBltPending| #[trigger]
            s.all_cancelled(p).0.pending.contains(c) ==> s.pending.contains(c),
    decreases s.pending.len(),
{
    lemma_first_index_exists(s.pending, p);
    if let Some(i) = first_index(s.pending, p) {
        let r = s.pending[i];
        law_given_up_copy_leaves_no_end(s, r.adapter, i);
        let t = s.cancelled(r.adapter, r.token, r.stream_boundary).0;
        lemma_cancelled_subset(t, p);
        lemma_without(s, t, i);
        assert forall|c: WindowedBltPending| #[trigger]
            s.all_cancelled(p).0.pending.contains(c) implies s.pending.contains(c) by {
            assert(t.pending.contains(c));
        }
    }
}

/// Where all pending completions are given up, so are the copies of each.
pub proof fn law_given_up_completions_owe_nothing(
    s: BltState,
    pending: Seq<crate::wddm::WddmPending>,
    k: int,
    token: u64,
    boundary: u64,
)
    requires
        s.wf(),
        0 <= k < pending.len() && pending[k].blt_token == Some(token)
            && pending[k].blt_stream_boundary == Some(boundary) && token != 0 && boundary
            >= 0x8000_0000_0000_0000 || is_given_up(s, token, boundary),
    ensures
        crate::wddm::prefixes_abandoned(s, pending).0.wf(),
        is_given_up(crate::wddm::prefixes_abandoned(s, pending).0, token, boundary),
    decreases pending.len(),
{
    if pending.len() > 0 {
        let t = match pending[0].prefix() {
            Some(x) => s.abandoned(x).0,
            None => s,
        };
        if let Some(x) = pending[0].prefix() {
            if is_given_up(s, token, boundary) || k == 0 {
                lemma_abandoned(s, x, token, boundary);
            } else {
                lemma_abandoned(s, x, x.max_token, x.max_boundary);
            }
        }
        if !(is_given_up(s, token, boundary) || k == 0) {
            assert(pending.remove(0)[k - 1] == pending[k]);
        }
        law_given_up_completions_owe_nothing(
            t,
            pending.remove(0),
            k - 1,
            token,
            boundary,
        );
    }
}

/// When every copy is aborted, every reader that has not ended ends as cancelled.
pub proof fn law_abort_ends_every_reader(s: BltState, i: int)
    requires
        0 <= i < s.pending.len(),
        !s.pending[i].ledger_retired,
    ensures
        s.aborted().1.contains(
            Action::RetireRead { ticket: s.pending[i].ledger_ticket, cancelled: true },
        ),
        s.aborted().0.pending.len() == 0,
    decreases s.pending.len(),
{
    let want = Action::RetireRead { ticket: s.pending[i].ledger_ticket, cancelled: true };
    let t = BltState { pending: s.pending.drop_first(), ..s };
    let a = crate::windowed_blt::retire_read(s.pending.first(), true);
    let b = t.aborted().1;
    crate::lifecycle::lemma_aborted_signals_none(s, 0);
    if i == 0 {
        assert((a + b)[0] == want);
    } else {
        assert(t.pending[i - 1] == s.pending[i]);
        law_abort_ends_every_reader(t, i - 1);
        let k = choose|k: int| 0 <= k < b.len() && b[k] == want;
        assert((a + b)[a.len() + k] == want);
    }
}

} // verus!
