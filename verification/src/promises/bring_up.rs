//! What is found on the device, and when it is started.
use crate::error::VirtioError;
use crate::gpu::GpuState;
use crate::hal::DmaBuffer;
use crate::init::{BringUp, BringUpEvent, BringUpPhase, BringUpStep, Knobs};
use crate::pci_caps::{bar_base_of, first_cap, has_cap_list, is_virtio_cap, isr_from, isr_of,
    next_cap, wide, window_from, window_of, word};
use vstd::prelude::*;

verus! {

/// The byte at `at` of configuration space, whose dwords are little-endian.
pub open spec fn byte_at(cfg: Seq<u32>, at: int) -> int {
    let w = cfg[at / 4] as int;
    if at % 4 == 0 {
        w % 256
    } else if at % 4 == 1 {
        w / 256 % 256
    } else if at % 4 == 2 {
        w / 65536 % 256
    } else {
        w / 16777216
    }
}

/// Configuration space has a list of capabilities.
pub open spec fn lists_capabilities(cfg: Seq<u32>) -> bool {
    byte_at(cfg, 6) / 16 % 2 == 1
}

/// Where the capability number `n` of the list is; 0 ends the list. Pointers are
/// rounded down to whole dwords.
pub open spec fn capability(cfg: Seq<u32>, n: nat) -> int
    decreases n,
{
    if n == 0 {
        byte_at(cfg, 0x34) / 4 * 4
    } else {
        byte_at(cfg, capability(cfg, (n - 1) as nat) + 1) / 4 * 4
    }
}

/// Capability number `n` is a virtio structure of this type.
pub open spec fn is_structure(cfg: Seq<u32>, n: nat, kind: int) -> bool {
    let at = capability(cfg, n);
    at != 0 && byte_at(cfg, at) == 9 && byte_at(cfg, at + 3) == kind
}

/// The address that memory BAR `bar` was given, if it is one: a 64-bit BAR continues
/// in the next register.
pub open spec fn bar_address(cfg: Seq<u32>, bar: int) -> Option<int> {
    let reg = cfg[4 + bar] as int;
    if bar > 5 || reg % 2 == 1 {
        None
    } else if reg / 2 % 4 == 2 {
        Some(reg / 16 * 16 + cfg[5 + bar] * 0x1_0000_0000)
    } else {
        Some(reg / 16 * 16)
    }
}

/// Capability number `n` announces the host-visible window.
pub open spec fn announces_window(cfg: Seq<u32>, n: nat) -> bool {
    is_structure(cfg, n, 8) && byte_at(cfg, capability(cfg, n) + 5) == 1
}

/// A search for the window passes capability number `n`: it is there, and is neither
/// the window nor a shared-memory structure that leaves configuration space.
pub open spec fn passes_for_window(cfg: Seq<u32>, n: nat) -> bool {
    &&& capability(cfg, n) != 0
    &&& is_structure(cfg, n, 8) ==> capability(cfg, n) + 24 <= 256 && byte_at(
        cfg,
        capability(cfg, n) + 5,
    ) != 1
}

proof fn lemma_bytes(x: u32)
    ensures
        (x & 0xff) == x % 256,
        ((x >> 8) & 0xff) == x / 256 % 256,
        ((x >> 24) & 0xff) == x / 16777216,
        ((x >> 16) & 0x10 != 0) == (x / 65536 % 256 / 16 % 2 == 1),
        (((x & 0xff) as u8) & 0xfc) == x % 256 / 4 * 4,
        ((((x >> 8) & 0xff) as u8) & 0xfc) == x / 256 % 256 / 4 * 4,
        (x & 0xffff_fff0) == x / 16 * 16,
        (x & 1 != 0) == (x % 2 == 1),
        ((x >> 1) & 3) == x / 2 % 4,
{
    assert((x & 0xff) == x % 256 && ((x >> 8) & 0xff) == x / 256 % 256 && ((x >> 24) & 0xff) == x
        / 16777216 && ((x >> 16) & 0x10 != 0) == (x / 65536 % 256 / 16 % 2 == 1) && (((x
        & 0xff) as u8) & 0xfc) == x % 256 / 4 * 4 && ((((x >> 8) & 0xff) as u8) & 0xfc) == x / 256
        % 256 / 4 * 4 && (x & 0xffff_fff0) == x / 16 * 16 && (x & 1 != 0) == (x % 2 == 1) && ((x
        >> 1) & 3) == x / 2 % 4) by (bit_vector);
}

proof fn lemma_wide(lo: u32, hi: u32)
    ensures
        wide(lo, hi) == lo + hi * 0x1_0000_0000,
{
    assert(lo as u64 | ((hi as u64) << 32) == (lo as u64 + hi as u64 * 0x1_0000_0000u64) as u64)
        by (bit_vector);
}

proof fn lemma_bar(cfg: Seq<u32>, bar: u16)
    requires
        cfg.len() == 64,
        bar < 256,
    ensures
        match bar_base_of(cfg, bar) {
            Some(b) => bar_address(cfg, bar as int) == Some(b as int),
            None => bar_address(cfg, bar as int) is None,
        },
{
    let reg = 0x10 + bar * 4;
    assert(reg / 4 == 4 + bar);
    assert((reg + 4) / 4 == 5 + bar);
    let lo = word(cfg, reg);
    lemma_bytes(lo);
    lemma_wide(lo & 0xffff_fff0, word(cfg, reg + 4));
}

proof fn lemma_capability(cfg: Seq<u32>, n: nat)
    requires
        cfg.len() == 64,
    ensures
        0 <= capability(cfg, n) < 256,
        capability(cfg, n) % 4 == 0,
        capability(cfg, 0) == first_cap(cfg),
        capability(cfg, n + 1) == next_cap(cfg, capability(cfg, n) as u8),
        has_cap_list(cfg) == lists_capabilities(cfg),
        forall|kind: u32| kind < 256 && capability(cfg, n) != 0 ==> (#[trigger] is_virtio_cap(
            cfg,
            capability(cfg, n) as u8,
            kind,
        ) <==> is_structure(cfg, n, kind as int)),
    decreases n,
{
    lemma_bytes(cfg[13]);
    lemma_bytes(cfg[1]);
    if n > 0 {
        lemma_capability(cfg, (n - 1) as nat);
    }
    let at = capability(cfg, n);
    lemma_bytes(cfg[at / 4]);
    assert((at + 1) / 4 == at / 4 && (at + 1) % 4 == 1);
    assert((at + 3) / 4 == at / 4 && (at + 3) % 4 == 3);
    assert(capability(cfg, n + 1) == byte_at(cfg, at + 1) / 4 * 4);
}

/// A search that passes what is before capability number `n` comes to it.
proof fn lemma_walk(cfg: Seq<u32>, k: nat, n: nat)
    requires
        cfg.len() == 64,
        k <= n < 48,
        forall|j: nat| k <= j < n ==> #[trigger] passes_for_window(cfg, j),
    ensures
        window_from(cfg, capability(cfg, k) as u8, (48 - k) as nat) == window_from(
            cfg,
            capability(cfg, n) as u8,
            (48 - n) as nat,
        ),
    decreases n - k,
{
    if k < n {
        assert(passes_for_window(cfg, k));
        lemma_capability(cfg, k);
        lemma_word(cfg, capability(cfg, k));
        lemma_walk(cfg, k + 1, n);
    }
}

/// The fields of a structure at `at`.
proof fn lemma_word(cfg: Seq<u32>, at: int)
    requires
        cfg.len() == 64,
        0 <= at,
        at % 4 == 0,
    ensures
        at + 8 <= 256 ==> ((word(cfg, at + 4) >> 8) & 0xff) == byte_at(cfg, at + 5),
        at + 8 <= 256 ==> (word(cfg, at + 4) & 0xff) == byte_at(cfg, at + 4),
{
    if at + 8 <= 256 {
        lemma_bytes(cfg[(at + 4) / 4]);
        assert((at + 5) / 4 == (at + 4) / 4 && (at + 5) % 4 == 1);
    }
}

/// The host-visible window is found wherever the list of capabilities announces it,
/// whatever capabilities come before it, as long as the list reaches it within 48
/// steps: it lies at the announced offset of the announced memory BAR, and is as long
/// as announced.
pub proof fn law_announced_window_is_found(cfg: Seq<u32>, n: nat)
    requires
        cfg.len() == 64,
        lists_capabilities(cfg),
        n < 48,
        forall|j: nat| j < n ==> #[trigger] passes_for_window(cfg, j),
        announces_window(cfg, n),
        capability(cfg, n) + 24 <= 256,
    ensures
        ({
            let at = capability(cfg, n);
            let offset = cfg[(at + 8) / 4] + cfg[(at + 16) / 4] * 0x1_0000_0000;
            let len = cfg[(at + 12) / 4] + cfg[(at + 20) / 4] * 0x1_0000_0000;
            match bar_address(cfg, byte_at(cfg, at + 4)) {
                Some(b) => window_of(cfg) matches Some(w) && w.len == len && w.base == (b + offset)
                    % 0x1_0000_0000_0000_0000,
                None => window_of(cfg) is None,
            }
        }),
{
    let at = capability(cfg, n);
    lemma_capability(cfg, 0);
    lemma_capability(cfg, n);
    lemma_walk(cfg, 0, n);
    lemma_word(cfg, at);
    lemma_wide(word(cfg, at + 8), word(cfg, at + 16));
    lemma_wide(word(cfg, at + 12), word(cfg, at + 20));
    lemma_bar(cfg, (word(cfg, at + 4) & 0xff) as u16);
}

/// A window is found only where the list announces one.
pub proof fn law_found_window_is_announced(cfg: Seq<u32>)
    requires
        cfg.len() == 64,
        window_of(cfg) is Some,
    ensures
        lists_capabilities(cfg),
        exists|n: nat|
            n < 48 && #[trigger] announces_window(cfg, n) && capability(cfg, n) + 24 <= 256 && (
            forall|j: nat| j < n ==> #[trigger] passes_for_window(cfg, j)),
{
    lemma_capability(cfg, 0);
    lemma_found(cfg, 0);
}

proof fn lemma_found(cfg: Seq<u32>, k: nat)
    requires
        cfg.len() == 64,
        k <= 48,
        window_from(cfg, capability(cfg, k) as u8, (48 - k) as nat) is Some,
        forall|j: nat| j < k ==> #[trigger] passes_for_window(cfg, j),
    ensures
        exists|n: nat|
            n < 48 && #[trigger] announces_window(cfg, n) && capability(cfg, n) + 24 <= 256 && (
            forall|j: nat| j < n ==> #[trigger] passes_for_window(cfg, j)),
    decreases 48 - k,
{
    lemma_capability(cfg, k);
    lemma_word(cfg, capability(cfg, k));
    if announces_window(cfg, k) && capability(cfg, k) + 24 <= 256 {
    } else {
        assert(passes_for_window(cfg, k));
        lemma_found(cfg, k + 1);
    }
}

/// A search for the ISR-status register passes capability number `n`.
pub open spec fn passes_for_isr(cfg: Seq<u32>, n: nat) -> bool {
    capability(cfg, n) != 0 && !is_structure(cfg, n, 3)
}

proof fn lemma_walk_isr(cfg: Seq<u32>, k: nat, n: nat)
    requires
        cfg.len() == 64,
        k <= n < 48,
        forall|j: nat| k <= j < n ==> #[trigger] passes_for_isr(cfg, j),
    ensures
        isr_from(cfg, capability(cfg, k) as u8, (48 - k) as nat) == isr_from(
            cfg,
            capability(cfg, n) as u8,
            (48 - n) as nat,
        ),
    decreases n - k,
{
    if k < n {
        assert(passes_for_isr(cfg, k));
        lemma_capability(cfg, k);
        lemma_walk_isr(cfg, k + 1, n);
    }
}

/// The ISR-status register is found where the first structure of its kind puts it,
/// whatever capabilities come before.
pub proof fn law_announced_isr_is_found(cfg: Seq<u32>, n: nat)
    requires
        cfg.len() == 64,
        lists_capabilities(cfg),
        n < 48,
        forall|j: nat| j < n ==> #[trigger] passes_for_isr(cfg, j),
        is_structure(cfg, n, 3),
    ensures
        ({
            let at = capability(cfg, n);
            let address = bar_address(cfg, byte_at(cfg, at + 4));
            if at + 24 <= 256 && address is Some {
                isr_of(cfg) matches Some(pa) && pa == (address->0 + cfg[(at + 8) / 4])
                    % 0x1_0000_0000_0000_0000
            } else {
                isr_of(cfg) is None
            }
        }),
{
    let at = capability(cfg, n);
    lemma_capability(cfg, 0);
    lemma_capability(cfg, n);
    lemma_walk_isr(cfg, 0, n);
    if at + 24 <= 256 {
        lemma_word(cfg, at);
        lemma_bar(cfg, (word(cfg, at + 4) & 0xff) as u16);
    }
}

/// A device that announces nothing, or whose list ends before it does, has neither.
pub proof fn law_nothing_announced_nothing_found(cfg: Seq<u32>, n: nat)
    requires
        cfg.len() == 64,
        !lists_capabilities(cfg) || (n < 48 && capability(cfg, n) == 0 && forall|j: nat|
            j < n ==> #[trigger] passes_for_window(cfg, j) && passes_for_isr(cfg, j)),
    ensures
        window_of(cfg) is None,
        isr_of(cfg) is None,
{
    lemma_capability(cfg, 0);
    if lists_capabilities(cfg) {
        assert forall|j: nat| j < n implies #[trigger] passes_for_isr(cfg, j) by {
            assert(passes_for_window(cfg, j));
        }
        lemma_walk(cfg, 0, n);
        lemma_walk_isr(cfg, 0, n);
    }
}

/// A feature word that holds every bit of another.
pub open spec fn has_all(features: u64, wanted: u64) -> bool {
    features & wanted == wanted
}

/// A device is started in the order that it expects: reset until its status is 0, then
/// acknowledged, then offered exactly those of its features that are wanted; its queue
/// is made only if it confirms them and none that is required is missing.
pub proof fn law_device_is_started_in_order(b: BringUp, event: BringUpEvent)
    requires
        b.wf(),
    ensures
        ({
            let (step, t) = b.next(event);
            &&& step is Reset <==> b.phase is Idle && event is Begin
            &&& step is Reset ==> t.phase == (BringUpPhase::Resetting { spins: 0 })
            &&& step is Acknowledge <==> b.phase is Resetting && event == BringUpEvent::Status(0)
            &&& step matches BringUpStep::Acknowledge { first, second } ==> first == 1 && second
                == 3 && t.phase is Offering
            &&& step is Accept <==> b.phase is Offering && event is Features
            &&& step matches BringUpStep::Accept { features, status } ==> features
                == event->Features_0 & (b.required | b.optional) && status == 11 && t.phase == (
            BringUpPhase::Accepting { accepted: features })
            &&& step is MakeQueue <==> b.phase is Accepting && (event matches BringUpEvent::Status(
                s,
            ) && s & 8 != 0 && has_all(b.phase->accepted, b.required))
            &&& step is Reject <==> b.phase is Accepting && (event matches BringUpEvent::Status(s)
                && !(s & 8 != 0 && has_all(b.phase->accepted, b.required)))
            &&& step matches BringUpStep::Reject { status, why } ==> status == 128 && why
                == VirtioError::FeatureRejected
            &&& step is Start <==> b.phase is Queueing && event == BringUpEvent::Queue(true)
            &&& step matches BringUpStep::Start { status } ==> status == 15
            &&& step is Query <==> b.phase is Allocating && event == BringUpEvent::Scratch(true)
            &&& step is Pop <==> b.phase is Polling && event == BringUpEvent::CanPop(true)
            &&& step is Build <==> b.phase is Popping && event == BringUpEvent::Popped(true)
            &&& step is MakeQueue ==> t.phase is Queueing
            &&& step is Start ==> t.phase is Allocating
            &&& step is Query ==> t.phase is Querying
            &&& step is Pop ==> t.phase is Popping
            &&& step is Build || step is Reject || step is Fail ==> t.phase is Ended
            &&& t.required == b.required && t.optional == b.optional
        }),
{
}

/// A device that does not answer is given up after a bounded number of looks, and one
/// that has failed stays so.
pub proof fn law_bring_up_does_not_hang(b: BringUp, event: BringUpEvent)
    requires
        b.wf(),
    ensures
        ({
            let (step, t) = b.next(event);
            &&& step is PollReset ==> (b.phase matches BringUpPhase::Resetting { spins }
                && t.phase == (BringUpPhase::Resetting { spins: (spins + 1) as u32 }) && spins
                <= 100_000)
            &&& b.phase matches BringUpPhase::Resetting { spins } ==> spins <= 100_000 ==> (
            event matches BringUpEvent::Status(s) ==> s != 0 ==> step is PollReset)
            &&& step is PollAnswer && b.phase is Polling ==> (
            b.phase matches BringUpPhase::Polling { polls } && t.phase == (BringUpPhase::Polling {
                polls: (polls + 1) as u64,
            }) && polls + 1 < 100_000_000)
            &&& b.phase matches BringUpPhase::Polling { polls } ==> polls + 1 < 100_000_000 ==> (
            event == BringUpEvent::CanPop(false) ==> step is PollAnswer)
            &&& b.phase is Querying && event == BringUpEvent::Added(true) ==> step is PollAnswer
                && t.phase == (BringUpPhase::Polling { polls: 0 })
            &&& b.phase is Allocating && event == BringUpEvent::Scratch(false) ==> step
                == BringUpStep::Fail(VirtioError::OutOfMemory)
            &&& b.phase is Ended ==> step == BringUpStep::Fail(VirtioError::DeviceError)
        }),
{
}

/// A new transport has the announced window and the reported display, its first fence,
/// and nothing in any table.
pub proof fn law_new_transport_is_empty(
    config: Seq<u32>,
    resp: Seq<u8>,
    isr: Option<usize>,
    pool: Seq<DmaBuffer>,
    base: u64,
    knobs: Knobs,
)
    requires
        resp.len() >= 408,
    ensures
        ({
            let g = GpuState::fresh(config, resp, isr, pool, base, knobs);
            let width = resp[32] + 256 * resp[33] + 65536 * resp[34] + 16777216 * resp[35];
            let height = resp[36] + 256 * resp[37] + 65536 * resp[38] + 16777216 * resp[39];
            &&& g.tables.host_visible == window_of(config)
            &&& g.tables.window.window_len == match window_of(config) {
                Some(w) => w.len,
                None => 0,
            }
            &&& g.tables.window.next_offset == 0 && g.tables.window.reserve == 0
                && !g.tables.window.started && !g.tables.window.reserve_set
                && g.tables.window.free.len() == 0
            &&& g.display_mode == if 320 <= width <= 16384 && 240 <= height <= 16384 {
                Some((width as u32, height as u32))
            } else {
                None
            }
            &&& g.isr_status_va == match isr {
                Some(va) => va,
                None => 0,
            }
            &&& g.fences.next_wire_fence == base && g.fences.wire_fence_base == base
            &&& g.queue.bind_cmd_pool == pool
            &&& !g.queue.failed && !g.queue.reap_in_progress
            &&& g.queue.inflight.len() == 0 && g.queue.parked.len() == 0 && g.queue.dma_pool.len()
                == 0 && g.queue.dma_pool_bytes == 0
            &&& g.fences.waiters.len() == 0 && g.fences.events.len() == 0
            &&& g.tables.contexts.len() == 0 && g.tables.resources.len() == 0
                && g.tables.blobs.len() == 0
            &&& g.tables.contexts_reserved == 0 && g.tables.resources_reserved == 0
                && g.tables.blobs_reserved == 0
            &&& g.tables.next_ctx_id == 1 && g.tables.next_resource_id == 1
            &&& g.streams.slots.len() == 64 && g.streams.next_cookie == 1
            &&& forall|i: int| 0 <= i < 64 ==> !(#[trigger] g.streams.slots[i]).live
            &&& g.blt.pending.len() == 0 && g.blt.ready.len() == 0 && g.blt.terminal.len() == 0
                && g.blt.next_token == 1
            &&& g.wddm.pending.len() == 0
            &&& g.wddm.dma_gpu_fence == knobs.dma_gpu_fence
            &&& g.wddm.present_exact_watermark == knobs.present_exact_watermark
            &&& g.wddm.hold_ms == if knobs.hold_ms > 250 {
                250
            } else {
                knobs.hold_ms
            }
            &&& g.wddm.head_ms == if knobs.head_ms == 0 {
                0
            } else if knobs.head_ms < 100 {
                100
            } else if knobs.head_ms > 1000 {
                1000
            } else {
                knobs.head_ms
            }
            &&& g.fast.publication is None && g.fast.publication_request is None
                && g.fast.completed is None && g.fast.deferred_earliest is None
                && g.fast.deferred_latest is None && g.fast.deferred_worker is None
                && !g.fast.retire_barrier && g.fast.presentation_epoch_floor == 0
            &&& g.refresh.earliest is None && g.refresh.latest is None
        }),
{
}

} // verus!
