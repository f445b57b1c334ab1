//! Telemetry of the transport.
//!
//! Counters wrap; high-water marks only rise.
use vstd::prelude::*;

verus! {

/// Most blobs tracked at once.
pub const MAX_BLOBS: usize = 8192;

/// Most live resources tracked at once; at least `MAX_BLOBS`, since every blob is
/// a live resource.
pub const MAX_RESOURCES: usize = 16384;

/// A scan found more overlapping mappings than the caller's buffer holds.
#[derive(Clone, Copy, Debug, PartialEq, Eq, Structural)]
pub struct WindowOverlapTruncated;

/// Control-queue telemetry.
#[derive(Clone, Copy, Debug, PartialEq, Eq, Structural)]
pub struct QueueCounters {
    pub ctrl_timeouts: u32,
    pub async_submits: u32,
    pub async_completes: u32,
    pub async_resp_errors: u32,
    pub ring_submits: u32,
    pub ring_completes: u32,
    pub async_ctrl: u32,
    pub async_ctrl_completes: u32,
    pub async_ctrl_resp_errors: u32,
    pub drain_bad_token: u32,
    pub queue_full_retries: u32,
    pub inflight_high_water: u32,
    pub parked_high_water: u32,
    pub parked_leaks: u32,
    pub reap_abandoned: u32,
}

/// Telemetry of the recycled command buffers.
#[derive(Clone, Copy, Debug, PartialEq, Eq, Structural)]
pub struct PoolCounters {
    pub hits: u32,
    pub misses: u32,
    pub drops: u32,
    pub cached_bytes: u32,
}

/// Telemetry of fence waiters and fence events.
#[derive(Clone, Copy, Debug, PartialEq, Eq, Structural)]
pub struct FenceCounters {
    pub wait_registered: u32,
    pub wait_timeouts: u32,
    pub wait_table_full: u32,
    pub event_registers: u32,
    pub event_signals: u32,
    pub event_already_complete: u32,
    pub event_overflows: u32,
    pub event_dup_rejects: u32,
    pub event_invalid: u32,
    pub event_cancels: u32,
    pub event_teardown_drops: u32,
    pub event_high_water: u32,
    pub foreign_generation: u32,
}

/// Telemetry of the WDDM completion FIFO.
#[derive(Clone, Copy, Debug, PartialEq, Eq, Structural)]
pub struct WddmCounters {
    pub pending_overflows: u32,
    pub fence_from_dpc: u32,
    pub head_blocked_wire: u32,
    pub head_blocked_stream: u32,
    pub head_blocked_blt: u32,
    pub head_blocked_hold: u32,
    pub signal_after_failure: u32,
    pub present_exact_used: u32,
    pub d3d12_exact_used: u32,
    pub head_rebased: u32,
    pub fence_clamped: u32,
    pub fence_foreign_generation: u32,
}

/// Telemetry of the registered present streams.
#[derive(Clone, Copy, Debug, PartialEq, Eq, Structural)]
pub struct StreamCounters {
    pub registers: u32,
    pub tags: u32,
    pub markers: u32,
    pub retires: u32,
    pub rejects: u32,
    pub live: u32,
    pub high_water: u32,
    pub marker_ahead: u32,
    pub marker_ahead_high_water: u32,
}

/// Telemetry of the resource tables and of the window allocator.
#[derive(Clone, Copy, Debug, PartialEq, Eq, Structural)]
pub struct TableCounters {
    pub blob_high_water: u32,
    pub blob_full_rejects: u32,
    pub resource_high_water: u32,
    pub resource_full_rejects: u32,
    pub context_full_drops: u32,
    pub window_range_drops: u32,
    pub window_reconfig_refused: u32,
    pub take_live_misses: u32,
    pub adopt_dead_rejects: u32,
    pub window_alloc_rejects: u32,
    pub window_overlap_truncated: u32,
}

impl QueueCounters {
    pub open spec fn zero() -> QueueCounters {
        QueueCounters {
            ctrl_timeouts: 0,
            async_submits: 0,
            async_completes: 0,
            async_resp_errors: 0,
            ring_submits: 0,
            ring_completes: 0,
            async_ctrl: 0,
            async_ctrl_completes: 0,
            async_ctrl_resp_errors: 0,
            drain_bad_token: 0,
            queue_full_retries: 0,
            inflight_high_water: 0,
            parked_high_water: 0,
            parked_leaks: 0,
            reap_abandoned: 0,
        }
    }

    pub fn new() -> (r: QueueCounters)
        ensures
            r == QueueCounters::zero(),
    {
        QueueCounters {
            ctrl_timeouts: 0,
            async_submits: 0,
            async_completes: 0,
            async_resp_errors: 0,
            ring_submits: 0,
            ring_completes: 0,
            async_ctrl: 0,
            async_ctrl_completes: 0,
            async_ctrl_resp_errors: 0,
            drain_bad_token: 0,
            queue_full_retries: 0,
            inflight_high_water: 0,
            parked_high_water: 0,
            parked_leaks: 0,
            reap_abandoned: 0,
        }
    }
}

impl PoolCounters {
    pub open spec fn zero() -> PoolCounters {
        PoolCounters { hits: 0, misses: 0, drops: 0, cached_bytes: 0 }
    }

    pub fn new() -> (r: PoolCounters)
        ensures
            r == PoolCounters::zero(),
    {
        PoolCounters { hits: 0, misses: 0, drops: 0, cached_bytes: 0 }
    }
}

impl FenceCounters {
    pub open spec fn zero() -> FenceCounters {
        FenceCounters {
            wait_registered: 0,
            wait_timeouts: 0,
            wait_table_full: 0,
            event_registers: 0,
            event_signals: 0,
            event_already_complete: 0,
            event_overflows: 0,
            event_dup_rejects: 0,
            event_invalid: 0,
            event_cancels: 0,
            event_teardown_drops: 0,
            event_high_water: 0,
            foreign_generation: 0,
        }
    }

    pub fn new() -> (r: FenceCounters)
        ensures
            r == FenceCounters::zero(),
    {
        FenceCounters {
            wait_registered: 0,
            wait_timeouts: 0,
            wait_table_full: 0,
            event_registers: 0,
            event_signals: 0,
            event_already_complete: 0,
            event_overflows: 0,
            event_dup_rejects: 0,
            event_invalid: 0,
            event_cancels: 0,
            event_teardown_drops: 0,
            event_high_water: 0,
            foreign_generation: 0,
        }
    }
}

impl WddmCounters {
    pub open spec fn zero() -> WddmCounters {
        WddmCounters {
            pending_overflows: 0,
            fence_from_dpc: 0,
            head_blocked_wire: 0,
            head_blocked_stream: 0,
            head_blocked_blt: 0,
            head_blocked_hold: 0,
            signal_after_failure: 0,
            present_exact_used: 0,
            d3d12_exact_used: 0,
            head_rebased: 0,
            fence_clamped: 0,
            fence_foreign_generation: 0,
        }
    }

    pub fn new() -> (r: WddmCounters)
        ensures
            r == WddmCounters::zero(),
    {
        WddmCounters {
            pending_overflows: 0,
            fence_from_dpc: 0,
            head_blocked_wire: 0,
            head_blocked_stream: 0,
            head_blocked_blt: 0,
            head_blocked_hold: 0,
            signal_after_failure: 0,
            present_exact_used: 0,
            d3d12_exact_used: 0,
            head_rebased: 0,
            fence_clamped: 0,
            fence_foreign_generation: 0,
        }
    }
}

impl StreamCounters {
    pub open spec fn zero() -> StreamCounters {
        StreamCounters {
            registers: 0,
            tags: 0,
            markers: 0,
            retires: 0,
            rejects: 0,
            live: 0,
            high_water: 0,
            marker_ahead: 0,
            marker_ahead_high_water: 0,
        }
    }

    pub fn new() -> (r: StreamCounters)
        ensures
            r == StreamCounters::zero(),
    {
        StreamCounters {
            registers: 0,
            tags: 0,
            markers: 0,
            retires: 0,
            rejects: 0,
            live: 0,
            high_water: 0,
            marker_ahead: 0,
            marker_ahead_high_water: 0,
        }
    }
}

impl TableCounters {
    pub open spec fn zero() -> TableCounters {
        TableCounters {
            blob_high_water: 0,
            blob_full_rejects: 0,
            resource_high_water: 0,
            resource_full_rejects: 0,
            context_full_drops: 0,
            window_range_drops: 0,
            window_reconfig_refused: 0,
            take_live_misses: 0,
            adopt_dead_rejects: 0,
            window_alloc_rejects: 0,
            window_overlap_truncated: 0,
        }
    }

    pub fn new() -> (r: TableCounters)
        ensures
            r == TableCounters::zero(),
    {
        TableCounters {
            blob_high_water: 0,
            blob_full_rejects: 0,
            resource_high_water: 0,
            resource_full_rejects: 0,
            context_full_drops: 0,
            window_range_drops: 0,
            window_reconfig_refused: 0,
            take_live_misses: 0,
            adopt_dead_rejects: 0,
            window_alloc_rejects: 0,
            window_overlap_truncated: 0,
        }
    }
}

/// The mark `hw` after a population of `n` was seen.
pub open spec fn raised(hw: u32, n: nat) -> u32 {
    let seen = (n as int % 0x1_0000_0000) as u32;
    if hw < seen {
        seen
    } else {
        hw
    }
}

/// Raise `hw` to at least `n`.
pub fn bump_high_water(hw: &mut u32, n: usize)
    ensures
        *final(hw) == raised(*old(hw), n as nat),
{
    assert(n as u32 == n as int % 0x1_0000_0000) by {
        let m: u64 = n as u64;
        assert(m as u32 as int == m as int % 0x1_0000_0000) by (bit_vector);
    }
    let seen: u32 = n as u32;
    if *hw < seen {
        *hw = seen;
    }
}

/// A high-water mark never falls, and covers every population below `u32::MAX`.
pub proof fn law_high_water(hw: u32, n: nat)
    ensures
        raised(hw, n) >= hw,
        n <= u32::MAX ==> raised(hw, n) >= n,
{
    if n <= u32::MAX {
        assert(n as int % 0x1_0000_0000 == n as int) by (nonlinear_arith)
            requires
                n < 0x1_0000_0000,
        ;
    }
}

/// Capacity of the blob table.
pub fn max_blobs() -> (r: usize)
    ensures
        r == MAX_BLOBS,
{
    MAX_BLOBS
}

/// Capacity of the resource table.
pub fn max_resources() -> (r: usize)
    ensures
        r == MAX_RESOURCES,
        r >= MAX_BLOBS,
{
    MAX_RESOURCES
}

} // verus!
