//! Bringing a device up.
//!
//! Bring-up is a state machine over the device's status, features and control
//! queue, with every poll bounded. Its last step hands the host's display report
//! to [`VirtioGpu::init`], which builds the transport.
use crate::config::DxgkConfigAccess;
use crate::error::VirtioError;
use crate::fast_bind::FastBindState;
use crate::fences::{FenceState, FenceTable, WIRE_FENCE_INSTANCE_STRIDE};
use crate::gpu::{GpuState, VirtioGpu};
use crate::hal::DmaBuffer;
use crate::pci_caps::{scan_host_visible_window, window_of};
use crate::protocol::{decode_display_mode, is_ok, mode_of, read32, resp_is_ok, word32,
    RESP_DISPLAY_INFO_BYTES};
use crate::queue::{all_wf, ControlQueue, QueueState, BIND_CMD_POOL};
use crate::scanout::ScanoutRefreshState;
use crate::streams::{StreamState, StreamTable};
use crate::tables::{ResourceTables, TablesState};
use crate::wddm::{WddmFifo, WddmState};
use crate::windowed_blt::{BltState, WindowedBltState};
use vstd::prelude::*;

verus! {

/// Status bits of a virtio device.
pub const STATUS_ACKNOWLEDGE: u32 = 1;

pub const STATUS_DRIVER: u32 = 2;

pub const STATUS_DRIVER_OK: u32 = 4;

pub const STATUS_FEATURES_OK: u32 = 8;

pub const STATUS_FAILED: u32 = 128;

/// How often a reset is polled; the status is read once more after that.
pub const RESET_SPINS: u32 = 100_000;

/// How often the first command is polled.
pub const CTRL_POLL_SPINS: u64 = 100_000_000;

/// Bytes of the first command's buffer: the request in its lower half, the
/// response in its upper half.
pub const SCRATCH_BYTES: usize = 4096;

/// What bring-up is told.
#[derive(Clone, Copy, Debug, PartialEq, Eq, Structural)]
pub enum BringUpEvent {
    Begin,
    /// The device's status.
    Status(u32),
    /// The features that the device offers.
    Features(u64),
    /// Whether the control queue was set up.
    Queue(bool),
    /// Whether the first command's buffer was allocated.
    Scratch(bool),
    /// Whether the first command was queued.
    Added(bool),
    /// Whether its answer is there.
    CanPop(bool),
    /// Whether its answer was taken.
    Popped(bool),
}

/// What bring-up asks for.
#[derive(Clone, Copy, Debug, PartialEq, Eq, Structural)]
pub enum BringUpStep {
    /// Write status 0, then read the status.
    Reset,
    /// Read the status again.
    PollReset,
    /// Write these two statuses, then read the features.
    Acknowledge { first: u32, second: u32 },
    /// Write the accepted features and this status, then read the status.
    Accept { features: u64, status: u32 },
    /// Set up the control queue.
    MakeQueue,
    /// Write this status, then allocate the first command's buffer.
    Start { status: u32 },
    /// Queue the display query and ring the device, then see whether its answer
    /// is there.
    Query,
    /// See again whether the answer is there.
    PollAnswer,
    /// Take the answer.
    Pop,
    /// Build the transport from the answer.
    Build,
    /// Write this status and fail.
    Reject { status: u32, why: VirtioError },
    Fail(VirtioError),
}

/// How far bring-up is.
#[derive(Clone, Copy, Debug, PartialEq, Eq, Structural)]
pub enum BringUpPhase {
    Idle,
    Resetting { spins: u32 },
    Offering,
    Accepting { accepted: u64 },
    Queueing,
    Allocating,
    Querying,
    Polling { polls: u64 },
    Popping,
    Ended,
}

/// The bring-up of a device.
#[derive(Clone, Copy, Debug, PartialEq, Eq, Structural)]
pub struct BringUp {
    /// Features without which the device is of no use.
    pub required: u64,
    /// Features that are taken if offered.
    pub optional: u64,
    pub phase: BringUpPhase,
}

impl BringUp {
    pub open spec fn wf(self) -> bool {
        match self.phase {
            BringUpPhase::Resetting { spins } => spins <= RESET_SPINS + 1,
            BringUpPhase::Polling { polls } => polls < CTRL_POLL_SPINS,
            _ => true,
        }
    }

    pub open spec fn at(self, phase: BringUpPhase) -> BringUp {
        BringUp { phase, ..self }
    }

    pub open spec fn failed(self, why: VirtioError) -> (BringUpStep, BringUp) {
        (BringUpStep::Fail(why), self.at(BringUpPhase::Ended))
    }

    /// The next step and phase. An event that does not fit fails the bring-up.
    pub open spec fn next(self, event: BringUpEvent) -> (BringUpStep, BringUp) {
        match (self.phase, event) {
            (BringUpPhase::Idle, BringUpEvent::Begin) => (
                BringUpStep::Reset,
                self.at(BringUpPhase::Resetting { spins: 0 }),
            ),
            (BringUpPhase::Resetting { spins }, BringUpEvent::Status(status)) => if status == 0 {
                (
                    BringUpStep::Acknowledge { first: 1, second: 3 },
                    self.at(BringUpPhase::Offering),
                )
            } else if spins <= RESET_SPINS {
                (
                    BringUpStep::PollReset,
                    self.at(BringUpPhase::Resetting { spins: (spins + 1) as u32 }),
                )
            } else {
                self.failed(VirtioError::DeviceError)
            },
            (BringUpPhase::Offering, BringUpEvent::Features(offered)) => {
                let accepted = offered & (self.required | self.optional);
                (
                    BringUpStep::Accept { features: accepted, status: 11 },
                    self.at(BringUpPhase::Accepting { accepted }),
                )
            },
            (BringUpPhase::Accepting { accepted }, BringUpEvent::Status(status)) => if status
                & STATUS_FEATURES_OK == 0 || accepted & self.required != self.required {
                (
                    BringUpStep::Reject {
                        status: STATUS_FAILED,
                        why: VirtioError::FeatureRejected,
                    },
                    self.at(BringUpPhase::Ended),
                )
            } else {
                (BringUpStep::MakeQueue, self.at(BringUpPhase::Queueing))
            },
            (BringUpPhase::Queueing, BringUpEvent::Queue(ok)) => if ok {
                (BringUpStep::Start { status: 15 }, self.at(BringUpPhase::Allocating))
            } else {
                self.failed(VirtioError::DeviceError)
            },
            (BringUpPhase::Allocating, BringUpEvent::Scratch(ok)) => if ok {
                (BringUpStep::Query, self.at(BringUpPhase::Querying))
            } else {
                self.failed(VirtioError::OutOfMemory)
            },
            (BringUpPhase::Querying, BringUpEvent::Added(ok)) => if ok {
                (BringUpStep::PollAnswer, self.at(BringUpPhase::Polling { polls: 0 }))
            } else {
                self.failed(VirtioError::DeviceError)
            },
            (BringUpPhase::Polling { polls }, BringUpEvent::CanPop(there)) => if there {
                (BringUpStep::Pop, self.at(BringUpPhase::Popping))
            } else if polls + 1 >= CTRL_POLL_SPINS {
                self.failed(VirtioError::DeviceError)
            } else {
                (
                    BringUpStep::PollAnswer,
                    self.at(BringUpPhase::Polling { polls: (polls + 1) as u64 }),
                )
            },
            (BringUpPhase::Popping, BringUpEvent::Popped(ok)) => if ok {
                (BringUpStep::Build, self.at(BringUpPhase::Ended))
            } else {
                self.failed(VirtioError::DeviceError)
            },
            _ => self.failed(VirtioError::DeviceError),
        }
    }

    pub fn new(required: u64, optional: u64) -> (r: Self)
        ensures
            r == (BringUp { required, optional, phase: BringUpPhase::Idle }),
            r.wf(),
    {
        BringUp { required, optional, phase: BringUpPhase::Idle }
    }

    fn fail(&mut self, why: VirtioError) -> (r: BringUpStep)
        ensures
            r == old(self).failed(why).0,
            *final(self) == old(self).failed(why).1,
    {
        self.phase = BringUpPhase::Ended;
        BringUpStep::Fail(why)
    }

    /// Advance the bring-up.
    pub fn advance(&mut self, event: BringUpEvent) -> (r: BringUpStep)
        requires
            old(self).wf(),
        ensures
            r == old(self).next(event).0,
            *final(self) == old(self).next(event).1,
            final(self).wf(),
    {
        match (self.phase, event) {
            (BringUpPhase::Idle, BringUpEvent::Begin) => {
                self.phase = BringUpPhase::Resetting { spins: 0 };
                BringUpStep::Reset
            },
            (BringUpPhase::Resetting { spins }, BringUpEvent::Status(status)) => {
                if status == 0 {
                    self.phase = BringUpPhase::Offering;
                    return BringUpStep::Acknowledge {
                        first: STATUS_ACKNOWLEDGE,
                        second: STATUS_ACKNOWLEDGE + STATUS_DRIVER,
                    };
                }
                if spins <= RESET_SPINS {
                    self.phase = BringUpPhase::Resetting { spins: spins + 1 };
                    return BringUpStep::PollReset;
                }
                self.fail(VirtioError::DeviceError)
            },
            (BringUpPhase::Offering, BringUpEvent::Features(offered)) => {
                let accepted: u64 = offered & (self.required | self.optional);
                self.phase = BringUpPhase::Accepting { accepted };
                BringUpStep::Accept {
                    features: accepted,
                    status: STATUS_ACKNOWLEDGE + STATUS_DRIVER + STATUS_FEATURES_OK,
                }
            },
            (BringUpPhase::Accepting { accepted }, BringUpEvent::Status(status)) => {
                if status & STATUS_FEATURES_OK == 0 || accepted & self.required != self.required {
                    self.phase = BringUpPhase::Ended;
                    return BringUpStep::Reject {
                        status: STATUS_FAILED,
                        why: VirtioError::FeatureRejected,
                    };
                }
                self.phase = BringUpPhase::Queueing;
                BringUpStep::MakeQueue
            },
            (BringUpPhase::Queueing, BringUpEvent::Queue(ok)) => {
                if !ok {
                    return self.fail(VirtioError::DeviceError);
                }
                self.phase = BringUpPhase::Allocating;
                BringUpStep::Start {
                    status: STATUS_ACKNOWLEDGE + STATUS_DRIVER + STATUS_FEATURES_OK
                        + STATUS_DRIVER_OK,
                }
            },
            (BringUpPhase::Allocating, BringUpEvent::Scratch(ok)) => {
                if !ok {
                    return self.fail(VirtioError::OutOfMemory);
                }
                self.phase = BringUpPhase::Querying;
                BringUpStep::Query
            },
            (BringUpPhase::Querying, BringUpEvent::Added(ok)) => {
                if !ok {
                    return self.fail(VirtioError::DeviceError);
                }
                self.phase = BringUpPhase::Polling { polls: 0 };
                BringUpStep::PollAnswer
            },
            (BringUpPhase::Polling { polls }, BringUpEvent::CanPop(there)) => {
                if there {
                    self.phase = BringUpPhase::Popping;
                    return BringUpStep::Pop;
                }
                if polls + 1 >= CTRL_POLL_SPINS {
                    return self.fail(VirtioError::DeviceError);
                }
                self.phase = BringUpPhase::Polling { polls: polls + 1 };
                BringUpStep::PollAnswer
            },
            (BringUpPhase::Popping, BringUpEvent::Popped(ok)) => {
                if !ok {
                    return self.fail(VirtioError::DeviceError);
                }
                self.phase = BringUpPhase::Ended;
                BringUpStep::Build
            },
            _ => self.fail(VirtioError::DeviceError),
        }
    }
}

/// The device is started only with every required feature, and with none that was
/// not offered or not known.
pub proof fn law_features_are_negotiated(b: BringUp, offered: u64, status: u32)
    requires
        b.phase is Offering,
        b.next(BringUpEvent::Features(offered)).1.next(BringUpEvent::Status(status)).0
            == BringUpStep::MakeQueue,
    ensures
        offered & b.required == b.required,
        b.next(BringUpEvent::Features(offered)).0 matches BringUpStep::Accept { features, .. }
            && features & offered == features && features & (b.required | b.optional) == features,
{
    let required = b.required;
    let optional = b.optional;
    assert((offered & (required | optional)) & required == required ==> offered & required
        == required) by (bit_vector);
    assert((offered & (required | optional)) & offered == offered & (required | optional))
        by (bit_vector);
    assert((offered & (required | optional)) & (required | optional) == offered & (required
        | optional)) by (bit_vector);
}

/// What an instance is configured with.
#[derive(Clone, Copy, Debug, PartialEq, Eq, Structural)]
pub struct Knobs {
    pub dma_gpu_fence: bool,
    pub present_exact_watermark: bool,
    pub hold_ms: u32,
    pub head_ms: u32,
}

/// The fence base of the next instance, whose ids share none with this one's.
pub fn next_fence_base(base: u64) -> (r: u64)
    ensures
        r == base.wrapping_add(WIRE_FENCE_INSTANCE_STRIDE),
{
    base.wrapping_add(WIRE_FENCE_INSTANCE_STRIDE)
}

impl GpuState {
    /// The transport of a device that has just come up.
    pub open spec fn fresh(
        config: Seq<u32>,
        resp: Seq<u8>,
        isr: Option<usize>,
        bind_cmd_pool: Seq<DmaBuffer>,
        fence_base: u64,
        knobs: Knobs,
    ) -> GpuState {
        GpuState {
            tables: TablesState::fresh(window_of(config)),
            queue: QueueState::fresh(bind_cmd_pool),
            fences: FenceState::fresh(fence_base),
            streams: StreamState::fresh(),
            blt: BltState::fresh(),
            wddm: WddmState::fresh(
                knobs.hold_ms,
                knobs.head_ms,
                knobs.dma_gpu_fence,
                knobs.present_exact_watermark,
            ),
            fast: FastBindState::blank(0),
            refresh: ScanoutRefreshState::idle(),
            isr_status_va: match isr {
                Some(va) => va,
                None => 0,
            },
            display_mode: mode_of(resp),
        }
    }
}

impl VirtioGpu {
    /// Build the transport of a device that is up.
    ///
    /// `resp` is its answer to the display query, `config` its PCI configuration
    /// space, `isr` where its ISR-status register is mapped, if it could be,
    /// `bind_cmd_pool` buffers for SETs without a waiter, and `fence_base` the first
    /// fence, which is not 0. A refused display query fails; a register that is not mapped does not.
    pub fn init(
        config: &DxgkConfigAccess,
        resp: &[u8],
        isr: Option<usize>,
        bind_cmd_pool: Vec<DmaBuffer>,
        fence_base: u64,
        knobs: Knobs,
    ) -> (r: Result<VirtioGpu, VirtioError>)
        requires
            resp@.len() >= RESP_DISPLAY_INFO_BYTES,
            all_wf(bind_cmd_pool@),
            bind_cmd_pool@.len() <= BIND_CMD_POOL,
            fence_base > 0,
        ensures
            match r {
                Ok(gpu) => {
                    &&& is_ok(word32(resp@, 0) as u32)
                    &&& gpu@ == GpuState::fresh(
                        config@,
                        resp@,
                        isr,
                        bind_cmd_pool@,
                        fence_base,
                        knobs,
                    )
                    &&& gpu@.wf()
                    &&& gpu@.tables.within_capacity()
                },
                Err(e) => !is_ok(word32(resp@, 0) as u32) && e == VirtioError::DeviceError,
            },
    {
        if !resp_is_ok(read32(resp, 0)) {
            return Err(VirtioError::DeviceError);
        }
        Ok(
            VirtioGpu {
                tables: ResourceTables::new(scan_host_visible_window(config)),
                queue: ControlQueue::new(bind_cmd_pool),
                fences: FenceTable::new(fence_base),
                streams: StreamTable::new(),
                blt: WindowedBltState::new(),
                wddm: WddmFifo::new(
                    knobs.hold_ms,
                    knobs.head_ms,
                    knobs.dma_gpu_fence,
                    knobs.present_exact_watermark,
                ),
                fast: FastBindState::new(),
                refresh: ScanoutRefreshState::new(),
                isr_status_va: match isr {
                    Some(va) => va,
                    None => 0,
                },
                display_mode: decode_display_mode(resp),
            },
        )
    }
}

} // verus!
