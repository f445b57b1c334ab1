//! Transport errors and the status codes that device bring-up reports for them.
use vstd::prelude::*;

verus! {

pub const STATUS_INSUFFICIENT_RESOURCES: i32 = -1073741670;

pub const STATUS_IO_DEVICE_ERROR: i32 = -1073741435;

pub const STATUS_DEVICE_BUSY: i32 = -2147483631;

pub const STATUS_IO_TIMEOUT: i32 = -1073741643;

pub const STATUS_NOT_IMPLEMENTED: i32 = -1073741822;

/// Errors of the virtio-gpu transport.
#[derive(Debug, Clone, Copy, PartialEq, Eq, Structural)]
pub enum VirtioError {
    /// A non-paged or contiguous allocation failed.
    OutOfMemory,
    /// A required virtio PCI capability was not found.
    CapNotFound,
    /// The device dropped a required feature during negotiation.
    FeatureRejected,
    /// Mapping a device BAR failed.
    MmioMapFailed,
    /// The device reported an error or behaved unexpectedly.
    DeviceError,
    /// The control queue or the in-flight tables are full: retry after a sleep.
    QueueFull,
    /// A synchronous command did not complete within its wait budget.
    Timeout,
    /// Not yet implemented.
    NotImplemented,
    /// The caller does not own the object it names.
    NotOwned,
    /// A newer presentation already reached the host.
    PresentationSuperseded,
    /// Another presentation owns the scan-out until its flush completes.
    PublicationBusy,
}

/// The status code bring-up reports for `e`; the run-time refusals have none.
pub open spec fn status_of(e: VirtioError) -> Option<i32> {
    match e {
        VirtioError::OutOfMemory => Some(STATUS_INSUFFICIENT_RESOURCES),
        VirtioError::MmioMapFailed => Some(STATUS_INSUFFICIENT_RESOURCES),
        VirtioError::CapNotFound => Some(STATUS_IO_DEVICE_ERROR),
        VirtioError::FeatureRejected => Some(STATUS_IO_DEVICE_ERROR),
        VirtioError::DeviceError => Some(STATUS_IO_DEVICE_ERROR),
        VirtioError::QueueFull => Some(STATUS_DEVICE_BUSY),
        VirtioError::Timeout => Some(STATUS_IO_TIMEOUT),
        VirtioError::NotImplemented => Some(STATUS_NOT_IMPLEMENTED),
        VirtioError::NotOwned => None,
        VirtioError::PresentationSuperseded => None,
        VirtioError::PublicationBusy => None,
    }
}

impl VirtioError {
    /// The status code bring-up reports for this error, where it has one.
    pub fn nt_status(self) -> (r: Option<i32>)
        ensures
            r == status_of(self),
    {
        match self {
            VirtioError::OutOfMemory | VirtioError::MmioMapFailed => Some(
                STATUS_INSUFFICIENT_RESOURCES,
            ),
            VirtioError::CapNotFound | VirtioError::FeatureRejected | VirtioError::DeviceError => {
                Some(STATUS_IO_DEVICE_ERROR)
            },
            VirtioError::QueueFull => Some(STATUS_DEVICE_BUSY),
            VirtioError::Timeout => Some(STATUS_IO_TIMEOUT),
            VirtioError::NotImplemented => Some(STATUS_NOT_IMPLEMENTED),
            VirtioError::NotOwned | VirtioError::PresentationSuperseded
            | VirtioError::PublicationBusy => None,
        }
    }
}

/// Every error that bring-up can return has a negative (failing) status code.
pub proof fn law_status_is_failure(e: VirtioError)
    ensures
        status_of(e) is Some ==> status_of(e)->0 < 0,
{
}

} // verus!
