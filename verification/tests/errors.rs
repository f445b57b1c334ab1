use helios_virtio::error::{
    VirtioError, STATUS_DEVICE_BUSY, STATUS_INSUFFICIENT_RESOURCES, STATUS_IO_DEVICE_ERROR,
    STATUS_IO_TIMEOUT, STATUS_NOT_IMPLEMENTED,
};

#[test]
fn every_bring_up_error_has_its_status() {
    assert_eq!(VirtioError::OutOfMemory.nt_status(), Some(STATUS_INSUFFICIENT_RESOURCES));
    assert_eq!(VirtioError::MmioMapFailed.nt_status(), Some(STATUS_INSUFFICIENT_RESOURCES));
    assert_eq!(VirtioError::CapNotFound.nt_status(), Some(STATUS_IO_DEVICE_ERROR));
    assert_eq!(VirtioError::FeatureRejected.nt_status(), Some(STATUS_IO_DEVICE_ERROR));
    assert_eq!(VirtioError::DeviceError.nt_status(), Some(STATUS_IO_DEVICE_ERROR));
    assert_eq!(VirtioError::QueueFull.nt_status(), Some(STATUS_DEVICE_BUSY));
    assert_eq!(VirtioError::Timeout.nt_status(), Some(STATUS_IO_TIMEOUT));
    assert_eq!(VirtioError::NotImplemented.nt_status(), Some(STATUS_NOT_IMPLEMENTED));
}

#[test]
fn run_time_refusals_have_no_status() {
    assert_eq!(VirtioError::NotOwned.nt_status(), None);
    assert_eq!(VirtioError::PresentationSuperseded.nt_status(), None);
    assert_eq!(VirtioError::PublicationBusy.nt_status(), None);
}

#[test]
fn status_codes_have_their_values() {
    assert_eq!(STATUS_INSUFFICIENT_RESOURCES as u32, 0xC000_009A);
    assert_eq!(STATUS_IO_DEVICE_ERROR as u32, 0xC000_0185);
    assert_eq!(STATUS_DEVICE_BUSY as u32, 0x8000_0011);
    assert_eq!(STATUS_IO_TIMEOUT as u32, 0xC000_00B5);
    assert_eq!(STATUS_NOT_IMPLEMENTED as u32, 0xC000_0002);
}
