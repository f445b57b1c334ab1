use helios_virtio::protocol::{
    decode_display_mode, decode_map_cache, encode_create_blob, encode_ctx_create,
    encode_ctx_destroy, encode_flush, encode_get_display_info, encode_map_blob, encode_resource,
    encode_set_scanout_blob, encode_submit, read32, resp_is_ok, BlobSpec, CMD_CTX_ATTACH_RESOURCE,
    CMD_CTX_DETACH_RESOURCE, CMD_RESOURCE_UNMAP_BLOB, CMD_RESOURCE_UNREF,
};

fn words(bytes: &[u8]) -> Vec<u32> {
    let mut out = Vec::new();
    let mut at = 0;
    while at < bytes.len() {
        out.push(read32(bytes, at));
        at += 4;
    }
    out
}

#[test]
fn words_are_little_endian() {
    assert_eq!(read32(&[0x78, 0x56, 0x34, 0x12], 0), 0x1234_5678);
    assert_eq!(read32(&[9, 0xff, 0xff, 0xff, 0xff, 9], 1), u32::MAX);
}

#[test]
fn only_the_success_band_is_success() {
    assert!(!resp_is_ok(0));
    assert!(!resp_is_ok(0x10ff));
    assert!(resp_is_ok(0x1100));
    assert!(resp_is_ok(0x11ff));
    assert!(!resp_is_ok(0x1200));
}

#[test]
fn submit_on_ring_zero_carries_only_a_fence() {
    assert_eq!(
        words(&encode_submit(0x1_0000_0002, 7, 0, 48)),
        vec![0x0207, 1, 2, 1, 7, 0, 48, 0]
    );
}

#[test]
fn submit_on_another_ring_names_it() {
    assert_eq!(words(&encode_submit(5, 7, 1, 48)), vec![0x0207, 3, 5, 0, 7, 1, 48, 0]);
    // A ring index that does not fit its byte saturates.
    assert_eq!(words(&encode_submit(5, 7, 700, 48)), vec![0x0207, 3, 5, 0, 7, 255, 48, 0]);
}

#[test]
fn header_only_commands() {
    assert_eq!(words(&encode_get_display_info()), vec![0x0100, 0, 0, 0, 0, 0]);
    assert_eq!(words(&encode_ctx_destroy(9)), vec![0x0201, 0, 0, 0, 9, 0]);
}

#[test]
fn context_creation_pads_its_name() {
    let bytes = encode_ctx_create(3, 4, b"helios");
    assert_eq!(bytes.len(), 96);
    assert_eq!(words(&bytes[..32]), vec![0x0200, 0, 0, 0, 3, 0, 6, 4]);
    assert_eq!(&bytes[32..38], b"helios");
    assert!(bytes[38..].iter().all(|b| *b == 0));
}

#[test]
fn resource_commands() {
    assert_eq!(
        words(&encode_resource(CMD_CTX_ATTACH_RESOURCE, 3, 8)),
        vec![0x0202, 0, 0, 0, 3, 0, 8, 0]
    );
    assert_eq!(
        words(&encode_resource(CMD_CTX_DETACH_RESOURCE, 3, 8)),
        vec![0x0203, 0, 0, 0, 3, 0, 8, 0]
    );
    assert_eq!(
        words(&encode_resource(CMD_RESOURCE_UNREF, 0, 8)),
        vec![0x0102, 0, 0, 0, 0, 0, 8, 0]
    );
    assert_eq!(
        words(&encode_resource(CMD_RESOURCE_UNMAP_BLOB, 0, 8)),
        vec![0x0209, 0, 0, 0, 0, 0, 8, 0]
    );
}

#[test]
fn blob_creation_names_its_memory() {
    let blob = BlobSpec { blob_mem: 2, blob_flags: 1, blob_id: 0x2_0000_0003, size: 0x5000 };
    assert_eq!(
        words(&encode_create_blob(3, 8, blob)),
        vec![0x010c, 0, 0, 0, 3, 0, 8, 2, 1, 0, 3, 2, 0x5000, 0]
    );
}

#[test]
fn blob_mapping_names_its_offset() {
    assert_eq!(
        words(&encode_map_blob(8, 0x1_0000_1000)),
        vec![0x0208, 0, 0, 0, 0, 0, 8, 0, 0x1000, 1]
    );
}

#[test]
fn scanout_names_its_geometry() {
    assert_eq!(
        words(&encode_set_scanout_blob(8, 1920, 1080, 1, 7680, 64)),
        vec![
            0x010d, 0, 0, 0, 0, 0, 0, 0, 1920, 1080, 0, 8, 1920, 1080, 1, 0, 7680, 0, 0, 0, 64, 0,
            0, 0
        ]
    );
}

#[test]
fn flush_covers_the_whole_scanout() {
    assert_eq!(
        words(&encode_flush(8, 1920, 1080)),
        vec![0x0104, 0, 0, 0, 0, 0, 0, 0, 1920, 1080, 8, 0]
    );
}

#[test]
fn map_response_keeps_only_the_caching_mode() {
    let mut resp = vec![0u8; 32];
    resp[24] = 0xf3;
    resp[25] = 0xff;
    assert_eq!(decode_map_cache(&resp), 3);
}

fn display(width: u32, height: u32) -> Vec<u8> {
    let mut resp = vec![0u8; 408];
    resp[32..36].copy_from_slice(&width.to_le_bytes());
    resp[36..40].copy_from_slice(&height.to_le_bytes());
    resp
}

#[test]
fn display_mode_is_taken_only_when_usable() {
    assert_eq!(decode_display_mode(&display(1920, 1080)), Some((1920, 1080)));
    assert_eq!(decode_display_mode(&display(320, 240)), Some((320, 240)));
    assert_eq!(decode_display_mode(&display(319, 240)), None);
    assert_eq!(decode_display_mode(&display(320, 239)), None);
    assert_eq!(decode_display_mode(&display(16384, 16384)), Some((16384, 16384)));
    assert_eq!(decode_display_mode(&display(16385, 16384)), None);
    assert_eq!(decode_display_mode(&display(16384, 16385)), None);
    assert_eq!(decode_display_mode(&display(0, 0)), None);
}
