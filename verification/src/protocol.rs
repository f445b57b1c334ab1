//! The virtio-gpu wire protocol: command layouts and responses.
//!
//! All integers are little-endian. Every command starts with a 24-byte header.
use vstd::prelude::*;

verus! {

pub const CMD_GET_DISPLAY_INFO: u32 = 0x0100;

pub const CMD_RESOURCE_UNREF: u32 = 0x0102;

pub const CMD_RESOURCE_FLUSH: u32 = 0x0104;

pub const CMD_RESOURCE_CREATE_BLOB: u32 = 0x010c;

pub const CMD_SET_SCANOUT_BLOB: u32 = 0x010d;

pub const CMD_CTX_CREATE: u32 = 0x0200;

pub const CMD_CTX_DESTROY: u32 = 0x0201;

pub const CMD_CTX_ATTACH_RESOURCE: u32 = 0x0202;

pub const CMD_CTX_DETACH_RESOURCE: u32 = 0x0203;

pub const CMD_SUBMIT_3D: u32 = 0x0207;

pub const CMD_RESOURCE_MAP_BLOB: u32 = 0x0208;

pub const CMD_RESOURCE_UNMAP_BLOB: u32 = 0x0209;

/// The command carries a fence.
pub const FLAG_FENCE: u32 = 1;

/// The command names its ring.
pub const FLAG_INFO_RING_IDX: u32 = 2;

/// The caching nibble of a map response.
pub const MAP_CACHE_MASK: u32 = 0xf;

pub const CTRL_HDR_BYTES: usize = 24;

pub const SUBMIT_BYTES: usize = 32;

pub const SET_SCANOUT_BLOB_BYTES: usize = 96;

pub const RESOURCE_FLUSH_BYTES: usize = 48;

pub const CTX_CREATE_BYTES: usize = 96;

pub const CTX_RESOURCE_BYTES: usize = 32;

pub const CREATE_BLOB_BYTES: usize = 56;

pub const MAP_BLOB_BYTES: usize = 40;

pub const UNMAP_BLOB_BYTES: usize = 32;

pub const UNREF_BYTES: usize = 32;

pub const RESP_MAP_INFO_BYTES: usize = 32;

pub const RESP_DISPLAY_INFO_BYTES: usize = 408;

/// Bytes of a context's debug name on the wire.
pub const CTX_NAME_BYTES: usize = 64;

/// The four bytes of `x`, lowest first.
pub open spec fn le32(x: u32) -> Seq<u8> {
    seq![
        (x % 256) as u8,
        (x / 256 % 256) as u8,
        (x / 65536 % 256) as u8,
        (x / 16777216) as u8,
    ]
}

/// The eight bytes of `x`, lowest first.
pub open spec fn le64(x: u64) -> Seq<u8> {
    le32((x % 0x1_0000_0000) as u32) + le32((x / 0x1_0000_0000) as u32)
}

/// The little-endian word at `at`.
pub open spec fn word32(b: Seq<u8>, at: int) -> int {
    b[at] + 256 * b[at + 1] + 65536 * b[at + 2] + 16777216 * b[at + 3]
}

/// Bytes of zero.
pub open spec fn zeros(n: nat) -> Seq<u8> {
    Seq::new(n, |i: int| 0u8)
}

/// A command header.
pub open spec fn hdr_bytes(cmd: u32, flags: u32, fence_id: u64, ctx_id: u32, ring_idx: u8) -> Seq<
    u8,
> {
    le32(cmd) + le32(flags) + le64(fence_id) + le32(ctx_id) + seq![ring_idx, 0u8, 0u8, 0u8]
}

/// A header with no flags, fence or ring.
pub open spec fn plain_hdr(cmd: u32, ctx_id: u32) -> Seq<u8> {
    hdr_bytes(cmd, 0, 0, ctx_id, 0)
}

/// What a written word reads back as.
pub proof fn law_word32_of_le32(x: u32)
    ensures
        le32(x).len() == 4,
        word32(le32(x), 0) == x,
{
}

/// Append the bytes of `x`.
pub(crate) fn put32(out: &mut Vec<u8>, x: u32)
    ensures
        final(out)@ == old(out)@ + le32(x),
{
    out.push((x % 256) as u8);
    out.push((x / 256 % 256) as u8);
    out.push((x / 65536 % 256) as u8);
    out.push((x / 16777216) as u8);
}

/// Append the bytes of `x`.
pub(crate) fn put64(out: &mut Vec<u8>, x: u64)
    ensures
        final(out)@ == old(out)@ + le64(x),
{
    put32(out, (x % 0x1_0000_0000) as u32);
    put32(out, (x / 0x1_0000_0000) as u32);
}

/// The little-endian word at `at`.
pub fn read32(bytes: &[u8], at: usize) -> (r: u32)
    requires
        at + 4 <= bytes@.len(),
    ensures
        r == word32(bytes@, at as int),
{
    bytes[at] as u32 + 256 * (bytes[at + 1] as u32) + 65536 * (bytes[at + 2] as u32) + 16777216 * (
    bytes[at + 3] as u32)
}

fn put_hdr(out: &mut Vec<u8>, cmd: u32, flags: u32, fence_id: u64, ctx_id: u32, ring_idx: u8)
    ensures
        final(out)@ == old(out)@ + hdr_bytes(cmd, flags, fence_id, ctx_id, ring_idx),
{
    put32(out, cmd);
    put32(out, flags);
    put64(out, fence_id);
    put32(out, ctx_id);
    out.push(ring_idx);
    out.push(0);
    out.push(0);
    out.push(0);
}

/// Whether a response word reports success.
pub open spec fn is_ok(resp_type: u32) -> bool {
    0x1100 <= resp_type < 0x1200
}

/// Whether a response word reports success.
pub fn resp_is_ok(resp_type: u32) -> (r: bool)
    ensures
        r == is_ok(resp_type),
{
    0x1100 <= resp_type && resp_type < 0x1200
}

/// A response that the device never wrote is not a success.
pub proof fn law_zeroed_response_is_failure()
    ensures
        !is_ok(0),
{
}

/// The ring byte that a submission for `ring_idx` carries.
pub open spec fn wire_ring(ring_idx: u32) -> u8 {
    if ring_idx <= 255 {
        ring_idx as u8
    } else {
        255
    }
}

/// A fenced SUBMIT_3D command for `size` bytes of command stream.
pub open spec fn submit_bytes(fence_id: u64, ctx_id: u32, ring_idx: u32, size: u32) -> Seq<u8> {
    hdr_bytes(
        CMD_SUBMIT_3D,
        if ring_idx != 0 {
            3
        } else {
            1
        },
        fence_id,
        ctx_id,
        wire_ring(ring_idx),
    ) + le32(size) + le32(0)
}

/// Encode a fenced SUBMIT_3D command.
pub fn encode_submit(fence_id: u64, ctx_id: u32, ring_idx: u32, size: u32) -> (r: Vec<u8>)
    ensures
        r@ == submit_bytes(fence_id, ctx_id, ring_idx, size),
        r@.len() == SUBMIT_BYTES,
{
    let mut out: Vec<u8> = Vec::new();
    let ring: u8 = if ring_idx <= 255 {
        ring_idx as u8
    } else {
        255
    };
    let flags: u32 = if ring_idx != 0 {
        FLAG_FENCE + FLAG_INFO_RING_IDX
    } else {
        FLAG_FENCE
    };
    put_hdr(&mut out, CMD_SUBMIT_3D, flags, fence_id, ctx_id, ring);
    put32(&mut out, size);
    put32(&mut out, 0);
    out
}

/// A GET_DISPLAY_INFO command.
pub fn encode_get_display_info() -> (r: Vec<u8>)
    ensures
        r@ == plain_hdr(CMD_GET_DISPLAY_INFO, 0),
        r@.len() == CTRL_HDR_BYTES,
{
    let mut out: Vec<u8> = Vec::new();
    put_hdr(&mut out, CMD_GET_DISPLAY_INFO, 0, 0, 0, 0);
    out
}

/// A CTX_CREATE command: name length, context flags and the zero-padded name.
pub open spec fn ctx_create_bytes(ctx_id: u32, context_init: u32, name: Seq<u8>) -> Seq<u8> {
    plain_hdr(CMD_CTX_CREATE, ctx_id) + le32(name.len() as u32) + le32(context_init) + name + zeros(
        (CTX_NAME_BYTES - name.len()) as nat,
    )
}

/// Encode a CTX_CREATE command.
pub fn encode_ctx_create(ctx_id: u32, context_init: u32, name: &[u8]) -> (r: Vec<u8>)
    requires
        name@.len() <= CTX_NAME_BYTES,
    ensures
        r@ == ctx_create_bytes(ctx_id, context_init, name@),
        r@.len() == CTX_CREATE_BYTES,
{
    let mut out: Vec<u8> = Vec::new();
    put_hdr(&mut out, CMD_CTX_CREATE, 0, 0, ctx_id, 0);
    put32(&mut out, name.len() as u32);
    put32(&mut out, context_init);
    let ghost head = out@;
    let mut i: usize = 0;
    while i < CTX_NAME_BYTES
        invariant
            i <= CTX_NAME_BYTES,
            name@.len() <= CTX_NAME_BYTES,
            out@.len() == head.len() + i,
            forall|k: int| 0 <= k < head.len() ==> out@[k] == head[k],
            forall|k: int|
                0 <= k < i ==> #[trigger] out@[head.len() + k] == if k < name@.len() {
                    name@[k]
                } else {
                    0u8
                },
        decreases CTX_NAME_BYTES - i,
    {
        if i < name.len() {
            out.push(name[i]);
        } else {
            out.push(0);
        }
        i += 1;
    }
    proof {
        let want = ctx_create_bytes(ctx_id, context_init, name@);
        assert forall|j: int| 0 <= j < want.len() implies out@[j] == want[j] by {
            if j >= head.len() {
                let k = j - head.len();
                assert(out@[head.len() + k] == if k < name@.len() {
                    name@[k]
                } else {
                    0u8
                });
            }
        }
    }
    out
}

/// A header-only command on a context.
pub fn encode_ctx_destroy(ctx_id: u32) -> (r: Vec<u8>)
    ensures
        r@ == plain_hdr(CMD_CTX_DESTROY, ctx_id),
        r@.len() == CTRL_HDR_BYTES,
{
    let mut out: Vec<u8> = Vec::new();
    put_hdr(&mut out, CMD_CTX_DESTROY, 0, 0, ctx_id, 0);
    out
}

/// A command that names one resource and nothing else.
pub open spec fn resource_bytes(cmd: u32, ctx_id: u32, resource_id: u32) -> Seq<u8> {
    plain_hdr(cmd, ctx_id) + le32(resource_id) + le32(0)
}

/// Encode an attach, detach, unmap or unref command.
pub fn encode_resource(cmd: u32, ctx_id: u32, resource_id: u32) -> (r: Vec<u8>)
    ensures
        r@ == resource_bytes(cmd, ctx_id, resource_id),
        r@.len() == CTX_RESOURCE_BYTES,
{
    let mut out: Vec<u8> = Vec::new();
    put_hdr(&mut out, cmd, 0, 0, ctx_id, 0);
    put32(&mut out, resource_id);
    put32(&mut out, 0);
    out
}

/// What a blob is made of.
#[derive(Clone, Copy, Debug, PartialEq, Eq, Structural)]
pub struct BlobSpec {
    pub blob_mem: u32,
    pub blob_flags: u32,
    pub blob_id: u64,
    pub size: u64,
}

pub open spec fn create_blob_bytes(ctx_id: u32, resource_id: u32, blob: BlobSpec) -> Seq<u8> {
    plain_hdr(CMD_RESOURCE_CREATE_BLOB, ctx_id) + le32(resource_id) + le32(blob.blob_mem) + le32(
        blob.blob_flags,
    ) + le32(0) + le64(blob.blob_id) + le64(blob.size)
}

/// Encode a RESOURCE_CREATE_BLOB command without guest memory entries.
pub fn encode_create_blob(ctx_id: u32, resource_id: u32, blob: BlobSpec) -> (r: Vec<u8>)
    ensures
        r@ == create_blob_bytes(ctx_id, resource_id, blob),
        r@.len() == CREATE_BLOB_BYTES,
{
    let mut out: Vec<u8> = Vec::new();
    put_hdr(&mut out, CMD_RESOURCE_CREATE_BLOB, 0, 0, ctx_id, 0);
    put32(&mut out, resource_id);
    put32(&mut out, blob.blob_mem);
    put32(&mut out, blob.blob_flags);
    put32(&mut out, 0);
    put64(&mut out, blob.blob_id);
    put64(&mut out, blob.size);
    out
}

pub open spec fn map_blob_bytes(resource_id: u32, offset: u64) -> Seq<u8> {
    plain_hdr(CMD_RESOURCE_MAP_BLOB, 0) + le32(resource_id) + le32(0) + le64(offset)
}

/// Encode a RESOURCE_MAP_BLOB command.
pub fn encode_map_blob(resource_id: u32, offset: u64) -> (r: Vec<u8>)
    ensures
        r@ == map_blob_bytes(resource_id, offset),
        r@.len() == MAP_BLOB_BYTES,
{
    let mut out: Vec<u8> = Vec::new();
    put_hdr(&mut out, CMD_RESOURCE_MAP_BLOB, 0, 0, 0, 0);
    put32(&mut out, resource_id);
    put32(&mut out, 0);
    put64(&mut out, offset);
    out
}

/// A scan-out's whole rectangle.
pub open spec fn rect_bytes(width: u32, height: u32) -> Seq<u8> {
    le32(0) + le32(0) + le32(width) + le32(height)
}

pub open spec fn set_scanout_blob_bytes(
    resource_id: u32,
    width: u32,
    height: u32,
    format: u32,
    stride: u32,
    offset: u32,
) -> Seq<u8> {
    plain_hdr(CMD_SET_SCANOUT_BLOB, 0) + rect_bytes(width, height) + le32(0) + le32(resource_id)
        + le32(width) + le32(height) + le32(format) + le32(0) + le32(stride) + zeros(12) + le32(
        offset,
    ) + zeros(12)
}

/// Encode a SET_SCANOUT_BLOB command for scan-out 0; resource 0 disables it.
pub fn encode_set_scanout_blob(
    resource_id: u32,
    width: u32,
    height: u32,
    format: u32,
    stride: u32,
    offset: u32,
) -> (r: Vec<u8>)
    ensures
        r@ == set_scanout_blob_bytes(resource_id, width, height, format, stride, offset),
        r@.len() == SET_SCANOUT_BLOB_BYTES,
{
    let mut out: Vec<u8> = Vec::new();
    put_hdr(&mut out, CMD_SET_SCANOUT_BLOB, 0, 0, 0, 0);
    put32(&mut out, 0);
    put32(&mut out, 0);
    put32(&mut out, width);
    put32(&mut out, height);
    put32(&mut out, 0);
    put32(&mut out, resource_id);
    put32(&mut out, width);
    put32(&mut out, height);
    put32(&mut out, format);
    put32(&mut out, 0);
    put32(&mut out, stride);
    put32(&mut out, 0);
    put32(&mut out, 0);
    put32(&mut out, 0);
    put32(&mut out, offset);
    put32(&mut out, 0);
    put32(&mut out, 0);
    put32(&mut out, 0);
    out
}

pub open spec fn flush_bytes(resource_id: u32, width: u32, height: u32) -> Seq<u8> {
    plain_hdr(CMD_RESOURCE_FLUSH, 0) + rect_bytes(width, height) + le32(resource_id) + le32(0)
}

/// Encode a RESOURCE_FLUSH command over the whole scan-out.
pub fn encode_flush(resource_id: u32, width: u32, height: u32) -> (r: Vec<u8>)
    ensures
        r@ == flush_bytes(resource_id, width, height),
        r@.len() == RESOURCE_FLUSH_BYTES,
{
    let mut out: Vec<u8> = Vec::new();
    put_hdr(&mut out, CMD_RESOURCE_FLUSH, 0, 0, 0, 0);
    put32(&mut out, 0);
    put32(&mut out, 0);
    put32(&mut out, width);
    put32(&mut out, height);
    put32(&mut out, resource_id);
    put32(&mut out, 0);
    out
}

/// The caching mode of a map response.
pub open spec fn map_cache_of(resp: Seq<u8>) -> u32 {
    (word32(resp, 24) as u32) & MAP_CACHE_MASK
}

/// The caching mode that a successful map response carries.
pub fn decode_map_cache(resp: &[u8]) -> (r: u32)
    requires
        resp@.len() >= RESP_MAP_INFO_BYTES,
    ensures
        r == map_cache_of(resp@),
{
    read32(resp, 24) & MAP_CACHE_MASK
}

/// A host-reported size that a mode can be made of.
pub open spec fn usable_mode(width: int, height: int) -> bool {
    320 <= width <= 16384 && 240 <= height <= 16384
}

/// Scan-out 0's preferred size, if the host reported a usable one.
pub open spec fn mode_of(resp: Seq<u8>) -> Option<(u32, u32)> {
    let width = word32(resp, 32);
    let height = word32(resp, 36);
    if usable_mode(width, height) {
        Some((width as u32, height as u32))
    } else {
        None
    }
}

/// Scan-out 0's preferred size from a display-info response.
pub fn decode_display_mode(resp: &[u8]) -> (r: Option<(u32, u32)>)
    requires
        resp@.len() >= RESP_DISPLAY_INFO_BYTES,
    ensures
        r == mode_of(resp@),
{
    let width: u32 = read32(resp, 32);
    let height: u32 = read32(resp, 36);
    if width >= 320 && height >= 240 && width <= 16384 && height <= 16384 {
        Some((width, height))
    } else {
        None
    }
}

} // verus!
