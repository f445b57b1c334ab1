//! Which bytes go to the device, and what its answers mean.
use crate::protocol::{create_blob_bytes, ctx_create_bytes, flush_bytes, is_ok, le32, le64,
    map_blob_bytes, map_cache_of, mode_of, plain_hdr, resource_bytes, set_scanout_blob_bytes,
    submit_bytes, BlobSpec};
use vstd::prelude::*;

verus! {

/// The 32-bit field at `at`, lowest byte first.
pub open spec fn field32(b: Seq<u8>, at: int) -> int {
    b[at] + b[at + 1] * 0x100 + b[at + 2] * 0x1_0000 + b[at + 3] * 0x100_0000
}

/// The 64-bit field at `at`, lowest byte first.
pub open spec fn field64(b: Seq<u8>, at: int) -> int {
    field32(b, at) + field32(b, at + 4) * 0x1_0000_0000
}

/// The header of a command: what it is, its flags, its fence, its context and its ring.
pub open spec fn has_header(
    b: Seq<u8>,
    command: int,
    flags: int,
    fence: int,
    ctx_id: int,
    ring: int,
) -> bool {
    &&& field32(b, 0) == command
    &&& field32(b, 4) == flags
    &&& field64(b, 8) == fence
    &&& field32(b, 16) == ctx_id
    &&& b[20] == ring
    &&& b[21] == 0 && b[22] == 0 && b[23] == 0
}

/// Words and longs are written lowest byte first.
pub proof fn law_integers_are_little_endian(x: u32, y: u64)
    ensures
        le32(x).len() == 4,
        field32(le32(x), 0) == x,
        le64(y).len() == 8,
        field64(le64(y), 0) == y,
{
    let lo = (y % 0x1_0000_0000) as u32;
    let hi = (y / 0x1_0000_0000) as u32;
    lemma_word_bytes(x);
    lemma_word_bytes(lo);
    lemma_word_bytes(hi);
    let (a, c) = (le32(lo), le32(hi));
    let b = le64(y);
    assert(b == a + c);
    assert(b[0] == a[0] && b[1] == a[1] && b[2] == a[2] && b[3] == a[3]);
    assert(b[4] == c[0] && b[5] == c[1] && b[6] == c[2] && b[7] == c[3]);
    assert(field32(b, 0) == field32(a, 0));
    assert(field32(b, 4) == field32(c, 0));
}

proof fn lemma_word_bytes(x: u32)
    ensures
        le32(x).len() == 4,
        field32(le32(x), 0) == x,
{
    crate::protocol::law_word32_of_le32(x);
}

proof fn lemma_header(cmd: u32, flags: u32, fence: u64, ctx_id: u32, ring: u8, rest: Seq<u8>)
    ensures
        ({
            let h = crate::protocol::hdr_bytes(cmd, flags, fence, ctx_id, ring);
            &&& h.len() == 24
            &&& has_header(
                h + rest,
                cmd as int,
                flags as int,
                fence as int,
                ctx_id as int,
                ring as int,
            )
        }),
{
    law_integers_are_little_endian(cmd, fence);
    law_integers_are_little_endian(flags, fence);
    law_integers_are_little_endian(ctx_id, fence);
    let h = crate::protocol::hdr_bytes(cmd, flags, fence, ctx_id, ring);
    let b = h + rest;
    assert(forall|i: int| 0 <= i < 24 ==> b[i] == h[i]);
    assert(forall|i: int| 0 <= i < 4 ==> #[trigger] h[i] == le32(cmd)[i]);
    assert(forall|i: int| 0 <= i < 4 ==> #[trigger] h[i + 4] == le32(flags)[i]);
    assert(forall|i: int| 0 <= i < 8 ==> #[trigger] h[i + 8] == le64(fence)[i]);
    assert(forall|i: int| 0 <= i < 4 ==> #[trigger] h[i + 16] == le32(ctx_id)[i]);
    assert(field32(b, 0) == field32(le32(cmd), 0)) by {
        assert(b[0] == le32(cmd)[0] && b[1] == le32(cmd)[1] && b[2] == le32(cmd)[2] && b[3]
            == le32(cmd)[3]);
    }
    assert(field32(b, 4) == field32(le32(flags), 0)) by {
        assert(h[4] == le32(flags)[0] && h[5] == le32(flags)[1] && h[6] == le32(
            flags,
        )[2] && h[7] == le32(flags)[3]);
    }
    assert(field64(b, 8) == field64(le64(fence), 0)) by {
        assert(h[8] == le64(fence)[0] && h[9] == le64(fence)[1] && h[10] == le64(
            fence,
        )[2] && h[11] == le64(fence)[3] && h[12] == le64(fence)[4] && h[13] == le64(
            fence,
        )[5] && h[14] == le64(fence)[6] && h[15] == le64(fence)[7]);
    }
    assert(field32(b, 16) == field32(le32(ctx_id), 0)) by {
        assert(h[16] == le32(ctx_id)[0] && h[17] == le32(ctx_id)[1] && h[18] == le32(
            ctx_id,
        )[2] && h[19] == le32(ctx_id)[3]);
    }
}

/// A field that stands behind `front`.
proof fn lemma_field(front: Seq<u8>, x: u32, back: Seq<u8>)
    ensures
        field32(front + (le32(x) + back), front.len() as int) == x,
        forall|at: int|
            0 <= at && at + 4 <= front.len() ==> #[trigger] field32(
                front + (le32(x) + back),
                at,
            ) == field32(front, at),
{
    law_integers_are_little_endian(x, 0);
    let b = front + (le32(x) + back);
    let n = front.len() as int;
    assert(b[n] == le32(x)[0] && b[n + 1] == le32(x)[1] && b[n + 2] == le32(x)[2] && b[n + 3]
        == le32(x)[3]);
}

/// A submission is SUBMIT_3D on its context, under its fence, for so many bytes. Ring 0
/// is not named; any other is, and one that has no byte is the last that has.
pub proof fn law_submission_on_the_wire(fence: u64, ctx_id: u32, ring: u32, size: u32)
    ensures
        ({
            let b = submit_bytes(fence, ctx_id, ring, size);
            let named = if ring <= 255 {
                ring as int
            } else {
                255
            };
            &&& b.len() == 32
            &&& ring == 0 ==> has_header(b, 0x207, 1, fence as int, ctx_id as int, 0)
            &&& ring != 0 ==> has_header(b, 0x207, 3, fence as int, ctx_id as int, named)
            &&& field32(b, 24) == size
            &&& field32(b, 28) == 0
        }),
{
    let flags: u32 = if ring != 0 {
        3
    } else {
        1
    };
    let named = crate::protocol::wire_ring(ring);
    let h = crate::protocol::hdr_bytes(0x207, flags, fence, ctx_id, named);
    let b = submit_bytes(fence, ctx_id, ring, size);
    lemma_header(0x207, flags, fence, ctx_id, named, le32(size) + le32(0));
    assert(b =~= h + (le32(size) + le32(0)));
    lemma_field(h, size, le32(0));
    lemma_field(h + le32(size), 0, Seq::empty());
    assert(b =~= (h + le32(size)) + (le32(0) + Seq::empty()));
}

/// Attach, detach, unmap and unref commands name their resource behind the header.
pub proof fn law_resource_command_on_the_wire(cmd: u32, ctx_id: u32, resource_id: u32)
    ensures
        ({
            let b = resource_bytes(cmd, ctx_id, resource_id);
            &&& b.len() == 32
            &&& has_header(b, cmd as int, 0, 0, ctx_id as int, 0)
            &&& field32(b, 24) == resource_id
            &&& field32(b, 28) == 0
        }),
{
    let h = plain_hdr(cmd, ctx_id);
    let b = resource_bytes(cmd, ctx_id, resource_id);
    lemma_header(cmd, 0, 0, ctx_id, 0, le32(resource_id) + le32(0));
    assert(b =~= h + (le32(resource_id) + le32(0)));
    lemma_field(h, resource_id, le32(0));
    lemma_field(h + le32(resource_id), 0, Seq::empty());
    assert(b =~= (h + le32(resource_id)) + (le32(0) + Seq::empty()));
}

/// A map command names its resource and the offset in the window.
pub proof fn law_map_command_on_the_wire(resource_id: u32, offset: u64)
    ensures
        ({
            let b = map_blob_bytes(resource_id, offset);
            &&& b.len() == 40
            &&& has_header(b, 0x208, 0, 0, 0, 0)
            &&& field32(b, 24) == resource_id
            &&& field32(b, 28) == 0
            &&& field64(b, 32) == offset
        }),
{
    let h = plain_hdr(0x208, 0);
    let b = map_blob_bytes(resource_id, offset);
    let lo = (offset % 0x1_0000_0000) as u32;
    let hi = (offset / 0x1_0000_0000) as u32;
    let f1 = h + le32(resource_id);
    let f2 = f1 + le32(0);
    let f3 = f2 + le32(lo);
    lemma_header(0x208, 0, 0, 0, 0, le32(resource_id) + le32(0) + le64(offset));
    assert(b =~= h + (le32(resource_id) + le32(0) + le64(offset)));
    lemma_field(h, resource_id, le32(0) + le64(offset));
    assert(b =~= h + (le32(resource_id) + (le32(0) + le64(offset))));
    lemma_field(f1, 0, le64(offset));
    assert(b =~= f1 + (le32(0) + le64(offset)));
    lemma_field(f2, lo, le32(hi));
    assert(b =~= f2 + (le32(lo) + le32(hi)));
    lemma_field(f3, hi, Seq::empty());
    assert(b =~= f3 + (le32(hi) + Seq::empty()));
}

/// A context is created with its kind and its name, padded with zeros.
pub proof fn law_context_command_on_the_wire(ctx_id: u32, context_init: u32, name: Seq<u8>)
    requires
        name.len() <= 64,
    ensures
        ({
            let b = ctx_create_bytes(ctx_id, context_init, name);
            &&& b.len() == 96
            &&& has_header(b, 0x200, 0, 0, ctx_id as int, 0)
            &&& field32(b, 24) == name.len()
            &&& field32(b, 28) == context_init
            &&& forall|i: int|
                0 <= i < 64 ==> #[trigger] b[32 + i] == if i < name.len() {
                    name[i]
                } else {
                    0u8
                }
            &&& plain_hdr(0x201, ctx_id).len() == 24
            &&& has_header(plain_hdr(0x201, ctx_id), 0x201, 0, 0, ctx_id as int, 0)
        }),
{
    let h = plain_hdr(0x200, ctx_id);
    let b = ctx_create_bytes(ctx_id, context_init, name);
    let n = name.len() as u32;
    let pad = crate::protocol::zeros((64 - name.len()) as nat);
    lemma_header(0x200, 0, 0, ctx_id, 0, le32(n) + le32(context_init) + name + pad);
    assert(b =~= h + (le32(n) + le32(context_init) + name + pad));
    lemma_field(h, n, le32(context_init) + name + pad);
    assert(b =~= h + (le32(n) + (le32(context_init) + name + pad)));
    lemma_field(h + le32(n), context_init, name + pad);
    assert(b =~= (h + le32(n)) + (le32(context_init) + (name + pad)));
    let front = h + le32(n) + le32(context_init);
    assert(b =~= front + (name + pad));
    assert forall|i: int| 0 <= i < 64 implies #[trigger] b[32 + i] == if i < name.len() {
        name[i]
    } else {
        0u8
    } by {
        assert(b[32 + i] == (name + pad)[i]);
    }
    lemma_header(0x201, 0, 0, ctx_id, 0, Seq::empty());
    assert(plain_hdr(0x201, ctx_id) =~= plain_hdr(0x201, ctx_id) + Seq::empty());
}

/// A blob is created under its resource, with its memory, flags, id and size, and
/// without guest memory.
pub proof fn law_create_command_on_the_wire(ctx_id: u32, resource_id: u32, blob: BlobSpec)
    ensures
        ({
            let b = create_blob_bytes(ctx_id, resource_id, blob);
            &&& b.len() == 56
            &&& has_header(b, 0x10c, 0, 0, ctx_id as int, 0)
            &&& field32(b, 24) == resource_id
            &&& field32(b, 28) == blob.blob_mem
            &&& field32(b, 32) == blob.blob_flags
            &&& field32(b, 36) == 0
            &&& field64(b, 40) == blob.blob_id
            &&& field64(b, 48) == blob.size
        }),
{
    let h = plain_hdr(0x10c, ctx_id);
    let b = create_blob_bytes(ctx_id, resource_id, blob);
    let (a, c) = ((blob.blob_id % 0x1_0000_0000) as u32, (blob.blob_id / 0x1_0000_0000) as u32);
    let (d, e) = ((blob.size % 0x1_0000_0000) as u32, (blob.size / 0x1_0000_0000) as u32);
    let w = seq![resource_id, blob.blob_mem, blob.blob_flags, 0u32, a, c, d, e];
    lemma_header(0x10c, 0, 0, ctx_id, 0, words(w));
    lemma_eight(h, w);
}

/// Eight words behind a header, the last four in pairs.
proof fn lemma_eight(h: Seq<u8>, w: Seq<u32>)
    requires
        h.len() == 24,
        w.len() == 8,
    ensures
        ({
            let b = h + le32(w[0]) + le32(w[1]) + le32(w[2]) + le32(w[3]) + (le32(w[4]) + le32(
                w[5],
            )) + (le32(w[6]) + le32(w[7]));
            &&& b == h + words(w)
            &&& b.len() == 56
            &&& field32(b, 24) == w[0] && field32(b, 28) == w[1] && field32(b, 32) == w[2]
            &&& field32(b, 36) == w[3] && field32(b, 40) == w[4] && field32(b, 44) == w[5]
            &&& field32(b, 48) == w[6] && field32(b, 52) == w[7]
        }),
{
    let b = h + le32(w[0]) + le32(w[1]) + le32(w[2]) + le32(w[3]) + (le32(w[4]) + le32(w[5])) + (
    le32(w[6]) + le32(w[7]));
    lemma_words(w);
    assert forall|i: int| 0 <= i < 56 implies b[i] == (h + words(w))[i] by {
        if i >= 24 {
            assert(words(w)[i - 24] == le32(w[(i - 24) / 4])[(i - 24) % 4]);
        }
    }
    assert(b =~= h + words(w));
    lemma_word_fields(h, w);
}

/// Words one after the other.
spec fn words(w: Seq<u32>) -> Seq<u8>
    decreases w.len(),
{
    if w.len() == 0 {
        Seq::empty()
    } else {
        words(w.drop_last()) + le32(w.last())
    }
}

proof fn lemma_words(w: Seq<u32>)
    ensures
        words(w).len() == 4 * w.len(),
        forall|i: int| 0 <= i < 4 * w.len() ==> #[trigger] words(w)[i] == le32(w[i / 4])[i % 4],
    decreases w.len(),
{
    if w.len() > 0 {
        let front = w.drop_last();
        lemma_words(front);
        assert forall|i: int| 0 <= i < 4 * w.len() implies #[trigger] words(w)[i] == le32(
            w[i / 4],
        )[i % 4] by {
            if i < 4 * front.len() {
                assert(words(w)[i] == words(front)[i]);
            } else {
                assert(i / 4 == w.len() - 1);
                assert(words(w)[i] == le32(w.last())[i - 4 * front.len()]);
            }
        }
    }
}

/// Each of the words behind `h` is a field.
proof fn lemma_word_fields(h: Seq<u8>, w: Seq<u32>)
    requires
        h.len() == 24,
    ensures
        (h + words(w)).len() == 24 + 4 * w.len(),
        forall|k: int| 0 <= k < w.len() ==> field32(h + words(w), 24 + 4 * k) == #[trigger] w[k],
{
    lemma_words(w);
    let b = h + words(w);
    assert forall|k: int| 0 <= k < w.len() implies field32(b, 24 + 4 * k) == #[trigger] w[k] by {
        law_integers_are_little_endian(w[k], 0);
        let at = 4 * k;
        assert(b[24 + at] == words(w)[at] && b[24 + at + 1] == words(w)[at + 1] && b[24 + at + 2]
            == words(w)[at + 2] && b[24 + at + 3] == words(w)[at + 3]);
        assert(words(w)[at] == le32(w[k])[0] && words(w)[at + 1] == le32(w[k])[1] && words(w)[at
            + 2] == le32(w[k])[2] && words(w)[at + 3] == le32(w[k])[3]);
    }
}

/// A SET asks for scan-out 0 to show the whole of a resource, from its offset, in its
/// size, format and stride.
pub proof fn law_set_command_on_the_wire(
    resource_id: u32,
    width: u32,
    height: u32,
    format: u32,
    stride: u32,
    offset: u32,
)
    ensures
        ({
            let b = set_scanout_blob_bytes(resource_id, width, height, format, stride, offset);
            &&& b.len() == 96
            &&& has_header(b, 0x10d, 0, 0, 0, 0)
            &&& field32(b, 24) == 0 && field32(b, 28) == 0
            &&& field32(b, 32) == width && field32(b, 36) == height
            &&& field32(b, 40) == 0
            &&& field32(b, 44) == resource_id
            &&& field32(b, 48) == width && field32(b, 52) == height
            &&& field32(b, 56) == format
            &&& field32(b, 60) == 0
            &&& field32(b, 64) == stride
            &&& field32(b, 68) == 0 && field32(b, 72) == 0 && field32(b, 76) == 0
            &&& field32(b, 80) == offset
            &&& field32(b, 84) == 0 && field32(b, 88) == 0 && field32(b, 92) == 0
        }),
{
    let h = plain_hdr(0x10d, 0);
    let b = set_scanout_blob_bytes(resource_id, width, height, format, stride, offset);
    let w = seq![
        0u32,
        0u32,
        width,
        height,
        0u32,
        resource_id,
        width,
        height,
        format,
        0u32,
        stride,
        0u32,
        0u32,
        0u32,
        offset,
        0u32,
        0u32,
        0u32,
    ];
    lemma_header(0x10d, 0, 0, 0, 0, words(w));
    lemma_words(w);
    law_integers_are_little_endian(0, 0);
    assert(b.len() == 96);
    assert(b =~= h + words(w)) by {
        assert forall|i: int| 24 <= i < 96 implies b[i] == words(w)[i - 24] by {
            assert(words(w)[i - 24] == le32(w[(i - 24) / 4])[(i - 24) % 4]);
        }
    }
    lemma_word_fields(h, w);
    lemma_spread(h, w);
}

/// The fields of words behind a header, one by one.
proof fn lemma_spread(h: Seq<u8>, w: Seq<u32>)
    requires
        h.len() == 24,
        w.len() == 18,
    ensures
        ({
            let b = h + words(w);
            &&& field32(b, 24) == w[0] && field32(b, 28) == w[1] && field32(b, 32) == w[2]
            &&& field32(b, 36) == w[3] && field32(b, 40) == w[4] && field32(b, 44) == w[5]
            &&& field32(b, 48) == w[6] && field32(b, 52) == w[7] && field32(b, 56) == w[8]
            &&& field32(b, 60) == w[9] && field32(b, 64) == w[10] && field32(b, 68) == w[11]
            &&& field32(b, 72) == w[12] && field32(b, 76) == w[13] && field32(b, 80) == w[14]
            &&& field32(b, 84) == w[15] && field32(b, 88) == w[16] && field32(b, 92) == w[17]
        }),
{
    lemma_word_fields(h, w);
}

/// A flush asks for the whole of a resource to be shown anew.
pub proof fn law_flush_command_on_the_wire(resource_id: u32, width: u32, height: u32)
    ensures
        ({
            let b = flush_bytes(resource_id, width, height);
            &&& b.len() == 48
            &&& has_header(b, 0x104, 0, 0, 0, 0)
            &&& field32(b, 24) == 0 && field32(b, 28) == 0
            &&& field32(b, 32) == width && field32(b, 36) == height
            &&& field32(b, 40) == resource_id
            &&& field32(b, 44) == 0
        }),
{
    let h = plain_hdr(0x104, 0);
    let b = flush_bytes(resource_id, width, height);
    let w = seq![0u32, 0u32, width, height, resource_id, 0u32];
    lemma_header(0x104, 0, 0, 0, 0, words(w));
    lemma_words(w);
    assert(b =~= h + words(w)) by {
        assert forall|i: int| 24 <= i < 48 implies b[i] == words(w)[i - 24] by {
            assert(words(w)[i - 24] == le32(w[(i - 24) / 4])[(i - 24) % 4]);
        }
    }
    lemma_word_fields(h, w);
    assert(w[0] == 0 && w[1] == 0 && w[2] == width && w[3] == height && w[4] == resource_id && w[5]
        == 0);
}

/// The device reports success with the words from 0x1100 to 0x11ff, and with no other.
pub proof fn law_success_is_a_range_of_words(word: u32)
    ensures
        is_ok(word) <==> word / 0x100 == 0x11,
{
}

/// A map response carries its caching mode in the low four bits of the word behind its
/// header.
pub proof fn law_caching_mode_is_a_nibble(resp: Seq<u8>)
    requires
        resp.len() >= 32,
    ensures
        map_cache_of(resp) == resp[24] % 16,
{
    let w = (resp[24] + 256 * resp[25] + 65536 * resp[26] + 16777216 * resp[27]) as u32;
    assert(w & 0xf == w % 16) by (bit_vector);
    let rest = resp[25] + 256 * resp[26] + 65536 * resp[27];
    assert(w == resp[24] + 256 * rest);
    assert((resp[24] + 256 * rest) % 16 == resp[24] as int % 16);
}

} // verus!
