//! A small PNG writer for the demonstration seal: chunks with their CRC-32, and image data
//! in stored (uncompressed) zlib blocks with an Adler-32 checksum.
use vstd::prelude::*;
use crate::crl::be32;

verus! {

/// One bit step of the reflected CRC-32 (polynomial `0xEDB88320`).
pub open spec fn crc_bit(c: u32) -> u32 {
    if c & 1 != 0 {
        (c >> 1u32) ^ 0xEDB8_8320
    } else {
        c >> 1u32
    }
}

/// `n` bit steps.
pub open spec fn crc_bits(c: u32, n: nat) -> u32
    decreases n,
{
    if n == 0 {
        c
    } else {
        crc_bits(crc_bit(c), (n - 1) as nat)
    }
}

/// The CRC register after the bytes, from `c`.
pub open spec fn crc_update(c: u32, bytes: Seq<u8>) -> u32
    decreases bytes.len(),
{
    if bytes.len() == 0 {
        c
    } else {
        crc_bits(crc_update(c, bytes.drop_last()) ^ (bytes.last() as u32), 8)
    }
}

/// The CRC-32 (ISO-HDLC, as PNG uses it) of the bytes.
pub open spec fn crc32_of(bytes: Seq<u8>) -> u32 {
    crc_update(0xFFFF_FFFF, bytes) ^ 0xFFFF_FFFF
}

fn crc_byte(c: u32, b: u8) -> (r: u32)
    ensures
        r == crc_bits(c ^ (b as u32), 8),
{
    let mut crc = c ^ (b as u32);
    let ghost start = crc;
    let mut k: u32 = 0;
    while k < 8
        invariant
            k <= 8,
            crc_bits(start, 8) == crc_bits(crc, (8 - k) as nat),
        decreases 8 - k,
    {
        if crc & 1 != 0 {
            crc = (crc >> 1) ^ 0xEDB8_8320;
        } else {
            crc = crc >> 1;
        }
        k = k + 1;
    }
    crc
}

fn crc_over(c: u32, bytes: &[u8]) -> (r: u32)
    ensures
        r == crc_update(c, bytes@),
{
    let mut crc = c;
    let mut i: usize = 0;
    while i < bytes.len()
        invariant
            i <= bytes@.len(),
            crc == crc_update(c, bytes@.take(i as int)),
        decreases bytes@.len() - i,
    {
        assert(bytes@.take(i + 1).drop_last() == bytes@.take(i as int));
        crc = crc_byte(crc, bytes[i]);
        i = i + 1;
    }
    assert(bytes@.take(bytes@.len() as int) == bytes@);
    crc
}

proof fn lemma_crc_concat(c: u32, a: Seq<u8>, b: Seq<u8>)
    ensures
        crc_update(c, a + b) == crc_update(crc_update(c, a), b),
    decreases b.len(),
{
    if b.len() > 0 {
        assert((a + b).drop_last() == a + b.drop_last());
        lemma_crc_concat(c, a, b.drop_last());
    } else {
        assert(a + b == a);
    }
}

/// The CRC-32 of a chunk type followed by its data.
pub fn crc32(chunk_type: &[u8], data: &[u8]) -> (r: u32)
    ensures
        r == crc32_of(chunk_type@ + data@),
{
    let c1 = crc_over(0xFFFF_FFFF, chunk_type);
    let c2 = crc_over(c1, data);
    proof {
        lemma_crc_concat(0xFFFF_FFFF, chunk_type@, data@);
    }
    c2 ^ 0xFFFF_FFFF
}

/// The length field of a chunk: the data length, or `u32::MAX` when it does not fit.
pub open spec fn chunk_length(n: nat) -> u32 {
    if n > u32::MAX {
        u32::MAX
    } else {
        n as u32
    }
}

/// A PNG chunk: length, type, data and the CRC-32 of type and data.
pub open spec fn chunk_bytes(chunk_type: Seq<u8>, data: Seq<u8>) -> Seq<u8> {
    be32(chunk_length(data.len())) + chunk_type + data + be32(crc32_of(chunk_type + data))
}

fn push_be32(out: &mut Vec<u8>, x: u32)
    ensures
        final(out)@ == old(out)@ + be32(x),
{
    out.push((x >> 24) as u8);
    out.push((x >> 16) as u8);
    out.push((x >> 8) as u8);
    out.push(x as u8);
    assert(final(out)@ =~= old(out)@ + be32(x));
}

/// Appends a chunk to a PNG.
pub fn append_chunk(png: &mut Vec<u8>, chunk_type: [u8; 4], data: &[u8])
    ensures
        final(png)@ == old(png)@ + chunk_bytes(chunk_type@, data@),
{
    let len: u32 = if data.len() > 0xFFFF_FFFF {
        0xFFFF_FFFF
    } else {
        data.len() as u32
    };
    push_be32(png, len);
    crate::der_tlv::extend_bytes(png, &chunk_type);
    crate::der_tlv::extend_bytes(png, data);
    let crc = crc32(&chunk_type, data);
    push_be32(png, crc);
    assert(final(png)@ =~= old(png)@ + chunk_bytes(chunk_type@, data@));
}

/// A 16-bit number as 2 little-endian bytes (least significant first), as DEFLATE writes
/// the lengths of a stored block.
pub open spec fn le16(x: u16) -> Seq<u8> {
    seq![x as u8, (x >> 8u16) as u8]
}

/// The stored blocks for the data from `offset` on: at most 65535 bytes each, the last one
/// marked; each length and its complement are written least significant byte first.
pub open spec fn stored_blocks(data: Seq<u8>, offset: int) -> Seq<u8>
    decreases data.len() - offset,
{
    if offset < 0 || offset >= data.len() {
        Seq::empty()
    } else {
        let bl = if data.len() - offset < 65535 {
            data.len() - offset
        } else {
            65535
        };
        let last = offset + bl >= data.len();
        seq![if last { 1u8 } else { 0u8 }] + le16(bl as u16) + le16((!(bl as usize)) as u16)
            + data.subrange(offset, offset + bl) + stored_blocks(data, offset + bl)
    }
}

/// The Adler-32 sums (a, b) after the bytes.
pub open spec fn adler_sums(data: Seq<u8>) -> (u32, u32)
    decreases data.len(),
{
    if data.len() == 0 {
        (1, 0)
    } else {
        let (a, b) = adler_sums(data.drop_last());
        let a2 = ((a + data.last()) % 65521) as u32;
        (a2, ((b + a2) % 65521) as u32)
    }
}

/// The zlib stream of the data in stored blocks: header `78 01`, the blocks, and the
/// Adler-32 checksum.
pub open spec fn zlib_stored(data: Seq<u8>) -> Seq<u8> {
    let (a, b) = adler_sums(data);
    seq![0x78u8, 0x01] + stored_blocks(data, 0) + be32((b << 16u32) | a)
}

proof fn lemma_adler_bounds(data: Seq<u8>)
    ensures
        adler_sums(data).0 < 65521,
        adler_sums(data).1 < 65521,
    decreases data.len(),
{
    if data.len() > 0 {
        lemma_adler_bounds(data.drop_last());
    }
}

/// Wraps data in a zlib stream of stored blocks.
pub fn deflate_raw(data: &[u8]) -> (r: Vec<u8>)
    ensures
        r@ == zlib_stored(data@),
{
    let mut out: Vec<u8> = Vec::new();
    out.push(0x78);
    out.push(0x01);
    let n = data.len();
    let mut offset: usize = 0;
    let ghost head = out@;
    while offset < n
        invariant
            offset <= n == data@.len(),
            head == seq![0x78u8, 0x01],
            out@ + stored_blocks(data@, offset as int) == head + stored_blocks(data@, 0),
        decreases n - offset,
    {
        let ghost before = out@;
        let remaining = n - offset;
        let block_len = if remaining < 65535 {
            remaining
        } else {
            65535
        };
        let is_last = offset + block_len >= n;
        out.push(if is_last {
            1
        } else {
            0
        });
        let l16 = block_len as u16;
        out.push(l16 as u8);
        out.push((l16 >> 8) as u8);
        let c16 = (!block_len) as u16;
        out.push(c16 as u8);
        out.push((c16 >> 8) as u8);
        let mut k = offset;
        let ghost mid = out@;
        while k < offset + block_len
            invariant
                offset <= k <= offset + block_len <= n == data@.len(),
                out@ == mid + data@.subrange(offset as int, k as int),
            decreases offset + block_len - k,
        {
            out.push(data[k]);
            assert(data@.subrange(offset as int, k + 1) == data@.subrange(offset as int, k as int).push(
                data@[k as int],
            ));
            k = k + 1;
        }
        assert(out@ =~= before + (seq![if is_last { 1u8 } else { 0u8 }] + le16(block_len as u16) + le16(
            (!block_len) as u16,
        ) + data@.subrange(offset as int, offset + block_len)));
        offset = offset + block_len;
    }
    assert(out@ == head + stored_blocks(data@, 0));
    let mut a: u32 = 1;
    let mut b: u32 = 0;
    let mut i: usize = 0;
    while i < n
        invariant
            i <= n == data@.len(),
            (a, b) == adler_sums(data@.take(i as int)),
        decreases n - i,
    {
        proof {
            lemma_adler_bounds(data@.take(i as int));
        }
        assert(data@.take(i + 1).drop_last() == data@.take(i as int));
        a = (a + data[i] as u32) % 65521;
        b = (b + a) % 65521;
        i = i + 1;
    }
    assert(data@.take(n as int) == data@);
    let adler = (b << 16) | a;
    push_be32(&mut out, adler);
    out
}

/// The bytes of the PNG signature.
pub open spec fn png_signature() -> Seq<u8> {
    seq![0x89u8, 0x50, 0x4E, 0x47, 0x0D, 0x0A, 0x1A, 0x0A]
}

/// One row of the seal image: filter byte 0, then 32 red pixels.
pub open spec fn red_row() -> Seq<u8> {
    seq![0u8] + Seq::new(96, |i: int| if i % 3 == 0 { 0xCCu8 } else { 0u8 })
}

/// The image data: 32 red rows.
pub open spec fn red_image() -> Seq<u8> {
    Seq::new(32 * 97, |i: int| red_row()[i % 97])
}

/// The demonstration seal: a 32 by 32 red 8-bit RGB PNG.
pub open spec fn demo_png_bytes() -> Seq<u8> {
    png_signature() + chunk_bytes(
        seq![0x49u8, 0x48, 0x44, 0x52],
        be32(32) + be32(32) + seq![8u8, 2, 0, 0, 0],
    ) + chunk_bytes(seq![0x49u8, 0x44, 0x41, 0x54], zlib_stored(red_image())) + chunk_bytes(
        seq![0x49u8, 0x45, 0x4E, 0x44],
        Seq::empty(),
    )
}

/// A 32 by 32 red PNG used as a demonstration seal image.
pub fn demo_seal_png() -> (r: Vec<u8>)
    ensures
        r@ == demo_png_bytes(),
{
    let mut png: Vec<u8> = Vec::new();
    png.push(0x89);
    png.push(0x50);
    png.push(0x4E);
    png.push(0x47);
    png.push(0x0D);
    png.push(0x0A);
    png.push(0x1A);
    png.push(0x0A);
    let mut ihdr: Vec<u8> = Vec::new();
    push_be32(&mut ihdr, 32);
    push_be32(&mut ihdr, 32);
    ihdr.push(8);
    ihdr.push(2);
    ihdr.push(0);
    ihdr.push(0);
    ihdr.push(0);
    assert(ihdr@ =~= be32(32) + be32(32) + seq![8u8, 2, 0, 0, 0]);
    append_chunk(&mut png, [0x49, 0x48, 0x44, 0x52], ihdr.as_slice());
    let mut row: Vec<u8> = Vec::new();
    row.push(0);
    let mut p: usize = 0;
    while p < 32
        invariant
            p <= 32,
            row@.len() == 1 + 3 * p,
            forall|j: int| 0 <= j < row@.len() ==> #[trigger] row@[j] == red_row()[j],
        decreases 32 - p,
    {
        row.push(0xCC);
        row.push(0);
        row.push(0);
        p = p + 1;
    }
    assert(row@ =~= red_row());
    let mut raw: Vec<u8> = Vec::new();
    let mut h: usize = 0;
    while h < 32
        invariant
            h <= 32,
            row@ == red_row(),
            raw@.len() == 97 * h,
            forall|j: int| 0 <= j < raw@.len() ==> #[trigger] raw@[j] == red_row()[j % 97],
        decreases 32 - h,
    {
        let ghost before = raw@;
        crate::der_tlv::extend_bytes(&mut raw, row.as_slice());
        assert forall|j: int| 0 <= j < raw@.len() implies #[trigger] raw@[j] == red_row()[j % 97] by {
            if j >= before.len() {
                assert((j - 97 * h) == j % 97) by (nonlinear_arith)
                    requires
                        97 * h <= j < 97 * h + 97,
                ;
            }
        }
        h = h + 1;
    }
    assert(raw@ =~= red_image());
    let compressed = deflate_raw(raw.as_slice());
    append_chunk(&mut png, [0x49, 0x44, 0x41, 0x54], compressed.as_slice());
    let empty: Vec<u8> = Vec::new();
    append_chunk(&mut png, [0x49, 0x45, 0x4E, 0x44], empty.as_slice());
    assert(empty@ =~= Seq::<u8>::empty());
    assert(png@ =~= demo_png_bytes());
    png
}

} // verus!
