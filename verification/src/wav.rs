//! The 44-byte header of a mono PCM WAV file.
use crate::bytes::{le16, le32};
use vstd::prelude::*;

verus! {

/// The four bytes of `v` (below 2^32), least significant first.
pub open spec fn u32_le_bytes(v: int) -> Seq<u8> {
    seq![(v % 256) as u8, ((v / 256) % 256) as u8, ((v / 65536) % 256) as u8, ((v / 16777216) % 256) as u8]
}

/// The two bytes of `v` (below 2^16), least significant first.
pub open spec fn u16_le_bytes(v: int) -> Seq<u8> {
    seq![(v % 256) as u8, ((v / 256) % 256) as u8]
}

/// The header of a mono PCM WAV file of `size` bytes of samples of `bits`
/// bits at `rate` samples a second: "RIFF", the file size less 8, "WAVE",
/// the format chunk (16 bytes: PCM, one channel, the rate, the byte rate
/// (the rate again), a block alignment of 1, the bits per sample), then
/// "data" and `size`.
pub open spec fn wav_header_spec(rate: u32, bits: u16, size: u32) -> Seq<u8> {
    seq![0x52u8, 0x49, 0x46, 0x46] + u32_le_bytes(size + 36) + seq![0x57u8, 0x41, 0x56, 0x45] + seq![
        0x66u8,
        0x6d,
        0x74,
        0x20,
    ] + u32_le_bytes(16) + u16_le_bytes(1) + u16_le_bytes(1) + u32_le_bytes(rate as int) + u32_le_bytes(
        rate as int,
    ) + u16_le_bytes(1) + u16_le_bytes(bits as int) + seq![0x64u8, 0x61, 0x74, 0x61] + u32_le_bytes(
        size as int,
    )
}

/// Appends the four bytes of `v`, least significant first.
fn push_u32_le(out: &mut Vec<u8>, v: u32)
    ensures
        final(out)@ == old(out)@ + u32_le_bytes(v as int),
{
    out.push((v % 256) as u8);
    out.push(((v / 256) % 256) as u8);
    out.push(((v / 65536) % 256) as u8);
    out.push(((v / 16777216) % 256) as u8);
    assert(final(out)@ =~= old(out)@ + u32_le_bytes(v as int));
}

/// Appends the two bytes of `v`, least significant first.
fn push_u16_le(out: &mut Vec<u8>, v: u16)
    ensures
        final(out)@ == old(out)@ + u16_le_bytes(v as int),
{
    out.push((v % 256) as u8);
    out.push(((v / 256) % 256) as u8);
    assert(final(out)@ =~= old(out)@ + u16_le_bytes(v as int));
}

/// Appends four bytes as they stand.
fn push_tag(out: &mut Vec<u8>, a: u8, b: u8, c: u8, d: u8)
    ensures
        final(out)@ == old(out)@ + seq![a, b, c, d],
{
    out.push(a);
    out.push(b);
    out.push(c);
    out.push(d);
    assert(final(out)@ =~= old(out)@ + seq![a, b, c, d]);
}

/// The header of a mono PCM WAV file; see `wav_header_spec`.
pub fn wav_header(rate: u32, bits: u16, size: u32) -> (r: Vec<u8>)
    requires
        size + 36 <= u32::MAX,
    ensures
        r@ == wav_header_spec(rate, bits, size),
        r@.len() == 44,
{
    let mut h: Vec<u8> = Vec::with_capacity(44);
    push_tag(&mut h, 0x52, 0x49, 0x46, 0x46);  // RIFF
    push_u32_le(&mut h, size + 36);
    push_tag(&mut h, 0x57, 0x41, 0x56, 0x45);  // WAVE
    push_tag(&mut h, 0x66, 0x6d, 0x74, 0x20);  // "fmt "
    push_u32_le(&mut h, 16);
    push_u16_le(&mut h, 1);  // PCM
    push_u16_le(&mut h, 1);  // mono
    push_u32_le(&mut h, rate);
    push_u32_le(&mut h, rate);  // rate * channels
    push_u16_le(&mut h, 1);  // block alignment
    push_u16_le(&mut h, bits);
    push_tag(&mut h, 0x64, 0x61, 0x74, 0x61);  // data
    push_u32_le(&mut h, size);
    assert(h@ =~= wav_header_spec(rate, bits, size));
    h
}

} // verus!

verus! {

/// Reading back the four bytes of a 32-bit value gives the value.
proof fn lemma_u32_le_bytes(v: u32)
    ensures
        le32(u32_le_bytes(v as int), 0) == v,
{
    let b = u32_le_bytes(v as int);
    assert(b[0] as int == v % 256 && b[1] as int == (v / 256) % 256 && b[2] as int == (v / 65536) % 256 && b[3] as int
        == (v / 16777216) % 256);
    assert((v % 256) + 256 * ((v / 256) % 256) + 65536 * ((v / 65536) % 256) + 16777216 * ((v / 16777216) % 256) == v)
        by (nonlinear_arith);
}

/// Reading back the two bytes of a 16-bit value gives the value.
proof fn lemma_u16_le_bytes(v: u16)
    ensures
        le16(u16_le_bytes(v as int), 0) == v,
{
    let b = u16_le_bytes(v as int);
    assert(b[0] as int == v % 256 && b[1] as int == (v / 256) % 256);
    assert((v % 256) + 256 * ((v / 256) % 256) == v) by (nonlinear_arith);
}

/// A WAV header read back as a WAV reader reads it: 44 bytes, "RIFF" and a
/// RIFF size of the data size plus 36 (the file length less 8), "WAVE",
/// a 16-byte PCM format chunk for one channel at `rate` samples a second
/// and `bits` bits a sample, then "data" and the data size.
pub proof fn law_wav_header_fields(rate: u32, bits: u16, size: u32)
    requires
        size + 36 <= u32::MAX,
    ensures
        wav_header_spec(rate, bits, size).len() == 44,
        wav_header_spec(rate, bits, size).subrange(0, 4) == seq![0x52u8, 0x49, 0x46, 0x46],
        le32(wav_header_spec(rate, bits, size), 4) == size + 36,
        wav_header_spec(rate, bits, size).subrange(8, 16) == seq![0x57u8, 0x41, 0x56, 0x45, 0x66, 0x6d, 0x74, 0x20],
        le32(wav_header_spec(rate, bits, size), 16) == 16,
        le16(wav_header_spec(rate, bits, size), 20) == 1,
        le16(wav_header_spec(rate, bits, size), 22) == 1,
        le32(wav_header_spec(rate, bits, size), 24) == rate,
        le32(wav_header_spec(rate, bits, size), 28) == rate,
        le16(wav_header_spec(rate, bits, size), 32) == 1,
        le16(wav_header_spec(rate, bits, size), 34) == bits,
        wav_header_spec(rate, bits, size).subrange(36, 40) == seq![0x64u8, 0x61, 0x74, 0x61],
        le32(wav_header_spec(rate, bits, size), 40) == size,
{
    let h = wav_header_spec(rate, bits, size);
    lemma_u32_le_bytes((size + 36) as u32);
    lemma_u32_le_bytes(16);
    lemma_u16_le_bytes(1);
    lemma_u32_le_bytes(rate);
    lemma_u16_le_bytes(bits);
    lemma_u32_le_bytes(size);
    assert(h.subrange(0, 4) =~= seq![0x52u8, 0x49, 0x46, 0x46]);
    assert(h.subrange(4, 8) =~= u32_le_bytes(size + 36));
    assert(h.subrange(8, 16) =~= seq![0x57u8, 0x41, 0x56, 0x45, 0x66, 0x6d, 0x74, 0x20]);
    assert(h.subrange(16, 20) =~= u32_le_bytes(16));
    assert(h.subrange(20, 22) =~= u16_le_bytes(1));
    assert(h.subrange(22, 24) =~= u16_le_bytes(1));
    assert(h.subrange(24, 28) =~= u32_le_bytes(rate as int));
    assert(h.subrange(28, 32) =~= u32_le_bytes(rate as int));
    assert(h.subrange(32, 34) =~= u16_le_bytes(1));
    assert(h.subrange(34, 36) =~= u16_le_bytes(bits as int));
    assert(h.subrange(36, 40) =~= seq![0x64u8, 0x61, 0x74, 0x61]);
    assert(h.subrange(40, 44) =~= u32_le_bytes(size as int));
}

} // verus!
