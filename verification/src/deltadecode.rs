//! XM sample data is stored as deltas: each value is the difference from the
//! one before it.
use crate::bytes::{le16, read_u16_le};
use crate::sample::TrackerSample;
use vstd::prelude::*;
use vstd::arithmetic::div_mod::{lemma_small_mod, lemma_sub_mod_noop};
use vstd::slice::{slice_subrange, slice_to_vec};

verus! {

/// Sum of the first `n` bytes of `s`.
pub open spec fn byte_sum(s: Seq<u8>, n: int) -> int
    decreases n,
{
    if n <= 0 {
        0
    } else {
        byte_sum(s, n - 1) + s[n - 1]
    }
}

/// 8-bit delta decoding: byte `i` becomes the running sum of bytes `0..=i`,
/// wrapping, then converted from signed to unsigned form (minus 128, wrapping).
pub open spec fn delta8_spec(s: Seq<u8>) -> Seq<u8> {
    Seq::new(s.len(), |i: int| ((byte_sum(s, i + 1) + 128) % 256) as u8)
}

/// Sum of the first `n` little-endian 16-bit words of `s`.
pub open spec fn word_sum(s: Seq<u8>, n: int) -> int
    decreases n,
{
    if n <= 0 {
        0
    } else {
        word_sum(s, n - 1) + le16(s, 2 * (n - 1))
    }
}

/// 16-bit delta decoding: word `w` (bytes `2w` and `2w + 1`, little-endian)
/// becomes the running sum of words `0..=w`, wrapping; a trailing odd byte is
/// kept.
pub open spec fn delta16_spec(s: Seq<u8>) -> Seq<u8> {
    Seq::new(
        s.len(),
        |k: int|
            if k < 2 * (s.len() / 2) {
                let v = word_sum(s, k / 2 + 1) % 65536;
                if k % 2 == 0 {
                    (v % 256) as u8
                } else {
                    (v / 256) as u8
                }
            } else {
                s[k]
            },
    )
}

/// `s` with the bytes from `start` to `end` replaced by `mid`.
pub open spec fn splice(s: Seq<u8>, start: int, end: int, mid: Seq<u8>) -> Seq<u8> {
    s.subrange(0, start) + mid + s.subrange(end, s.len() as int)
}

fn delta8_range(buf: &mut [u8], start: usize, end: usize)
    requires
        start <= end <= old(buf)@.len(),
    ensures
        final(buf)@ == splice(old(buf)@, start as int, end as int, delta8_spec(old(buf)@.subrange(start as int, end as int))),
{
    let ghost orig = buf@;
    let ghost part = orig.subrange(start as int, end as int);
    let mut old_v: u8 = 0;
    let mut i: usize = start;
    while i < end
        invariant
            buf@.len() == orig.len(),
            start <= i <= end <= orig.len(),
            part == orig.subrange(start as int, end as int),
            old_v as int == byte_sum(part, i - start) % 256,
            forall|k: int| 0 <= k < start ==> buf@[k] == orig[k],
            forall|k: int| start <= k < i ==> buf@[k] == delta8_spec(part)[k - start],
            forall|k: int| i <= k < orig.len() ==> buf@[k] == orig[k],
        decreases end - i,
    {
        assert(buf@[i as int] == part[i - start]);
        let new_v: u8 = buf[i].wrapping_add(old_v);
        buf[i] = new_v.wrapping_sub(128);  // convert to signed
        old_v = new_v;
        i += 1;
    }
    assert(buf@ =~= splice(orig, start as int, end as int, delta8_spec(part)));
}

fn delta16_range(buf: &mut [u8], start: usize, end: usize)
    requires
        start <= end <= old(buf)@.len(),
    ensures
        final(buf)@ == splice(old(buf)@, start as int, end as int, delta16_spec(old(buf)@.subrange(start as int, end as int))),
{
    let ghost orig = buf@;
    let ghost part = orig.subrange(start as int, end as int);
    let _l = buf.len();
    let mut old_v: u16 = 0;
    let mut i: usize = 0;
    let n: usize = (end - start) / 2;
    while i < n
        invariant
            buf@.len() == orig.len(),
            start <= end <= orig.len(),
            orig.len() <= usize::MAX,
            part == orig.subrange(start as int, end as int),
            n == part.len() / 2,
            i <= n,
            old_v as int == word_sum(part, i as int) % 65536,
            forall|k: int| 0 <= k < start ==> buf@[k] == orig[k],
            forall|k: int| start <= k < start + 2 * i ==> buf@[k] == delta16_spec(part)[k - start],
            forall|k: int| start + 2 * i <= k < orig.len() ==> buf@[k] == orig[k],
        decreases n - i,
    {
        let idx: usize = start + i * 2;
        assert(le16(buf@, idx as int) == le16(part, 2 * i));
        let w: u16 = read_u16_le(buf, idx).unwrap();
        let new_v: u16 = w.wrapping_add(old_v);
        buf[idx] = (new_v % 256) as u8;
        buf[idx + 1] = (new_v / 256) as u8;
        old_v = new_v;
        i += 1;
    }
    assert(buf@ =~= splice(orig, start as int, end as int, delta16_spec(part)));
}

/// Decodes 8-bit delta values in place.
pub fn delta_decode_u8(buf: &mut [u8])
    ensures
        final(buf)@ == delta8_spec(old(buf)@),
{
    let ghost orig = buf@;
    let n = buf.len();
    delta8_range(buf, 0, n);
    assert(orig.subrange(0, n as int) =~= orig);
    assert(buf@ =~= delta8_spec(orig));
}

/// Decodes 16-bit little-endian delta values in place; a trailing odd byte
/// is left as it is.
pub fn delta_decode_u16(buf: &mut [u8])
    ensures
        final(buf)@ == delta16_spec(old(buf)@),
{
    let ghost orig = buf@;
    let n = buf.len();
    delta16_range(buf, 0, n);
    assert(orig.subrange(0, n as int) =~= orig);
    assert(buf@ =~= delta16_spec(orig));
}

/// The data of `smp` in `buf`, 8-bit delta decoded. Decodes it in place the
/// first time (and marks the sample readable); later calls read it as it is.
pub fn delta_decode_u8_checked(buf: &mut [u8], smp: &mut TrackerSample) -> (r: Vec<u8>)
    requires
        old(smp).ptr + old(smp).len <= old(buf)@.len(),
    ensures
        ({
            let (p, e) = (old(smp).ptr as int, old(smp).ptr + old(smp).len);
            if old(smp).is_readable {
                &&& final(buf)@ == old(buf)@
                &&& *final(smp) == *old(smp)
                &&& r@ == old(buf)@.subrange(p, e)
            } else {
                &&& final(buf)@ == splice(old(buf)@, p, e, delta8_spec(old(buf)@.subrange(p, e)))
                &&& final(smp)@ == (crate::sample::SampleModel { is_readable: true, ..old(smp)@ })
                &&& r@ == delta8_spec(old(buf)@.subrange(p, e))
            }
        }),
{
    let _l = buf.len();
    let start = smp.ptr;
    let end = smp.ptr + smp.len;
    if !smp.is_readable {
        smp.is_readable = true;
        delta8_range(buf, start, end);
    }
    let r = slice_to_vec(slice_subrange(buf, start, end));
    proof {
        if !old(smp).is_readable {
            assert(r@ =~= delta8_spec(old(buf)@.subrange(start as int, end as int)));
        }
    }
    r
}

/// The data of `smp` in `buf`, 16-bit delta decoded. Decodes it in place the
/// first time (and marks the sample readable); later calls read it as it is.
pub fn delta_decode_u16_checked(buf: &mut [u8], smp: &mut TrackerSample) -> (r: Vec<u8>)
    requires
        old(smp).ptr + old(smp).len <= old(buf)@.len(),
    ensures
        ({
            let (p, e) = (old(smp).ptr as int, old(smp).ptr + old(smp).len);
            if old(smp).is_readable {
                &&& final(buf)@ == old(buf)@
                &&& *final(smp) == *old(smp)
                &&& r@ == old(buf)@.subrange(p, e)
            } else {
                &&& final(buf)@ == splice(old(buf)@, p, e, delta16_spec(old(buf)@.subrange(p, e)))
                &&& final(smp)@ == (crate::sample::SampleModel { is_readable: true, ..old(smp)@ })
                &&& r@ == delta16_spec(old(buf)@.subrange(p, e))
            }
        }),
{
    let _l = buf.len();
    let start = smp.ptr;
    let end = smp.ptr + smp.len;
    if !smp.is_readable {
        smp.is_readable = true;
        delta16_range(buf, start, end);
    }
    let r = slice_to_vec(slice_subrange(buf, start, end));
    proof {
        if !old(smp).is_readable {
            assert(r@ =~= delta16_spec(old(buf)@.subrange(start as int, end as int)));
        }
    }
    r
}

} // verus!

verus! {

/// Delta decoding keeps the length of the data.
pub proof fn law_delta_keeps_length(s: Seq<u8>)
    ensures
        delta8_spec(s).len() == s.len(),
        delta16_spec(s).len() == s.len(),
{
}

/// A sample is delta decoded once: after the first checked call has decoded
/// the sample's bytes in place, they hold what that call returned, and the
/// rest of the buffer is as it was; so a later call, which reads them as
/// they are, returns the same data.
pub proof fn law_checked_decode_once(b: Seq<u8>, p: int, e: int)
    requires
        0 <= p <= e <= b.len(),
    ensures
        splice(b, p, e, delta8_spec(b.subrange(p, e))).subrange(p, e) == delta8_spec(b.subrange(p, e)),
        splice(b, p, e, delta16_spec(b.subrange(p, e))).subrange(p, e) == delta16_spec(b.subrange(p, e)),
        splice(b, p, e, delta8_spec(b.subrange(p, e))).len() == b.len(),
        splice(b, p, e, delta16_spec(b.subrange(p, e))).len() == b.len(),
        splice(b, p, e, delta8_spec(b.subrange(p, e))).subrange(0, p) == b.subrange(0, p),
        splice(b, p, e, delta8_spec(b.subrange(p, e))).subrange(e, b.len() as int) == b.subrange(e, b.len() as int),
{
    let d8 = delta8_spec(b.subrange(p, e));
    let d16 = delta16_spec(b.subrange(p, e));
    assert(splice(b, p, e, d8).subrange(p, e) =~= d8);
    assert(splice(b, p, e, d16).subrange(p, e) =~= d16);
    assert(splice(b, p, e, d8).subrange(0, p) =~= b.subrange(0, p));
    assert(splice(b, p, e, d8).subrange(e, b.len() as int) =~= b.subrange(e, b.len() as int));
}

} // verus!

verus! {

/// Delta decoding adds each stored byte to the sample before it: the first
/// 8-bit sample is the first byte converted to unsigned form, and each later
/// sample differs from the one before it by its stored byte (modulo 256).
pub proof fn law_delta8_adds_each_byte(s: Seq<u8>)
    ensures
        s.len() > 0 ==> delta8_spec(s)[0] as int == (s[0] as int + 128) % 256,
        forall|i: int|
            0 < i < s.len() ==> (#[trigger] delta8_spec(s)[i] as int - delta8_spec(s)[i - 1] as int) % 256 == s[i] as int,
{
    assert(byte_sum(s, 0) == 0);
    assert forall|i: int| 0 < i < s.len() implies (#[trigger] delta8_spec(s)[i] as int - delta8_spec(s)[i - 1] as int)
        % 256 == s[i] as int by {
        let x = byte_sum(s, i + 1) + 128;
        let y = byte_sum(s, i) + 128;
        assert(x - y == s[i] as int);
        lemma_sub_mod_noop(x, y, 256);
        lemma_small_mod(s[i] as nat, 256);
    }
}

/// The same for 16-bit samples (little-endian words): the first sample is
/// the first stored word, and each later whole sample differs from the one
/// before it by its stored word (modulo 65536).
pub proof fn law_delta16_adds_each_word(s: Seq<u8>)
    ensures
        s.len() >= 2 ==> le16(delta16_spec(s), 0) == le16(s, 0),
        forall|w: int|
            0 < w && 2 * w + 1 < s.len() ==> (#[trigger] le16(delta16_spec(s), 2 * w) - le16(delta16_spec(s), 2 * (w - 1)))
                % 65536 == le16(s, 2 * w),
{
    let d = delta16_spec(s);
    assert forall|w: int| 0 <= w && 2 * w + 1 < s.len() implies #[trigger] le16(d, 2 * w) == word_sum(s, w + 1) % 65536 by {
        let v = word_sum(s, w + 1) % 65536;
        assert(2 * w < 2 * (s.len() / 2));
        assert(2 * w + 1 < 2 * (s.len() / 2));
        assert((2 * w) / 2 == w && (2 * w) % 2 == 0);
        assert((2 * w + 1) / 2 == w && (2 * w + 1) % 2 == 1);
        assert(d[2 * w] as int == v % 256);
        assert(d[2 * w + 1] as int == v / 256);
    }
    if s.len() >= 2 {
        assert(le16(d, 0) == word_sum(s, 1) % 65536);
        assert(word_sum(s, 0) == 0);
        lemma_small_mod(le16(s, 0) as nat, 65536);
    }
    assert forall|w: int| 0 < w && 2 * w + 1 < s.len() implies (#[trigger] le16(d, 2 * w) - le16(d, 2 * (w - 1)))
        % 65536 == le16(s, 2 * w) by {
        assert(le16(d, 2 * (w - 1)) == word_sum(s, w) % 65536);
        let x = word_sum(s, w + 1);
        let y = word_sum(s, w);
        assert(x - y == le16(s, 2 * w));
        lemma_sub_mod_noop(x, y, 65536);
        lemma_small_mod(le16(s, 2 * w) as nat, 65536);
    }
}

} // verus!
