//! Sign conversion of raw sample data, as WAV wants it.
use vstd::prelude::*;

verus! {

/// An 8-bit sample byte converted between signed and unsigned form: its value
/// shifted by 128, wrapping.
pub open spec fn flip_u8(b: u8) -> u8 {
    ((b as int + 128) % 256) as u8
}

/// Every byte of `s` converted by `flip_u8`.
pub open spec fn signed_u8_spec(s: Seq<u8>) -> Seq<u8> {
    Seq::new(s.len(), |i: int| flip_u8(s[i]))
}

/// 16-bit little-endian sample data converted between signed and unsigned
/// form: every high byte (odd position) shifted by 128, wrapping; a trailing
/// odd byte is kept.
pub open spec fn signed_u16_spec(s: Seq<u8>) -> Seq<u8> {
    Seq::new(
        s.len(),
        |i: int|
            if i % 2 == 1 {
                flip_u8(s[i])
            } else {
                s[i]
            },
    )
}

/// Converts 8-bit samples between signed and unsigned form
/// (each byte `wrapping_sub(128)`).
pub fn make_signed_u8(data: &[u8]) -> (r: Vec<u8>)
    ensures
        r@ == signed_u8_spec(data@),
{
    let mut out: Vec<u8> = Vec::with_capacity(data.len());
    let mut i: usize = 0;
    while i < data.len()
        invariant
            i <= data@.len(),
            out@ == signed_u8_spec(data@).take(i as int),
        decreases data@.len() - i,
    {
        out.push(data[i].wrapping_sub(128));
        i += 1;
        assert(out@ =~= signed_u8_spec(data@).take(i as int));
    }
    assert(signed_u8_spec(data@).take(i as int) =~= signed_u8_spec(data@));
    out
}

/// Converts 16-bit little-endian samples between signed and unsigned form
/// (each 16-bit word `wrapping_sub(0x8000)`, which changes only its high byte).
pub fn make_signed_u16(data: &[u8]) -> (r: Vec<u8>)
    ensures
        r@ == signed_u16_spec(data@),
{
    let mut out: Vec<u8> = Vec::with_capacity(data.len());
    let mut i: usize = 0;
    while i < data.len()
        invariant
            i <= data@.len(),
            out@ == signed_u16_spec(data@).take(i as int),
        decreases data@.len() - i,
    {
        if i % 2 == 1 {
            out.push(data[i].wrapping_sub(128));
        } else {
            out.push(data[i]);
        }
        i += 1;
        assert(out@ =~= signed_u16_spec(data@).take(i as int));
    }
    assert(signed_u16_spec(data@).take(i as int) =~= signed_u16_spec(data@));
    out
}

} // verus!

verus! {

/// Converting sample data between signed and unsigned form twice gives the
/// data back: each conversion undoes the other.
pub proof fn law_sign_conversion_undoes_itself(s: Seq<u8>)
    ensures
        signed_u8_spec(signed_u8_spec(s)) == s,
        signed_u16_spec(signed_u16_spec(s)) == s,
{
    assert forall|b: u8| flip_u8(flip_u8(b)) == b by {
        assert(flip_u8(b) as int == (b as int + 128) % 256);
        assert(flip_u8(flip_u8(b)) as int == ((b as int + 128) % 256 + 128) % 256);
    }
    assert(signed_u8_spec(signed_u8_spec(s)) =~= s);
    assert(signed_u16_spec(signed_u16_spec(s)) =~= s);
}

} // verus!

verus! {

/// Converting between signed and unsigned form moves each 8-bit sample by
/// half the range (128, modulo 256), and each 16-bit sample by half its
/// range: its high byte moves by 128 and its low byte stays.
pub proof fn law_sign_conversion_shifts_by_half(s: Seq<u8>)
    ensures
        forall|i: int| 0 <= i < s.len() ==> (#[trigger] signed_u8_spec(s)[i] as int - s[i] as int) % 256 == 128,
        forall|i: int|
            0 <= i < s.len() && i % 2 == 1 ==> (#[trigger] signed_u16_spec(s)[i] as int - s[i] as int) % 256 == 128,
        forall|i: int| 0 <= i < s.len() && i % 2 == 0 ==> #[trigger] signed_u16_spec(s)[i] == s[i],
{
    assert forall|b: u8| (flip_u8(b) as int - b as int) % 256 == 128 by {
        assert(flip_u8(b) as int == (b as int + 128) % 256);
    }
}

} // verus!
