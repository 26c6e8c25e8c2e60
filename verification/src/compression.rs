//! Impulse Tracker sample decompression (IT2.14 and IT2.15).
use crate::bytes::{le16, read_u16_le};
use crate::error::{err_view, oob_view, ErrorKind, ErrorView, XmoditsError};
use vstd::prelude::*;
use vstd::slice::{slice_subrange, slice_to_vec};
use vstd::string::StringExecFns;
use vstd::arithmetic::power2::{pow2, lemma_pow2_unfold, lemma2_to64};
use vstd::arithmetic::div_mod::{lemma_add_mod_noop, lemma_small_mod};
use vstd::bits::{lemma_u16_shl_is_mul, lemma_u16_shr_is_div, lemma_u32_shl_is_mul, lemma_u32_shr_is_div, lemma_u16_pow2_no_overflow, lemma_u32_pow2_no_overflow};
use crate::signed::{make_signed_u8, signed_u8_spec};

verus! {

/// `2` to the power `e`.
pub open spec fn two_pow(e: nat) -> nat
    decreases e,
{
    if e == 0 {
        1
    } else {
        2 * two_pow((e - 1) as nat)
    }
}

/// Bit `p` of a byte stream, counting from the least significant bit of
/// the first byte.
pub open spec fn bit_at(data: Seq<u8>, p: int) -> int {
    (((data[p / 8] as u32) >> ((p % 8) as u32)) & 1u32) as int
}

/// The `n` bits of `data` from bit `p` on, the first of them the least
/// significant.
pub open spec fn bits_value(data: Seq<u8>, p: int, n: nat) -> int
    decreases n,
{
    if n == 0 {
        0
    } else {
        bits_value(data, p, (n - 1) as nat) + bit_at(data, p + n - 1) * two_pow((n - 1) as nat)
    }
}

/// Decimal digits of `n`.
pub open spec fn decimal(n: nat) -> Seq<char>
    decreases n,
{
    if n < 10 {
        seq![((n + 48) as u8) as char]
    } else {
        decimal(n / 10).push((((n % 10) + 48) as u8) as char)
    }
}

/// The error reported for a bit width that no block may use.
pub open spec fn width_error_view(width: int) -> ErrorView {
    err_view(
        ErrorKind::GenericError,
        "Invalid Bit width. Why is it "@ + decimal(width as nat) + "?"@,
    )
}

/// The error reported for a compressed block of size zero.
pub open spec fn zero_block_view() -> ErrorView {
    err_view(ErrorKind::GenericError, "block size is zero >:("@)
}

/// The error reported for a compressed block that runs past the buffer.
pub open spec fn small_buffer_view() -> ErrorView {
    err_view(ErrorKind::GenericError, "Cannot Allocate, buffer is too small"@)
}

/// The block that starts at `off`: the data from `off` to the end of `buf`
/// (bits are read from its third byte on) and the offset of the next block.
pub open spec fn next_block(buf: Seq<u8>, off: int) -> Result<(Seq<u8>, int), ErrorView> {
    if off + 2 > buf.len() {
        Err(oob_view())
    } else if le16(buf, off) == 0 {
        Err(zero_block_view())
    } else if buf.len() < off + le16(buf, off) + 2 {
        Err(small_buffer_view())
    } else {
        Ok((buf.subrange(off, buf.len() as int), off + le16(buf, off) + 2))
    }
}

/// The error whose message is "Invalid Bit width. Why is it ", the width in
/// decimal, and "?".
fn width_error(width: u8) -> (e: XmoditsError)
    ensures
        e@ == width_error_view(width as int),
{
    let mut msg = String::from_str("Invalid Bit width. Why is it ");
    let digits = crate::text::decimal_text(width as u64);
    msg.append(digits.as_str());
    msg.append("?");
    XmoditsError::GenericError(msg)
}

fn generic_error(msg: &str) -> (e: XmoditsError)
    ensures
        e@ == err_view(ErrorKind::GenericError, msg@),
{
    XmoditsError::GenericError(String::from_str(msg))
}

/// What a reader holds, seen abstractly: where the next block starts, the
/// data of the current block (empty before the first one) and the position of
/// the next bit in it.
pub struct ReaderView {
    pub block_offset: int,
    pub data: Seq<u8>,
    pub pos: int,
}

/// Reads the compressed stream bit by bit, block after block.
///
/// Each block starts with its size as a little-endian `u16`; the bits that
/// follow are read from the least significant bit of each byte on.
pub struct BitReader<'a> {
    block_offset: usize,
    bitnum: u8,
    bitbuf: u32,
    buf: &'a [u8],
    blk_data: Vec<u8>,
    blk_index: usize,
}

impl<'a> View for BitReader<'a> {
    type V = ReaderView;

    closed spec fn view(&self) -> ReaderView {
        ReaderView {
            block_offset: self.block_offset as int,
            data: self.blk_data@,
            pos: self.blk_index * 8 + 8 - self.bitnum,
        }
    }
}

proof fn lemma_shift_step(x: u32, s: u32)
    requires
        s < 8,
    ensures
        (x >> s) >> 1u32 == x >> (s + 1) as u32,
{
    assert((x >> s) >> 1u32 == x >> (s + 1) as u32) by (bit_vector)
        requires
            s < 8u32,
    ;
}

proof fn lemma_byte_shift_8(x: u8)
    ensures
        (x as u32) >> 8u32 == 0,
{
    assert((x as u32) >> 8u32 == 0) by (bit_vector);
}

proof fn lemma_bit(x: u32)
    ensures
        (x & 1u32 == 1u32) || (x & 1u32 == 0u32),
{
    assert((x & 1u32 == 1u32) || (x & 1u32 == 0u32)) by (bit_vector);
}

proof fn lemma_two_pow_bound(k: nat)
    requires
        k <= 32,
    ensures
        1 <= two_pow(k) <= two_pow(32),
        two_pow(32) == 0x1_0000_0000,
    decreases 32 - k,
{
    reveal_with_fuel(two_pow, 33);
    if k < 32 {
        lemma_two_pow_bound(k + 1);
    }
}

proof fn lemma_bits_value_bound(data: Seq<u8>, p: int, n: nat)
    ensures
        0 <= bits_value(data, p, n) < two_pow(n),
    decreases n,
{
    if n > 0 {
        lemma_bits_value_bound(data, p, (n - 1) as nat);
        let x = data[(p + n - 1) / 8] as u32;
        let s = ((p + n - 1) % 8) as u32;
        lemma_bit(x >> s);
        assert(bit_at(data, p + n - 1) == 0 || bit_at(data, p + n - 1) == 1);
        assert(two_pow(n) == 2 * two_pow((n - 1) as nat));
    }
}

impl<'a> BitReader<'a> {
    /// The bytes the reader reads from.
    pub closed spec fn source(&self) -> Seq<u8> {
        self.buf@
    }

    /// The reader's fields agree with one another.
    pub closed spec fn wf(&self) -> bool {
        &&& self.blk_data@.len() == 0 ==> self.blk_index == 0 && self.bitnum == 0
        &&& self.blk_data@.len() > 0 ==> {
            &&& 2 <= self.blk_index < self.blk_data@.len()
            &&& 0 <= self.bitnum <= 8
            &&& self.bitbuf == (self.blk_data@[self.blk_index as int] as u32) >> ((8
                - self.bitnum) as u32)
        }
    }

    /// A reader at the start of `buf`, before its first block.
    pub fn new(buf: &'a [u8]) -> (r: Self)
        ensures
            r.wf(),
            r.source() == buf@,
            r@.block_offset == 0,
            r@.data.len() == 0,
    {
        BitReader { bitnum: 0, bitbuf: 0, buf, blk_data: Vec::new(), blk_index: 0, block_offset: 0 }
    }

    /// Loads the block at the current block offset: reads its size, copies the
    /// rest of the buffer and moves to the first bit after the size field.
    pub fn read_next_block(&mut self) -> (r: Result<(), XmoditsError>)
        requires
            old(self).wf(),
        ensures
            final(self).wf(),
            final(self).source() == old(self).source(),
            match next_block(old(self).source(), old(self)@.block_offset) {
                Ok((data, next)) => r is Ok && final(self)@ == ReaderView {
                    block_offset: next,
                    data,
                    pos: 16,
                },
                Err(e) => r is Err && r->Err_0@ == e && final(self)@ == old(self)@,
            },
    {
        let block_size = match read_u16_le(self.buf, self.block_offset) {
            Some(s) => s,
            None => return Err(XmoditsError::OutOfBounds),
        };
        if block_size == 0 {
            return Err(generic_error("block size is zero >:("));
        }
        let data = match self._allocate(block_size as usize) {
            Ok(d) => d,
            Err(e) => return Err(e),
        };
        self.blk_data = data;
        let blen = self.buf.len();
        self.blk_index = 2;
        self.bitbuf = self.blk_data[self.blk_index] as u32;
        self.bitnum = 8;
        proof {
            let x = self.bitbuf;
            assert(x >> 0u32 == x) by (bit_vector);
        }
        self.block_offset = self.block_offset + block_size as usize + 2;
        Ok(())
    }

    /// A copy of the buffer from the current block offset on, provided the
    /// block of `size` bytes and its size field fit in the buffer.
    pub fn _allocate(&self, size: usize) -> (r: Result<Vec<u8>, XmoditsError>)
        ensures
            self@.block_offset + size + 2 <= self.source().len() ==> r is Ok && r->Ok_0@
                == self.source().subrange(self@.block_offset, self.source().len() as int),
            !(self@.block_offset + size + 2 <= self.source().len()) ==> r is Err
                && r->Err_0@ == small_buffer_view(),
    {
        if self.buf.len() < self.block_offset || self.buf.len() - self.block_offset < size
            || self.buf.len() - self.block_offset - size < 2 {
            return Err(generic_error("Cannot Allocate, buffer is too small"));
        }
        let rest = slice_subrange(self.buf, self.block_offset, self.buf.len());
        Ok(slice_to_vec(rest))
    }

    /// Reads `n` bits as `read_bits_u32` does, truncated to 16 bits.
    pub fn read_bits_u16(&mut self, n: u8) -> (r: Result<u16, XmoditsError>)
        requires
            old(self).wf(),
            1 <= n <= 32,
        ensures
            final(self).wf(),
            final(self).source() == old(self).source(),
            old(self)@.data.len() > 0 ==> final(self)@.data == old(self)@.data
                && final(self)@.block_offset == old(self)@.block_offset,
            match read_bits_spec(old(self).source(), old(self)@, n as nat) {
                Ok((st, v)) => r is Ok && r->Ok_0 as int == v % 65536 && final(self)@ == st,
                Err(e) => r is Err && r->Err_0@ == e,
            },
    {
        match self.read_bits_u32(n) {
            Ok(v) => {
                assert((v as u16) as u32 == v % 65536u32) by (bit_vector);
                Ok(v as u16)
            },
            Err(e) => Err(e),
        }
    }

    /// Reads the next `n` bits; the first bit read is the least significant
    /// of the result. Loads the first block if none is loaded yet.
    pub fn read_bits_u32(&mut self, n: u8) -> (r: Result<u32, XmoditsError>)
        requires
            old(self).wf(),
            1 <= n <= 32,
        ensures
            final(self).wf(),
            final(self).source() == old(self).source(),
            old(self)@.data.len() > 0 ==> final(self)@.data == old(self)@.data
                && final(self)@.block_offset == old(self)@.block_offset,
            match read_bits_spec(old(self).source(), old(self)@, n as nat) {
                Ok((st, v)) => r is Ok && r->Ok_0 as int == v && final(self)@ == st,
                Err(e) => r is Err && r->Err_0@ == e,
            },
    {
        if self.blk_data.len() == 0 {
            match self.read_next_block() {
                Ok(()) => {},
                Err(e) => return Err(e),
            }
        }
        let ghost st = self@;
        // Bytes needed past the current one.
        if n as usize > self.bitnum as usize {
            let extra: usize = (n as usize - self.bitnum as usize + 7) / 8;
            if extra > self.blk_data.len() - 1 - self.blk_index {
                proof {
                    let len = self.blk_data@.len() as int;
                    let bi = self.blk_index as int;
                    let d = n as int - self.bitnum as int;
                    assert(d > 8 * (len - 1 - bi)) by (nonlinear_arith)
                        requires
                            extra == (d + 7) / 8,
                            extra > len - 1 - bi,
                            d > 0,
                    ;
                    assert(st.pos + n > 8 * st.data.len());
                }
                return Err(XmoditsError::OutOfBounds);
            }
            proof {
                let len = self.blk_data@.len() as int;
                let bi = self.blk_index as int;
                let d = n as int - self.bitnum as int;
                assert(d <= 8 * (len - 1 - bi)) by (nonlinear_arith)
                    requires
                        extra == (d + 7) / 8,
                        extra <= len - 1 - bi,
                        d > 0,
                ;
            }
        }
        assert(st.pos + n <= 8 * st.data.len());
        let ghost data = self.blk_data@;
        let ghost p0 = st.pos;
        let mut value: u64 = 0;
        let mut weight: u64 = 1;
        let mut k: u8 = 0;
        while k < n
            invariant
                self.wf(),
                self.blk_data@ == data,
                data.len() > 0,
                self.buf@ == old(self).buf@,
                self.block_offset == st.block_offset,
                self@.pos == p0 + k,
                p0 + n <= 8 * data.len(),
                k <= n <= 32,
                weight == two_pow(k as nat),
                value == bits_value(data, p0, k as nat),
            decreases n - k,
        {
            assert(self@.pos == self.blk_index * 8 + 8 - self.bitnum);
            if self.bitnum == 0 {
                assert(self.blk_index * 8 + 8 + (n - k) <= 8 * self.blk_data@.len());
                assert(self.blk_index + 1 < self.blk_data@.len());
                let _dlen = self.blk_data.len();
                self.blk_index = self.blk_index + 1;
                self.bitbuf = self.blk_data[self.blk_index] as u32;
                self.bitnum = 8;
                proof {
                    let x = self.bitbuf;
                    assert(x >> 0u32 == x) by (bit_vector);
                }
            }
            proof {
                lemma_bits_value_bound(data, p0, k as nat);
                lemma_two_pow_bound(k as nat);
                lemma_two_pow_bound((k + 1) as nat);
                let pp = p0 + k;
                assert(pp / 8 == self.blk_index as int);
                assert(pp % 8 == 8 - self.bitnum);
                lemma_bit(self.bitbuf);
                assert(bit_at(data, pp) == (self.bitbuf & 1u32) as int);
                assert(bits_value(data, p0, (k + 1) as nat) == bits_value(data, p0, k as nat)
                    + bit_at(data, pp) * two_pow(k as nat));
            }
            let ghost pp = p0 + k;
            if self.bitbuf & 1 == 1 {
                value = value + weight;
                assert(bit_at(data, pp) == (self.bitbuf & 1u32) as int);
                assert(bit_at(data, pp) == 1);
                let ghost b = bit_at(data, pp);
                let ghost w = two_pow(k as nat);
                assert(b * w == w) by (nonlinear_arith)
                    requires
                        b == 1,
                ;
            } else {
                let ghost b = bit_at(data, pp);
                let ghost w = two_pow(k as nat);
                assert(b == 0);
                assert(b * w == 0) by (nonlinear_arith)
                    requires
                        b == 0,
                ;
            }
            assert(value == bits_value(data, p0, (k + 1) as nat));
            proof {
                lemma_shift_step(self.blk_data@[self.blk_index as int] as u32, (8 - self.bitnum) as u32);
                if self.bitnum == 1 {
                    lemma_byte_shift_8(self.blk_data@[self.blk_index as int]);
                }
            }
            weight = weight * 2;
            self.bitbuf = self.bitbuf >> 1;
            self.bitnum = self.bitnum - 1;
            k = k + 1;
        }
        proof {
            lemma_bits_value_bound(data, p0, n as nat);
            lemma_two_pow_bound(n as nat);
        }
        Ok(value as u32)
    }
}

/// Reading `n` bits from a reader in state `st` over `buf`: the new state and
/// the value read, or the error met.
pub open spec fn read_bits_spec(buf: Seq<u8>, st: ReaderView, n: nat) -> Result<(ReaderView, int), ErrorView> {
    let st1: Result<ReaderView, ErrorView> = if st.data.len() == 0 {
        match next_block(buf, st.block_offset) {
            Ok((data, next)) => Ok(ReaderView { block_offset: next, data, pos: 16 }),
            Err(e) => Err(e),
        }
    } else {
        Ok(st)
    };
    match st1 {
        Err(e) => Err(e),
        Ok(s) => if s.pos + n > 8 * s.data.len() {
            Err(oob_view())
        } else {
            Ok((ReaderView { pos: s.pos + n, ..s }, bits_value(s.data, s.pos, n)))
        },
    }
}


proof fn lemma_two_pow_is_pow2(e: nat)
    ensures
        two_pow(e) == pow2(e),
    decreases e,
{
    if e == 0 {
        lemma2_to64();
    } else {
        lemma_two_pow_is_pow2((e - 1) as nat);
        lemma_pow2_unfold(e);
    }
}

proof fn lemma_shl_u16(s: u16)
    requires
        s < 16,
    ensures
        (1u16 << s) as int == two_pow(s as nat),
{
    lemma_u16_pow2_no_overflow(s as nat);
    lemma_u16_shl_is_mul(1, s);
    lemma_two_pow_is_pow2(s as nat);
}

proof fn lemma_shr_u16(x: u16, s: u16)
    requires
        s < 16,
    ensures
        (x >> s) as int == x as int / (two_pow(s as nat) as int),
{
    lemma_u16_shr_is_div(x, s);
    lemma_two_pow_is_pow2(s as nat);
}

proof fn lemma_shl_u32(s: u32)
    requires
        s < 32,
    ensures
        (1u32 << s) as int == two_pow(s as nat),
{
    lemma_u32_pow2_no_overflow(s as nat);
    lemma_u32_shl_is_mul(1, s);
    lemma_two_pow_is_pow2(s as nat);
}

proof fn lemma_shr_u32(x: u32, s: u32)
    requires
        s < 32,
    ensures
        (x >> s) as int == x as int / (two_pow(s as nat) as int),
{
    lemma_u32_shr_is_div(x, s);
    lemma_two_pow_is_pow2(s as nat);
}

/// The width that a width-change code `val` selects while the width is `width`
/// (the current width itself is skipped).
pub open spec fn next_width(val: int, width: int) -> int {
    if val < width {
        val
    } else {
        val + 1
    }
}

/// Lower border of the width-change codes of an 8-bit block at width 7 or 8.
pub open spec fn border8(width: int) -> int {
    255int / (two_pow((9 - width) as nat) as int) - 4
}

/// Lower border of the width-change codes of a 16-bit block at widths 7 to 16.
pub open spec fn border16(width: int) -> int {
    65535int / (two_pow((17 - width) as nat) as int) - 8
}

/// A `width`-bit delta of an 8-bit block as a byte: sign-extended from
/// `width` bits below width 8, the low 8 bits otherwise.
pub open spec fn delta8(value: int, width: int) -> int {
    if width < 8 && value >= two_pow((width - 1) as nat) {
        value + 256 - two_pow(width as nat)
    } else {
        value % 256
    }
}

/// A `width`-bit delta of a 16-bit block as a 16-bit word: sign-extended
/// from `width` bits below width 16, the low 16 bits otherwise.
pub open spec fn delta16(value: int, width: int) -> int {
    if width < 16 && value >= two_pow((width - 1) as nat) {
        value + 65536 - two_pow(width as nat)
    } else {
        value % 65536
    }
}

/// What the next code of a block says: switch to another bit width, or add
/// a delta (as a byte or 16-bit word) to the first integrator.
pub enum Code {
    Width(int),
    Delta(int),
}

/// The code that a `width`-bit value of an 8-bit block stands for, when it
/// is not the escape of method 1.
pub open spec fn value_code8(value: int, width: int) -> Code {
    if 7 <= width < 9 && border8(width) < value <= border8(width) + 8 {
        // Method 2: widths 7 and 8.
        Code::Width(next_width(value - border8(width), width))
    } else if width == 9 && value >= 256 {
        // Method 3: width 9, high bit set.
        Code::Width((value + 1) % 256)
    } else {
        Code::Delta(delta8(value, width))
    }
}

/// The code of an 8-bit block at bit `pos` of `data` read with width `width`,
/// with the position after it.
pub open spec fn code8(data: Seq<u8>, pos: int, width: int) -> Result<(int, Code), ErrorView> {
    if width < 1 || width > 9 {
        Err(width_error_view(width))
    } else if pos + width > 8 * data.len() {
        Err(oob_view())
    } else {
        let value = bits_value(data, pos, width as nat);
        let p1 = pos + width;
        if width < 7 && value == two_pow((width - 1) as nat) {
            // Method 1: widths 1 to 6; a 3-bit code follows.
            if p1 + 3 > 8 * data.len() {
                Err(oob_view())
            } else {
                Ok((p1 + 3, Code::Width(next_width(bits_value(data, p1, 3) + 1, width))))
            }
        } else {
            Ok((p1, value_code8(value, width)))
        }
    }
}

/// The code that a `width`-bit value of a 16-bit block stands for, when it
/// is not the escape of method 1.
pub open spec fn value_code16(value: int, width: int) -> Code {
    if 7 <= width < 17 && border16(width) < value <= border16(width) + 16 {
        // Method 2: widths 7 to 16.
        Code::Width(next_width(value - border16(width), width))
    } else if width == 17 && value >= 65536 {
        // Method 3: width 17, high bit set.
        Code::Width((value + 1) % 256)
    } else {
        Code::Delta(delta16(value, width))
    }
}

/// The code of a 16-bit block; see `code8`.
pub open spec fn code16(data: Seq<u8>, pos: int, width: int) -> Result<(int, Code), ErrorView> {
    if width < 1 || width > 17 {
        Err(width_error_view(width))
    } else if pos + width > 8 * data.len() {
        Err(oob_view())
    } else {
        let value = bits_value(data, pos, width as nat);
        let p1 = pos + width;
        if width < 7 && value == two_pow((width - 1) as nat) {
            // Method 1: widths 1 to 6; a 4-bit code follows.
            if p1 + 4 > 8 * data.len() {
                Err(oob_view())
            } else {
                Ok((p1 + 4, Code::Width(next_width(bits_value(data, p1, 4) + 1, width))))
            }
        } else {
            Ok((p1, value_code16(value, width)))
        }
    }
}

/// Reading an 8-bit code moves forward, and not past the data.
pub proof fn lemma_code8_advances(data: Seq<u8>, pos: int, width: int)
    ensures
        code8(data, pos, width) matches Ok((p, _)) ==> pos < p <= 8 * data.len(),
{
}

/// Reading a 16-bit code moves forward, and not past the data.
pub proof fn lemma_code16_advances(data: Seq<u8>, pos: int, width: int)
    ensures
        code16(data, pos, width) matches Ok((p, _)) ==> pos < p <= 8 * data.len(),
{
}

/// Decoding one block of 8-bit samples, from bit `pos` of the block data, with
/// `blkpos` of its `blklen` samples decoded, the current width and the two
/// integrators (bytes, wrapping). Gives the final bit position and the output
/// with the block's samples appended: the first integrator for IT2.14, the
/// second for IT2.15.
pub open spec fn inner8(
    data: Seq<u8>,
    pos: int,
    blkpos: int,
    blklen: int,
    width: int,
    d1: int,
    d2: int,
    it215: bool,
    out: Seq<u8>,
) -> Result<(int, Seq<u8>), ErrorView>
    decreases 8 * data.len() - pos,
{
    if blkpos >= blklen {
        Ok((pos, out))
    } else {
        proof {
            lemma_code8_advances(data, pos, width);
        }
        match code8(data, pos, width) {
            Err(e) => Err(e),
            Ok((p, Code::Width(w))) => inner8(data, p, blkpos, blklen, w, d1, d2, it215, out),
            Ok((p, Code::Delta(delta))) => {
                let n1 = (d1 + delta) % 256;
                let n2 = (d2 + n1) % 256;
                inner8(
                    data,
                    p,
                    blkpos + 1,
                    blklen,
                    width,
                    n1,
                    n2,
                    it215,
                    out.push((if it215 { n2 } else { n1 }) as u8),
                )
            },
        }
    }
}

/// Decoding one block of 16-bit samples; see `inner8`. Each sample is
/// appended as two little-endian bytes.
pub open spec fn inner16(
    data: Seq<u8>,
    pos: int,
    blkpos: int,
    blklen: int,
    width: int,
    d1: int,
    d2: int,
    it215: bool,
    out: Seq<u8>,
) -> Result<(int, Seq<u8>), ErrorView>
    decreases 8 * data.len() - pos,
{
    if blkpos >= blklen {
        Ok((pos, out))
    } else {
        proof {
            lemma_code16_advances(data, pos, width);
        }
        match code16(data, pos, width) {
            Err(e) => Err(e),
            Ok((p, Code::Width(w))) => inner16(data, p, blkpos, blklen, w, d1, d2, it215, out),
            Ok((p, Code::Delta(delta))) => {
                let n1 = (d1 + delta) % 65536;
                let n2 = (d2 + n1) % 65536;
                let v = if it215 { n2 } else { n1 };
                inner16(
                    data,
                    p,
                    blkpos + 1,
                    blklen,
                    width,
                    n1,
                    n2,
                    it215,
                    out.push((v % 256) as u8).push((v / 256) as u8),
                )
            },
        }
    }
}

/// Decoding the 8-bit sample blocks from the block at `off` on, `len` samples
/// still to decode; each block holds up to 0x8000 of them.
pub open spec fn outer8(buf: Seq<u8>, off: int, len: int, it215: bool, out: Seq<u8>) -> Result<Seq<u8>, ErrorView>
    decreases len,
{
    if len <= 0 {
        Ok(out)
    } else {
        match next_block(buf, off) {
            Err(e) => Err(e),
            Ok((data, next)) => {
                let blklen = if len < 0x8000 { len } else { 0x8000 };
                match inner8(data, 16, 0, blklen, 9, 0, 0, it215, out) {
                    Err(e) => Err(e),
                    Ok((_, out2)) => outer8(buf, next, len - blklen, it215, out2),
                }
            },
        }
    }
}

/// Decoding the 16-bit sample blocks from the block at `off` on, `len` samples
/// still to decode; each block holds up to 0x4000 of them.
pub open spec fn outer16(buf: Seq<u8>, off: int, len: int, it215: bool, out: Seq<u8>) -> Result<Seq<u8>, ErrorView>
    decreases len,
{
    if len <= 0 {
        Ok(out)
    } else {
        match next_block(buf, off) {
            Err(e) => Err(e),
            Ok((data, next)) => {
                let blklen = if len < 0x4000 { len } else { 0x4000 };
                match inner16(data, 16, 0, blklen, 17, 0, 0, it215, out) {
                    Err(e) => Err(e),
                    Ok((_, out2)) => outer16(buf, next, len - blklen, it215, out2),
                }
            },
        }
    }
}

/// The `len` 8-bit samples that the compressed stream `buf` holds, as raw
/// (signed) bytes.
pub open spec fn decompress8_spec(buf: Seq<u8>, len: int, it215: bool) -> Result<Seq<u8>, ErrorView> {
    outer8(buf, 0, len, it215, Seq::empty())
}

/// The `len` 16-bit samples that the compressed stream `buf` holds, as
/// little-endian bytes.
pub open spec fn decompress16_spec(buf: Seq<u8>, len: int, it215: bool) -> Result<Seq<u8>, ErrorView> {
    outer16(buf, 0, len, it215, Seq::empty())
}

/// A decoded code, as `Code` is seen by the contracts.
enum ExecCode {
    Width(u8),
    Delta(u32),
}

proof fn lemma_two_pow_table()
    ensures
        two_pow(0) == 1,
        two_pow(1) == 2,
        two_pow(2) == 4,
        two_pow(3) == 8,
        two_pow(4) == 16,
        two_pow(5) == 32,
        two_pow(6) == 64,
        two_pow(7) == 128,
        two_pow(8) == 256,
        two_pow(9) == 512,
        two_pow(10) == 1024,
        two_pow(15) == 32768,
        two_pow(16) == 65536,
        two_pow(17) == 131072,
{
    reveal_with_fuel(two_pow, 18);
}

proof fn lemma_two_pow_mono(a: nat, b: nat)
    requires
        a <= b,
    ensures
        two_pow(a) <= two_pow(b),
    decreases b - a,
{
    if a < b {
        lemma_two_pow_mono(a, (b - 1) as nat);
    }
}

/// The code that `value`, read with `width` bits from an 8-bit block,
/// stands for (method 1's escape aside).
fn exec_value_code8(value: u16, width: u8) -> (r: ExecCode)
    requires
        1 <= width <= 9,
        value < two_pow(width as nat),
    ensures
        match value_code8(value as int, width as int) {
            Code::Width(w) => r matches ExecCode::Width(x) && x == w,
            Code::Delta(d) => r matches ExecCode::Delta(x) && x == d && x < 256,
        },
{
    proof {
        lemma_two_pow_table();
        lemma_two_pow_mono(width as nat, 9);
    }
    if 7 <= width && width < 9 {
        // Method 2: widths 7 and 8
        proof {
            lemma_shr_u16(0xff, (9 - width) as u16);
            lemma_two_pow_mono((9 - width) as nat, 2);
            let t = two_pow((9 - width) as nat) as int;
            assert(255int / t >= 63) by (nonlinear_arith)
                requires
                    1 <= t <= 4,
            ;
        }
        let border: u16 = (0xffu16 >> (9 - width) as u16) - 4;
        if value > border && value <= (border + 8) {
            let val = (value - border) as u8;
            return ExecCode::Width(if val < width { val } else { val + 1 });
        }
    } else if width == 9 {
        // Method 3: width 9
        proof {
            let x = value;
            assert(x < 512 ==> (((x & 0x100) >> 8u16 == 1) == (x >= 256))) by (bit_vector);
            assert(((x + 1) as u16 & 0xffu16) == (x + 1) % 256) by (bit_vector)
                requires
                    x < 512,
            ;
        }
        if (value & 0x100) >> 8 == 1 {
            return ExecCode::Width(((value + 1) & 0xff) as u8);
        }
    }
    // Expand the value to a signed byte.
    if width < 8 {
        proof {
            lemma_shl_u16((width - 1) as u16);
            assert(two_pow(width as nat) == 2 * two_pow((width - 1) as nat));
            lemma_two_pow_mono(width as nat, 7);
        }
        let h: u16 = 1u16 << (width - 1) as u16;
        if value >= h {
            ExecCode::Delta((value + 256 - 2 * h) as u32)
        } else {
            ExecCode::Delta(value as u32)
        }
    } else {
        ExecCode::Delta((value % 256) as u32)
    }
}

/// The code that `value`, read with `width` bits from a 16-bit block,
/// stands for (method 1's escape aside).
fn exec_value_code16(value: u32, width: u8) -> (r: ExecCode)
    requires
        1 <= width <= 17,
        value < two_pow(width as nat),
    ensures
        match value_code16(value as int, width as int) {
            Code::Width(w) => r matches ExecCode::Width(x) && x == w,
            Code::Delta(d) => r matches ExecCode::Delta(x) && x == d && x < 65536,
        },
{
    proof {
        lemma_two_pow_table();
        lemma_two_pow_mono(width as nat, 17);
    }
    if 7 <= width && width < 17 {
        // Method 2: widths 7 to 16
        proof {
            lemma_shr_u32(0xffff, (17 - width) as u32);
            lemma_two_pow_mono((17 - width) as nat, 10);
            let t = two_pow((17 - width) as nat) as int;
            assert(65535int / t >= 63) by (nonlinear_arith)
                requires
                    1 <= t <= 1024,
            ;
        }
        let border: u32 = (0xffffu32 >> (17 - width) as u32) - 8;
        if value > border && value <= (border + 16) {
            let val = (value - border) as u8;
            return ExecCode::Width(if val < width { val } else { val + 1 });
        }
    } else if width == 17 {
        // Method 3: width 17
        proof {
            let x = value;
            assert(x < 0x20000 ==> (((x & 0x10000) >> 16u32 == 1) == (x >= 65536))) by (bit_vector);
            assert(((x + 1) as u32 & 0xffu32) == (x + 1) % 256) by (bit_vector)
                requires
                    x < 0x20000,
            ;
        }
        if (value & 0x10000) >> 16 == 1 {
            return ExecCode::Width(((value + 1) & 0xff) as u8);
        }
    }
    // Expand the value to a signed 16-bit word.
    if width < 16 {
        proof {
            lemma_shl_u32((width - 1) as u32);
            assert(two_pow(width as nat) == 2 * two_pow((width - 1) as nat));
            lemma_two_pow_mono(width as nat, 15);
        }
        let h: u32 = 1u32 << (width - 1) as u32;
        if value >= h {
            ExecCode::Delta(value + 65536 - 2 * h)
        } else {
            ExecCode::Delta(value)
        }
    } else {
        ExecCode::Delta(value % 65536)
    }
}

/// Reads the next code of an 8-bit block.
#[verifier::rlimit(40)]
fn read_code8(br: &mut BitReader, width: u8) -> (r: Result<ExecCode, XmoditsError>)
    requires
        old(br).wf(),
        old(br)@.data.len() > 0,
    ensures
        final(br).wf(),
        final(br).source() == old(br).source(),
        final(br)@.data == old(br)@.data,
        final(br)@.block_offset == old(br)@.block_offset,
        match code8(old(br)@.data, old(br)@.pos, width as int) {
            Err(e) => r is Err && r->Err_0@ == e,
            Ok((p, Code::Width(w))) => r matches Ok(ExecCode::Width(x)) && x == w && final(br)@.pos == p,
            Ok((p, Code::Delta(d))) => r matches Ok(ExecCode::Delta(x)) && x == d && x < 256 && final(br)@.pos == p,
        },
{
    if width == 0 || width > 9 {
        return Err(width_error(width));
    }
    let ghost data = br@.data;
    let ghost pos = br@.pos;
    let value: u16 = match br.read_bits_u16(width) {
        Ok(v) => v,
        Err(e) => return Err(e),
    };
    proof {
        lemma_bits_value_bound(data, pos, width as nat);
        lemma_two_pow_table();
        lemma_two_pow_mono(width as nat, 9);
    }
    if width < 7 {
        // Method 1: widths 1 to 6
        proof {
            lemma_shl_u16((width - 1) as u16);
        }
        if value == (1u16 << (width - 1) as u16) {
            let ghost p1 = br@.pos;
            let v3 = match br.read_bits_u16(3) {
                Ok(v) => v,
                Err(e) => return Err(e),
            };
            proof {
                lemma_bits_value_bound(data, p1, 3);
            }
            let val = (v3 + 1) as u8;
            return Ok(ExecCode::Width(if val < width { val } else { val + 1 }));
        }
    }
    Ok(exec_value_code8(value, width))
}

/// Reads the next code of a 16-bit block.
#[verifier::rlimit(40)]
fn read_code16(br: &mut BitReader, width: u8) -> (r: Result<ExecCode, XmoditsError>)
    requires
        old(br).wf(),
        old(br)@.data.len() > 0,
    ensures
        final(br).wf(),
        final(br).source() == old(br).source(),
        final(br)@.data == old(br)@.data,
        final(br)@.block_offset == old(br)@.block_offset,
        match code16(old(br)@.data, old(br)@.pos, width as int) {
            Err(e) => r is Err && r->Err_0@ == e,
            Ok((p, Code::Width(w))) => r matches Ok(ExecCode::Width(x)) && x == w && final(br)@.pos == p,
            Ok((p, Code::Delta(d))) => r matches Ok(ExecCode::Delta(x)) && x == d && x < 65536 && final(br)@.pos == p,
        },
{
    if width == 0 || width > 17 {
        return Err(width_error(width));
    }
    let ghost data = br@.data;
    let ghost pos = br@.pos;
    let value: u32 = match br.read_bits_u32(width) {
        Ok(v) => v,
        Err(e) => return Err(e),
    };
    proof {
        lemma_bits_value_bound(data, pos, width as nat);
        lemma_two_pow_table();
        lemma_two_pow_mono(width as nat, 17);
    }
    if width < 7 {
        // Method 1: widths 1 to 6
        proof {
            lemma_shl_u32((width - 1) as u32);
        }
        if value == (1u32 << (width - 1) as u32) {
            let ghost p1 = br@.pos;
            let v4 = match br.read_bits_u32(4) {
                Ok(v) => v,
                Err(e) => return Err(e),
            };
            proof {
                lemma_bits_value_bound(data, p1, 4);
            }
            let val = (v4 + 1) as u8;
            return Ok(ExecCode::Width(if val < width { val } else { val + 1 }));
        }
    }
    Ok(exec_value_code16(value, width))
}

/// Decompresses `len` 8-bit samples (IT2.15 when `it215`, IT2.14 otherwise).
pub fn decompress_8bit(buf: &[u8], len: u32, it215: bool) -> (r: Result<Vec<u8>, XmoditsError>)
    ensures
        match decompress8_spec(buf@, len as int, it215) {
            Ok(s) => r is Ok && r->Ok_0@ == s,
            Err(e) => r is Err && r->Err_0@ == e,
        },
{
    let mut remaining: u32 = len;
    let mut dest_buf: Vec<u8> = Vec::new();
    let mut bitreader = BitReader::new(buf);
    let ghost goal = decompress8_spec(buf@, len as int, it215);
    while remaining != 0
        invariant
            goal == decompress8_spec(buf@, len as int, it215),
            bitreader.wf(),
            bitreader.source() == buf@,
            outer8(buf@, bitreader@.block_offset, remaining as int, it215, dest_buf@) == goal,
        decreases remaining,
    {
        let ghost off = bitreader@.block_offset;
        let ghost out0 = dest_buf@;
        match bitreader.read_next_block() {
            Ok(()) => {},
            Err(e) => {
                assert(goal == Err::<Seq<u8>, ErrorView>(e@));
                return Err(e);
            },
        }
        let blklen: u16 = if remaining < 0x8000 {
            remaining as u16
        } else {
            0x8000
        };
        let mut blkpos: u16 = 0;
        let mut width: u8 = 9;
        let mut d1: u8 = 0;
        let mut d2: u8 = 0;
        let ghost data = bitreader@.data;
        let ghost next = bitreader@.block_offset;
        let ghost block_goal = inner8(data, 16, 0, blklen as int, 9, 0, 0, it215, out0);
        assert(data.len() >= 3);
        while blkpos < blklen
            invariant
                bitreader.wf(),
                bitreader.source() == buf@,
                bitreader@.data == data,
                bitreader@.block_offset == next,
                data.len() >= 3,
                bitreader@.pos <= 8 * data.len(),
                blkpos <= blklen,
                inner8(data, bitreader@.pos, blkpos as int, blklen as int, width as int, d1 as int, d2 as int, it215, dest_buf@) == block_goal,
                blklen as int == (if remaining < 0x8000 { remaining as int } else { 0x8000 }),
                goal == decompress8_spec(buf@, len as int, it215),
                match block_goal {
                    Err(e) => goal == Err::<Seq<u8>, ErrorView>(e),
                    Ok((_, o2)) => goal == outer8(buf@, next, remaining - blklen, it215, o2),
                },
            decreases 8 * data.len() - bitreader@.pos,
        {
            let ghost pos = bitreader@.pos;
            proof {
                lemma_code8_advances(data, pos, width as int);
            }
            match read_code8(&mut bitreader, width) {
                Err(e) => {
                    assert(block_goal == Err::<(int, Seq<u8>), ErrorView>(e@));
                    return Err(e);
                },
                Ok(ExecCode::Width(w)) => {
                    width = w;
                },
                Ok(ExecCode::Delta(delta)) => {
                    d1 = ((d1 as u32 + delta) % 256) as u8;
                    d2 = ((d2 as u32 + d1 as u32) % 256) as u8;
                    dest_buf.push(if it215 { d2 } else { d1 });
                    blkpos += 1;
                },
            }
        }
        remaining = remaining - blklen as u32;
    }
    Ok(dest_buf)
}

/// Decompresses `len` 16-bit samples (IT2.15 when `it215`, IT2.14 otherwise)
/// into little-endian bytes.
pub fn decompress_16bit(buf: &[u8], len: u32, it215: bool) -> (r: Result<Vec<u8>, XmoditsError>)
    ensures
        match decompress16_spec(buf@, len as int, it215) {
            Ok(s) => r is Ok && r->Ok_0@ == s,
            Err(e) => r is Err && r->Err_0@ == e,
        },
{
    let mut remaining: u32 = len;
    let mut dest_buf: Vec<u8> = Vec::new();
    let mut bitreader = BitReader::new(buf);
    let ghost goal = decompress16_spec(buf@, len as int, it215);
    while remaining != 0
        invariant
            goal == decompress16_spec(buf@, len as int, it215),
            bitreader.wf(),
            bitreader.source() == buf@,
            outer16(buf@, bitreader@.block_offset, remaining as int, it215, dest_buf@) == goal,
        decreases remaining,
    {
        let ghost off = bitreader@.block_offset;
        let ghost out0 = dest_buf@;
        match bitreader.read_next_block() {
            Ok(()) => {},
            Err(e) => {
                assert(goal == Err::<Seq<u8>, ErrorView>(e@));
                return Err(e);
            },
        }
        let blklen: u16 = if remaining < 0x4000 {
            remaining as u16
        } else {
            0x4000
        };
        let mut blkpos: u16 = 0;
        let mut width: u8 = 17;
        let mut d1: u16 = 0;
        let mut d2: u16 = 0;
        let ghost data = bitreader@.data;
        let ghost next = bitreader@.block_offset;
        let ghost block_goal = inner16(data, 16, 0, blklen as int, 17, 0, 0, it215, out0);
        assert(data.len() >= 3);
        while blkpos < blklen
            invariant
                bitreader.wf(),
                bitreader.source() == buf@,
                bitreader@.data == data,
                bitreader@.block_offset == next,
                data.len() >= 3,
                bitreader@.pos <= 8 * data.len(),
                blkpos <= blklen,
                inner16(data, bitreader@.pos, blkpos as int, blklen as int, width as int, d1 as int, d2 as int, it215, dest_buf@) == block_goal,
                blklen as int == (if remaining < 0x4000 { remaining as int } else { 0x4000 }),
                goal == decompress16_spec(buf@, len as int, it215),
                match block_goal {
                    Err(e) => goal == Err::<Seq<u8>, ErrorView>(e),
                    Ok((_, o2)) => goal == outer16(buf@, next, remaining - blklen, it215, o2),
                },
            decreases 8 * data.len() - bitreader@.pos,
        {
            let ghost pos = bitreader@.pos;
            proof {
                lemma_code16_advances(data, pos, width as int);
            }
            match read_code16(&mut bitreader, width) {
                Err(e) => {
                    assert(block_goal == Err::<(int, Seq<u8>), ErrorView>(e@));
                    return Err(e);
                },
                Ok(ExecCode::Width(w)) => {
                    width = w;
                },
                Ok(ExecCode::Delta(delta)) => {
                    d1 = ((d1 as u32 + delta) % 65536) as u16;
                    d2 = ((d2 as u32 + d1 as u32) % 65536) as u16;
                    let v: u16 = if it215 { d2 } else { d1 };
                    dest_buf.push((v % 256) as u8);
                    dest_buf.push((v / 256) as u8);
                    blkpos += 1;
                },
            }
        }
        remaining = remaining - blklen as u32;
    }
    Ok(dest_buf)
}

/// The samples that `decompress_sample` gives: 16-bit samples as
/// little-endian bytes, 8-bit samples converted by `make_signed_u8`.
pub open spec fn decompress_sample_spec(buf: Seq<u8>, len: int, smp_bits: u8, it215: bool) -> Result<Seq<u8>, ErrorView> {
    if smp_bits == 16 {
        decompress16_spec(buf, len, it215)
    } else {
        match decompress8_spec(buf, len, it215) {
            Ok(s) => Ok(signed_u8_spec(s)),
            Err(e) => Err(e),
        }
    }
}

/// Decompresses `len` samples of `smp_bits` bits (16, or 8 for any other
/// value) compressed with IT2.15 when `it215`, IT2.14 otherwise.
pub fn decompress_sample(buf: &[u8], len: u32, smp_bits: u8, it215: bool) -> (r: Result<Vec<u8>, XmoditsError>)
    ensures
        match decompress_sample_spec(buf@, len as int, smp_bits, it215) {
            Ok(s) => r is Ok && r->Ok_0@ == s,
            Err(e) => r is Err && r->Err_0@ == e,
        },
{
    if smp_bits == 16 {
        decompress_16bit(buf, len, it215)
    } else {
        match decompress_8bit(buf, len, it215) {
            Ok(v) => Ok(make_signed_u8(v.as_slice())),
            Err(e) => Err(e),
        }
    }
}

} // verus!

verus! {

/// Decoding a block of 8-bit samples appends one byte per sample still to
/// decode.
pub proof fn lemma_inner8_len(
    data: Seq<u8>,
    pos: int,
    blkpos: int,
    blklen: int,
    width: int,
    d1: int,
    d2: int,
    it215: bool,
    out: Seq<u8>,
)
    requires
        blkpos <= blklen,
    ensures
        inner8(data, pos, blkpos, blklen, width, d1, d2, it215, out) matches Ok((_, o)) ==> o.len()
            == out.len() + blklen - blkpos,
    decreases 8 * data.len() - pos,
{
    if blkpos < blklen {
        lemma_code8_advances(data, pos, width);
        match code8(data, pos, width) {
            Err(_) => {},
            Ok((p, Code::Width(w))) => {
                lemma_inner8_len(data, p, blkpos, blklen, w, d1, d2, it215, out);
            },
            Ok((p, Code::Delta(delta))) => {
                let n1 = (d1 + delta) % 256;
                let n2 = (d2 + n1) % 256;
                lemma_inner8_len(
                    data,
                    p,
                    blkpos + 1,
                    blklen,
                    width,
                    n1,
                    n2,
                    it215,
                    out.push((if it215 { n2 } else { n1 }) as u8),
                );
            },
        }
    }
}

/// Decoding a block of 16-bit samples appends two bytes per sample still to
/// decode.
pub proof fn lemma_inner16_len(
    data: Seq<u8>,
    pos: int,
    blkpos: int,
    blklen: int,
    width: int,
    d1: int,
    d2: int,
    it215: bool,
    out: Seq<u8>,
)
    requires
        blkpos <= blklen,
    ensures
        inner16(data, pos, blkpos, blklen, width, d1, d2, it215, out) matches Ok((_, o)) ==> o.len()
            == out.len() + 2 * (blklen - blkpos),
    decreases 8 * data.len() - pos,
{
    if blkpos < blklen {
        lemma_code16_advances(data, pos, width);
        match code16(data, pos, width) {
            Err(_) => {},
            Ok((p, Code::Width(w))) => {
                lemma_inner16_len(data, p, blkpos, blklen, w, d1, d2, it215, out);
            },
            Ok((p, Code::Delta(delta))) => {
                let n1 = (d1 + delta) % 65536;
                let n2 = (d2 + n1) % 65536;
                let v = if it215 { n2 } else { n1 };
                lemma_inner16_len(
                    data,
                    p,
                    blkpos + 1,
                    blklen,
                    width,
                    n1,
                    n2,
                    it215,
                    out.push((v % 256) as u8).push((v / 256) as u8),
                );
            },
        }
    }
}

proof fn lemma_outer8_len(buf: Seq<u8>, off: int, len: int, it215: bool, out: Seq<u8>)
    requires
        len >= 0,
    ensures
        outer8(buf, off, len, it215, out) matches Ok(o) ==> o.len() == out.len() + len,
    decreases len,
{
    if len > 0 {
        match next_block(buf, off) {
            Err(_) => {},
            Ok((data, next)) => {
                let blklen = if len < 0x8000 { len } else { 0x8000 };
                lemma_inner8_len(data, 16, 0, blklen, 9, 0, 0, it215, out);
                match inner8(data, 16, 0, blklen, 9, 0, 0, it215, out) {
                    Err(_) => {},
                    Ok((_, out2)) => {
                        lemma_outer8_len(buf, next, len - blklen, it215, out2);
                    },
                }
            },
        }
    }
}

proof fn lemma_outer16_len(buf: Seq<u8>, off: int, len: int, it215: bool, out: Seq<u8>)
    requires
        len >= 0,
    ensures
        outer16(buf, off, len, it215, out) matches Ok(o) ==> o.len() == out.len() + 2 * len,
    decreases len,
{
    if len > 0 {
        match next_block(buf, off) {
            Err(_) => {},
            Ok((data, next)) => {
                let blklen = if len < 0x4000 { len } else { 0x4000 };
                lemma_inner16_len(data, 16, 0, blklen, 17, 0, 0, it215, out);
                match inner16(data, 16, 0, blklen, 17, 0, 0, it215, out) {
                    Err(_) => {},
                    Ok((_, out2)) => {
                        lemma_outer16_len(buf, next, len - blklen, it215, out2);
                    },
                }
            },
        }
    }
}

/// Decompressing `len` samples gives `len` bytes of 8-bit samples, or
/// `2 * len` bytes of 16-bit samples, whenever it succeeds.
pub proof fn law_decompressed_length(buf: Seq<u8>, len: u32, smp_bits: u8, it215: bool)
    ensures
        decompress8_spec(buf, len as int, it215) matches Ok(o) ==> o.len() == len,
        decompress16_spec(buf, len as int, it215) matches Ok(o) ==> o.len() == 2 * len,
        decompress_sample_spec(buf, len as int, smp_bits, it215) matches Ok(o) ==> o.len() == (
        if smp_bits == 16 {
            2 * len
        } else {
            len as int
        }),
{
    lemma_outer8_len(buf, 0, len as int, it215, Seq::empty());
    lemma_outer16_len(buf, 0, len as int, it215, Seq::empty());
}

} // verus!

verus! {

/// Powers of two multiply by adding exponents.
proof fn lemma_two_pow_add(a: nat, c: nat)
    ensures
        two_pow(a + c) == two_pow(a) * two_pow(c),
    decreases c,
{
    if c == 0 {
        assert(two_pow(0) == 1);
        assert(a + c == a);
    } else {
        lemma_two_pow_add(a, (c - 1) as nat);
        assert(a + ((c - 1) as nat) == (a + c - 1) as nat);
        assert(two_pow(a + c) == 2 * two_pow((a + c - 1) as nat));
        assert(two_pow(c) == 2 * two_pow((c - 1) as nat));
        let x = two_pow(a);
        let y = two_pow((c - 1) as nat);
        assert(2 * (x * y) == x * (2 * y)) by (nonlinear_arith);
    }
}

/// The `a + c` bits from `p` on are the `a` bits from `p` on, followed by
/// the `c` bits after them as the more significant part.
proof fn lemma_bits_value_split(data: Seq<u8>, p: int, a: nat, c: nat)
    ensures
        bits_value(data, p, a + c) == bits_value(data, p, a) + two_pow(a) * bits_value(data, p + a, c),
    decreases c,
{
    if c > 0 {
        lemma_bits_value_split(data, p, a, (c - 1) as nat);
        lemma_two_pow_add(a, (c - 1) as nat);
        let b = bit_at(data, p + a + c - 1);
        let x = two_pow(a);
        let y = two_pow((c - 1) as nat);
        let v = bits_value(data, p + a, (c - 1) as nat);
        assert(bits_value(data, p, a + c) == bits_value(data, p, (a + c - 1) as nat) + b * two_pow((a + c - 1) as nat));
        assert(bits_value(data, p + a, c) == v + b * y);
        assert(x * (v + b * y) == x * v + b * (x * y)) by (nonlinear_arith);
    }
}

/// Reading `a` bits and then `c` bits gives what reading `a + c` bits at
/// once gives: the same errors, the same final state, and a value whose
/// low `a` bits are the first read and whose high bits are the second. Each
/// read's value is below 2 to the number of bits read.
pub proof fn law_bit_reads_join(buf: Seq<u8>, st: ReaderView, a: nat, c: nat)
    requires
        st.block_offset >= 0,
    ensures
        read_bits_spec(buf, st, a + c) == match read_bits_spec(buf, st, a) {
            Err(e) => Err(e),
            Ok((st1, x)) => match read_bits_spec(buf, st1, c) {
                Err(e) => Err(e),
                Ok((st2, y)) => Ok((st2, x + two_pow(a) * y)),
            },
        },
        read_bits_spec(buf, st, a) matches Ok((_, x)) ==> 0 <= x < two_pow(a),
        read_bits_spec(buf, st, c) matches Ok((_, y)) ==> 0 <= y < two_pow(c),
{
    let st1: Result<ReaderView, ErrorView> = if st.data.len() == 0 {
        match next_block(buf, st.block_offset) {
            Ok((data, next)) => Ok(ReaderView { block_offset: next, data, pos: 16 }),
            Err(e) => Err(e),
        }
    } else {
        Ok(st)
    };
    match st1 {
        Err(_) => {},
        Ok(s) => {
            assert(s.data.len() > 0);
            lemma_bits_value_split(s.data, s.pos, a, c);
            lemma_bits_value_bound(s.data, s.pos, a);
        },
    }
    let st1c: Result<ReaderView, ErrorView> = if st.data.len() == 0 {
        match next_block(buf, st.block_offset) {
            Ok((data, next)) => Ok(ReaderView { block_offset: next, data, pos: 16 }),
            Err(e) => Err(e),
        }
    } else {
        Ok(st)
    };
    match st1c {
        Err(_) => {},
        Ok(s) => {
            lemma_bits_value_bound(s.data, s.pos, c);
        },
    }
}

} // verus!

verus! {

/// The sum of the samples `v[a..=k]` (zero when `k < a`).
pub open spec fn block_sum(v: Seq<u8>, a: int, k: int) -> int
    decreases k - a + 1,
{
    if k < a {
        0
    } else {
        block_sum(v, a, k - 1) + v[k]
    }
}

/// The second integration that IT2.15 adds to 8-bit samples: each sample is
/// replaced by the sum, modulo 256, of the samples of its 0x8000-sample block
/// up to and including it (the integrator starts from zero in each block).
pub open spec fn it215_integrate8(v: Seq<u8>) -> Seq<u8> {
    Seq::new(v.len(), |k: int| (block_sum(v, k - k % 0x8000, k) % 256) as u8)
}

/// Appending a sample leaves the sums of the samples before it unchanged.
proof fn lemma_block_sum_push(v: Seq<u8>, x: u8, a: int, k: int)
    requires
        0 <= a,
        k < v.len(),
    ensures
        block_sum(v.push(x), a, k) == block_sum(v, a, k),
    decreases k - a + 1,
{
    if k >= a {
        lemma_block_sum_push(v, x, a, k - 1);
    }
}

/// Decoding one block for IT2.15 gives, at every step, the second integral
/// of what decoding it for IT2.14 gives; both fail alike.
proof fn lemma_inner8_it215(
    data: Seq<u8>,
    pos: int,
    blkpos: int,
    blklen: int,
    width: int,
    d1: int,
    d2: int,
    oa: Seq<u8>,
    ob: Seq<u8>,
)
    requires
        0 <= blkpos <= blklen <= 0x8000,
        oa.len() >= blkpos,
        (oa.len() - blkpos) % 0x8000 == 0,
        ob == it215_integrate8(oa),
        d2 == block_sum(oa, oa.len() - blkpos, oa.len() - 1) % 256,
    ensures
        inner8(data, pos, blkpos, blklen, width, d1, d2, true, ob) == match inner8(
            data,
            pos,
            blkpos,
            blklen,
            width,
            d1,
            d2,
            false,
            oa,
        ) {
            Ok((p, o)) => Ok((p, it215_integrate8(o))),
            Err(e) => Err(e),
        },
    decreases 8 * data.len() - pos,
{
    if blkpos < blklen {
        lemma_code8_advances(data, pos, width);
        match code8(data, pos, width) {
            Err(_) => {},
            Ok((p, Code::Width(w))) => {
                lemma_inner8_it215(data, p, blkpos, blklen, w, d1, d2, oa, ob);
            },
            Ok((p, Code::Delta(delta))) => {
                let n1 = (d1 + delta) % 256;
                let n2 = (d2 + n1) % 256;
                let len = oa.len() as int;
                let start = len - blkpos;
                let oa2 = oa.push(n1 as u8);
                let ob2 = ob.push(n2 as u8);
                assert(len % 0x8000 == blkpos) by {
                    lemma_small_mod(blkpos as nat, 0x8000);
                    assert((start + blkpos) % 0x8000 == blkpos) by (nonlinear_arith)
                        requires
                            start % 0x8000 == 0,
                            0 <= blkpos < 0x8000,
                            start >= 0,
                    ;
                }
                lemma_block_sum_push(oa, n1 as u8, start, len - 1);
                assert(block_sum(oa2, start, len) == block_sum(oa, start, len - 1) + n1);
                assert(n2 == block_sum(oa2, start, len) % 256) by {
                    lemma_add_mod_noop(block_sum(oa, start, len - 1), n1, 256);
                    lemma_small_mod(n1 as nat, 256);
                }
                assert forall|k: int| 0 <= k < oa2.len() implies #[trigger] ob2[k] == it215_integrate8(oa2)[k] by {
                    if k < len {
                        lemma_block_sum_push(oa, n1 as u8, k - k % 0x8000, k);
                    }
                }
                assert(ob2 =~= it215_integrate8(oa2));
                lemma_inner8_it215(data, p, blkpos + 1, blklen, width, n1, n2, oa2, ob2);
            },
        }
    }
}

/// Decoding the blocks from `off` on for IT2.15 gives the second integral of
/// what decoding them for IT2.14 gives.
proof fn lemma_outer8_it215(buf: Seq<u8>, off: int, len: int, oa: Seq<u8>, ob: Seq<u8>)
    requires
        len > 0 ==> oa.len() % 0x8000 == 0,
        ob == it215_integrate8(oa),
    ensures
        outer8(buf, off, len, true, ob) == match outer8(buf, off, len, false, oa) {
            Ok(o) => Ok(it215_integrate8(o)),
            Err(e) => Err::<Seq<u8>, ErrorView>(e),
        },
    decreases len,
{
    if len > 0 {
        match next_block(buf, off) {
            Err(_) => {},
            Ok((data, next)) => {
                let blklen = if len < 0x8000 { len } else { 0x8000 };
                lemma_inner8_it215(data, 16, 0, blklen, 9, 0, 0, oa, ob);
                lemma_inner8_len(data, 16, 0, blklen, 9, 0, 0, false, oa);
                match inner8(data, 16, 0, blklen, 9, 0, 0, false, oa) {
                    Err(_) => {},
                    Ok((_, oa2)) => {
                        if len - blklen > 0 {
                            assert(oa2.len() == oa.len() + 0x8000);
                        }
                        lemma_outer8_it215(buf, next, len - blklen, oa2, it215_integrate8(oa2));
                    },
                }
            },
        }
    }
}

/// IT2.15 8-bit samples are IT2.14 ones integrated once more: decompressing
/// a stream as IT2.15 gives, for each sample, the running sum (modulo 256,
/// from zero at the start of each 0x8000-sample block) of what decompressing
/// the same stream as IT2.14 gives up to that sample; where one fails, the
/// other fails with the same error.
pub proof fn law_it215_second_integrator8(buf: Seq<u8>, len: int)
    ensures
        decompress8_spec(buf, len, true) == match decompress8_spec(buf, len, false) {
            Ok(v) => Ok(it215_integrate8(v)),
            Err(e) => Err::<Seq<u8>, ErrorView>(e),
        },
{
    assert(it215_integrate8(Seq::empty()) =~= Seq::<u8>::empty());
    lemma_outer8_it215(buf, 0, len, Seq::empty(), Seq::empty());
}

} // verus!

verus! {

/// The 16-bit sample `j` of little-endian bytes `v`.
pub open spec fn word16(v: Seq<u8>, j: int) -> int {
    v[2 * j] + 256 * v[2 * j + 1]
}

/// The sum of the 16-bit samples `a..=k` of little-endian bytes `v` (zero
/// when `k < a`).
pub open spec fn block_sum16(v: Seq<u8>, a: int, k: int) -> int
    decreases k - a + 1,
{
    if k < a {
        0
    } else {
        block_sum16(v, a, k - 1) + word16(v, k)
    }
}

/// The second integration that IT2.15 adds to 16-bit samples (as
/// little-endian bytes): each sample is replaced by the sum, modulo 65536, of
/// the samples of its 0x4000-sample block up to and including it.
pub open spec fn it215_integrate16(v: Seq<u8>) -> Seq<u8> {
    Seq::new(
        v.len(),
        |i: int|
            {
                let k = i / 2;
                let w = block_sum16(v, k - k % 0x4000, k) % 65536;
                if i % 2 == 0 {
                    (w % 256) as u8
                } else {
                    (w / 256) as u8
                }
            },
    )
}

/// Appending a sample's two bytes leaves the sums of the samples before it
/// unchanged.
proof fn lemma_block_sum16_push(v: Seq<u8>, x: u8, y: u8, a: int, k: int)
    requires
        0 <= a,
        2 * k + 1 < v.len(),
    ensures
        block_sum16(v.push(x).push(y), a, k) == block_sum16(v, a, k),
    decreases k - a + 1,
{
    if k >= a {
        lemma_block_sum16_push(v, x, y, a, k - 1);
    }
}

/// Decoding one 16-bit block for IT2.15 gives, at every step, the second
/// integral of what decoding it for IT2.14 gives; both fail alike.
proof fn lemma_inner16_it215(
    data: Seq<u8>,
    pos: int,
    blkpos: int,
    blklen: int,
    width: int,
    d1: int,
    d2: int,
    oa: Seq<u8>,
    ob: Seq<u8>,
)
    requires
        0 <= blkpos <= blklen <= 0x4000,
        oa.len() % 2 == 0,
        oa.len() >= 2 * blkpos,
        (oa.len() / 2 - blkpos) % 0x4000 == 0,
        ob == it215_integrate16(oa),
        d2 == block_sum16(oa, oa.len() / 2 - blkpos, oa.len() / 2 - 1) % 65536,
    ensures
        inner16(data, pos, blkpos, blklen, width, d1, d2, true, ob) == match inner16(
            data,
            pos,
            blkpos,
            blklen,
            width,
            d1,
            d2,
            false,
            oa,
        ) {
            Ok((p, o)) => Ok((p, it215_integrate16(o))),
            Err(e) => Err(e),
        },
    decreases 8 * data.len() - pos,
{
    if blkpos < blklen {
        lemma_code16_advances(data, pos, width);
        match code16(data, pos, width) {
            Err(_) => {},
            Ok((p, Code::Width(w))) => {
                lemma_inner16_it215(data, p, blkpos, blklen, w, d1, d2, oa, ob);
            },
            Ok((p, Code::Delta(delta))) => {
                let n1 = (d1 + delta) % 65536;
                let n2 = (d2 + n1) % 65536;
                let len = (oa.len() / 2) as int;
                let start = len - blkpos;
                let oa2 = oa.push((n1 % 256) as u8).push((n1 / 256) as u8);
                let ob2 = ob.push((n2 % 256) as u8).push((n2 / 256) as u8);
                assert(len % 0x4000 == blkpos) by {
                    assert((start + blkpos) % 0x4000 == blkpos) by (nonlinear_arith)
                        requires
                            start % 0x4000 == 0,
                            0 <= blkpos < 0x4000,
                            start >= 0,
                    ;
                }
                assert(oa2.len() == 2 * len + 2);
                assert(oa2.len() / 2 - (blkpos + 1) == start);
                assert(word16(oa2, len) == n1);
                lemma_block_sum16_push(oa, (n1 % 256) as u8, (n1 / 256) as u8, start, len - 1);
                assert(block_sum16(oa2, start, len) == block_sum16(oa, start, len - 1) + n1);
                assert(n2 == block_sum16(oa2, start, len) % 65536) by {
                    lemma_add_mod_noop(block_sum16(oa, start, len - 1), n1, 65536);
                    lemma_small_mod(n1 as nat, 65536);
                }
                assert forall|i: int| 0 <= i < oa2.len() implies #[trigger] ob2[i] == it215_integrate16(oa2)[i] by {
                    let k = i / 2;
                    if i < 2 * len {
                        assert(k < len);
                        lemma_block_sum16_push(oa, (n1 % 256) as u8, (n1 / 256) as u8, k - k % 0x4000, k);
                    } else {
                        assert(k == len);
                    }
                }
                assert(ob2 =~= it215_integrate16(oa2));
                lemma_inner16_it215(data, p, blkpos + 1, blklen, width, n1, n2, oa2, ob2);
            },
        }
    }
}

/// Decoding the 16-bit blocks from `off` on for IT2.15 gives the second
/// integral of what decoding them for IT2.14 gives.
proof fn lemma_outer16_it215(buf: Seq<u8>, off: int, len: int, oa: Seq<u8>, ob: Seq<u8>)
    requires
        oa.len() % 2 == 0,
        len > 0 ==> (oa.len() / 2) % 0x4000 == 0,
        ob == it215_integrate16(oa),
    ensures
        outer16(buf, off, len, true, ob) == match outer16(buf, off, len, false, oa) {
            Ok(o) => Ok(it215_integrate16(o)),
            Err(e) => Err::<Seq<u8>, ErrorView>(e),
        },
    decreases len,
{
    if len > 0 {
        match next_block(buf, off) {
            Err(_) => {},
            Ok((data, next)) => {
                let blklen = if len < 0x4000 { len } else { 0x4000 };
                lemma_inner16_it215(data, 16, 0, blklen, 17, 0, 0, oa, ob);
                lemma_inner16_len(data, 16, 0, blklen, 17, 0, 0, false, oa);
                match inner16(data, 16, 0, blklen, 17, 0, 0, false, oa) {
                    Err(_) => {},
                    Ok((_, oa2)) => {
                        if len - blklen > 0 {
                            assert(oa2.len() == oa.len() + 0x8000);
                        }
                        lemma_outer16_it215(buf, next, len - blklen, oa2, it215_integrate16(oa2));
                    },
                }
            },
        }
    }
}

/// IT2.15 16-bit samples are IT2.14 ones integrated once more: decompressing
/// a stream as IT2.15 gives, for each sample, the running sum (modulo 65536,
/// from zero at the start of each 0x4000-sample block) of what decompressing
/// the same stream as IT2.14 gives up to that sample; where one fails, the
/// other fails with the same error.
pub proof fn law_it215_second_integrator16(buf: Seq<u8>, len: int)
    ensures
        decompress16_spec(buf, len, true) == match decompress16_spec(buf, len, false) {
            Ok(v) => Ok(it215_integrate16(v)),
            Err(e) => Err::<Seq<u8>, ErrorView>(e),
        },
{
    assert(it215_integrate16(Seq::empty()) =~= Seq::<u8>::empty());
    lemma_outer16_it215(buf, 0, len, Seq::empty(), Seq::empty());
}

} // verus!
