use byteorder::{BigEndian, ByteOrder, LittleEndian};
use vstd::prelude::*;
use vstd::slice::slice_subrange;

verus! {

/// Little-endian 16-bit value of the two bytes of `s` at `off`.
pub open spec fn le16(s: Seq<u8>, off: int) -> int {
    s[off] as int + 256 * (s[off + 1] as int)
}

/// Little-endian 32-bit value of the four bytes of `s` at `off`.
pub open spec fn le32(s: Seq<u8>, off: int) -> int {
    s[off] as int + 256 * (s[off + 1] as int) + 65536 * (s[off + 2] as int) + 16777216 * (
    s[off + 3] as int)
}

/// Big-endian 16-bit value of the two bytes of `s` at `off`.
pub open spec fn be16(s: Seq<u8>, off: int) -> int {
    256 * (s[off] as int) + s[off + 1] as int
}

/// Big-endian 32-bit value of the four bytes of `s` at `off`.
pub open spec fn be32(s: Seq<u8>, off: int) -> int {
    16777216 * (s[off] as int) + 65536 * (s[off + 1] as int) + 256 * (s[off + 2] as int) + s[off + 3] as int
}

/// Calls `byteorder::BigEndian::read_u32`, which reads the first four bytes
/// of its argument as a big-endian `u32` (and panics on fewer than four).
#[verifier::external_body]
fn be_read_u32(b: &[u8]) -> (r: u32)
    requires
        b@.len() >= 4,
    ensures
        r as int == be32(b@, 0),
{
    BigEndian::read_u32(b)
}

/// Calls `byteorder::LittleEndian::read_u16`, which reads the first two bytes
/// of its argument as a little-endian `u16` (and panics on fewer than two).
#[verifier::external_body]
fn le_read_u16(b: &[u8]) -> (r: u16)
    requires
        b@.len() >= 2,
    ensures
        r as int == le16(b@, 0),
{
    LittleEndian::read_u16(b)
}

/// Calls `byteorder::LittleEndian::read_u32`, which reads the first four bytes
/// of its argument as a little-endian `u32` (and panics on fewer than four).
#[verifier::external_body]
fn le_read_u32(b: &[u8]) -> (r: u32)
    requires
        b@.len() >= 4,
    ensures
        r as int == le32(b@, 0),
{
    LittleEndian::read_u32(b)
}

/// Calls `byteorder::BigEndian::read_u16`, which reads the first two bytes
/// of its argument as a big-endian `u16` (and panics on fewer than two).
#[verifier::external_body]
fn be_read_u16(b: &[u8]) -> (r: u16)
    requires
        b@.len() >= 2,
    ensures
        r as int == be16(b@, 0),
{
    BigEndian::read_u16(b)
}

/// The byte at `off`, or `None` past the end.
pub fn read_u8(buf: &[u8], off: usize) -> (r: Option<u8>)
    ensures
        r == (if off < buf@.len() { Some(buf@[off as int]) } else { None::<u8> }),
{
    if off < buf.len() {
        Some(buf[off])
    } else {
        None
    }
}

/// The little-endian `u16` at `off`, or `None` when it does not fit in `buf`.
pub fn read_u16_le(buf: &[u8], off: usize) -> (r: Option<u16>)
    ensures
        r == (if off + 2 <= buf@.len() { Some(le16(buf@, off as int) as u16) } else { None::<u16> }),
{
    if off <= buf.len() && buf.len() - off >= 2 {
        let b = slice_subrange(buf, off, off + 2);
        Some(le_read_u16(b))
    } else {
        None
    }
}

/// The little-endian `u32` at `off`, or `None` when it does not fit in `buf`.
pub fn read_u32_le(buf: &[u8], off: usize) -> (r: Option<u32>)
    ensures
        r == (if off + 4 <= buf@.len() { Some(le32(buf@, off as int) as u32) } else { None::<u32> }),
{
    if off <= buf.len() && buf.len() - off >= 4 {
        let b = slice_subrange(buf, off, off + 4);
        Some(le_read_u32(b))
    } else {
        None
    }
}

/// The big-endian `u32` at `off`, or `None` when it does not fit in `buf`.
pub fn read_u32_be(buf: &[u8], off: usize) -> (r: Option<u32>)
    ensures
        r == (if off + 4 <= buf@.len() { Some(be32(buf@, off as int) as u32) } else { None::<u32> }),
{
    if off <= buf.len() && buf.len() - off >= 4 {
        let b = slice_subrange(buf, off, off + 4);
        Some(be_read_u32(b))
    } else {
        None
    }
}

/// The big-endian `u16` at `off`, or `None` when it does not fit in `buf`.
pub fn read_u16_be(buf: &[u8], off: usize) -> (r: Option<u16>)
    ensures
        r == (if off + 2 <= buf@.len() { Some(be16(buf@, off as int) as u16) } else { None::<u16> }),
{
    if off <= buf.len() && buf.len() - off >= 2 {
        let b = slice_subrange(buf, off, off + 2);
        Some(be_read_u16(b))
    } else {
        None
    }
}

} // verus!

verus! {

/// Calls `String::push`, which appends one character to the string.
#[verifier::external_body]
pub(crate) fn push_char(s: &mut String, c: char)
    ensures
        final(s)@ == old(s)@.push(c),
{
    s.push(c)
}

/// The character that a byte of a text field stands for: printable ASCII
/// bytes (space to `~`) stand for themselves; other bytes (NUL padding,
/// control codes, length prefixes) stand for nothing.
pub open spec fn byte_char(b: u8) -> Option<char> {
    if 32 <= b <= 126 {
        Some(b as char)
    } else {
        None
    }
}

/// The text held by a fixed-size field: its printable ASCII characters, in
/// order.
pub open spec fn field_text(s: Seq<u8>) -> Seq<char> {
    s.filter_map(|b: u8| byte_char(b))
}

/// The text of the `len`-byte field at `off`, or `None` when the field does
/// not fit in `buf`.
pub fn read_string(buf: &[u8], off: usize, len: usize) -> (r: Option<String>)
    ensures
        off + len <= buf@.len() ==> r is Some && r->0@ == field_text(buf@.subrange(off as int, off + len)),
        off + len > buf@.len() ==> r is None,
{
    if off > buf.len() || buf.len() - off < len {
        return None;
    }
    let field = slice_subrange(buf, off, off + len);
    let ghost f = field@;
    let mut out = String::new();
    let mut i: usize = 0;
    assert(f.take(0) =~= Seq::<u8>::empty());
    while i < len
        invariant
            f == field@,
            f.len() == len,
            i <= len,
            out@ == field_text(f.take(i as int)),
        decreases len - i,
    {
        let b = field[i];
        proof {
            f.lemma_filter_map_take_succ(|b: u8| byte_char(b), i as int);
        }
        if 32 <= b && b <= 126 {
            push_char(&mut out, b as char);
        }
        i += 1;
    }
    assert(f.take(len as int) =~= f);
    Some(out)
}

} // verus!

verus! {

/// The byte at `off`, if there is one.
pub open spec fn u8_at(s: Seq<u8>, off: int) -> Option<u8> {
    if 0 <= off < s.len() {
        Some(s[off])
    } else {
        None
    }
}

/// The little-endian `u16` at `off`, if it fits.
pub open spec fn u16le_at(s: Seq<u8>, off: int) -> Option<u16> {
    if 0 <= off && off + 2 <= s.len() {
        Some(le16(s, off) as u16)
    } else {
        None
    }
}

/// The little-endian `u32` at `off`, if it fits.
pub open spec fn u32le_at(s: Seq<u8>, off: int) -> Option<u32> {
    if 0 <= off && off + 4 <= s.len() {
        Some(le32(s, off) as u32)
    } else {
        None
    }
}

/// The big-endian `u16` at `off`, if it fits.
pub open spec fn u16be_at(s: Seq<u8>, off: int) -> Option<u16> {
    if 0 <= off && off + 2 <= s.len() {
        Some(be16(s, off) as u16)
    } else {
        None
    }
}

/// The text of the `len`-byte field at `off`, if it fits.
pub open spec fn text_at(s: Seq<u8>, off: int, len: int) -> Option<Seq<char>> {
    if 0 <= off && 0 <= len && off + len <= s.len() {
        Some(field_text(s.subrange(off, off + len)))
    } else {
        None
    }
}

/// Whether the bytes of `pat` stand at `off`.
pub open spec fn bytes_at(s: Seq<u8>, off: int, pat: Seq<u8>) -> bool {
    0 <= off && off + pat.len() <= s.len() && s.subrange(off, off + pat.len()) == pat
}

/// The byte at `base + add`.
pub fn read_u8_at(buf: &[u8], base: usize, add: usize) -> (r: Option<u8>)
    ensures
        r == u8_at(buf@, base + add),
{
    let _l = buf.len();
    match base.checked_add(add) {
        Some(off) => read_u8(buf, off),
        None => None,
    }
}

/// The little-endian `u16` at `base + add`.
pub fn read_u16_le_at(buf: &[u8], base: usize, add: usize) -> (r: Option<u16>)
    ensures
        r == u16le_at(buf@, base + add),
{
    let _l = buf.len();
    match base.checked_add(add) {
        Some(off) => read_u16_le(buf, off),
        None => None,
    }
}

/// The little-endian `u32` at `base + add`.
pub fn read_u32_le_at(buf: &[u8], base: usize, add: usize) -> (r: Option<u32>)
    ensures
        r == u32le_at(buf@, base + add),
{
    let _l = buf.len();
    match base.checked_add(add) {
        Some(off) => read_u32_le(buf, off),
        None => None,
    }
}

/// The big-endian `u16` at `base + add`.
pub fn read_u16_be_at(buf: &[u8], base: usize, add: usize) -> (r: Option<u16>)
    ensures
        r == u16be_at(buf@, base + add),
{
    let _l = buf.len();
    match base.checked_add(add) {
        Some(off) => read_u16_be(buf, off),
        None => None,
    }
}

/// The text of the `len`-byte field at `base + add`.
pub fn read_string_at(buf: &[u8], base: usize, add: usize, len: usize) -> (r: Option<String>)
    ensures
        match text_at(buf@, base + add, len as int) {
            Some(t) => r is Some && r->0@ == t,
            None => r is None,
        },
{
    let _l = buf.len();
    match base.checked_add(add) {
        Some(off) => read_string(buf, off, len),
        None => None,
    }
}

/// Whether the bytes of `pat` stand at `off` in `buf`.
pub fn matches_at(buf: &[u8], off: usize, pat: &[u8]) -> (r: bool)
    ensures
        r == bytes_at(buf@, off as int, pat@),
{
    if off > buf.len() || buf.len() - off < pat.len() {
        return false;
    }
    let _l = buf.len();
    let mut i: usize = 0;
    while i < pat.len()
        invariant
            off + pat@.len() <= buf@.len(),
            buf@.len() <= usize::MAX,
            i <= pat@.len(),
            forall|j: int| 0 <= j < i ==> buf@[off + j] == pat@[j],
        decreases pat@.len() - i,
    {
        if buf[off + i] != pat[i] {
            assert(buf@.subrange(off as int, off + pat@.len())[i as int] != pat@[i as int]);
            return false;
        }
        i += 1;
    }
    assert(buf@.subrange(off as int, off + pat@.len()) =~= pat@);
    true
}

} // verus!
