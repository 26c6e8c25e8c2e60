//! Scream Tracker 3 modules.
use crate::bytes::{
    bytes_at, field_text, le16, le32, matches_at, read_string, read_string_at, read_u16_le, read_u16_le_at, read_u32_le_at,
    read_u8, read_u8_at, text_at, u16le_at, u32le_at, u8_at,
};
use crate::error::{err_view, oob_view, ErrorKind, ErrorView, XmoditsError};
use crate::sample::{samples_view, LoopType, ReadStep, SampleModel, SampleStep, TrackerSample};
use crate::signed::{make_signed_u16, signed_u16_spec};
use vstd::prelude::*;
use vstd::slice::{slice_subrange, slice_to_vec};
use vstd::string::StringExecFns;

verus! {

const S3M_HEADER_ID: [u8; 4] = [0x53, 0x43, 0x52, 0x4D];  // SCRM

const S3M_MAGIC_NUMBER: u8 = 0x10;

const SMP_MASK_BITS: u8 = 0b0000_0100;

const INS_HEAD_LENGTH: usize = 13;

/// The error for a file that is not a Scream Tracker 3 module.
pub open spec fn s3m_invalid() -> ErrorView {
    err_view(ErrorKind::InvalidModule, "File is not a valid Scream Tracker Module"@)
}

/// The checks a Scream Tracker 3 module must pass.
pub open spec fn s3m_validate(s: Seq<u8>) -> Result<(), ErrorView> {
    if s.len() < 0x60 || s[0x1d] != 0x10 || !bytes_at(s, 0x2c, seq![0x53u8, 0x43, 0x52, 0x4D]) {
        Err(s3m_invalid())
    } else {
        Ok(())
    }
}

/// Bits per sample that S3M sample flags give: 16 when bit 2 is set, 8 otherwise.
pub open spec fn s3m_bits(flags: u8) -> u8 {
    if flags & 4u8 == 4u8 {
        16
    } else {
        8
    }
}

/// The instrument header offsets from number `i` on, appended to `acc`; the
/// list of `n` parapointers starts at `list`. An offset past 0xFFFF, or a
/// parapointer past the end, is out of bounds.
pub open spec fn s3m_ptrs(s: Seq<u8>, list: int, n: int, i: int, acc: Seq<usize>) -> Result<Seq<usize>, ErrorView>
    decreases n - i,
{
    if i >= n {
        Ok(acc)
    } else if list + 2 * i > 0xffff {
        Err(oob_view())
    } else {
        match u16le_at(s, list + 2 * i) {
            None => Err(oob_view()),
            Some(p) => s3m_ptrs(s, list, n, i + 1, acc.push((p as int * 16) as usize)),
        }
    }
}

/// Reading the instrument at `ins`, number `i`: instruments that are not PCM
/// samples, and empty samples, are skipped; the list stops at the first
/// sample whose data runs past the end (the end taken as a `u32`).
pub open spec fn s3m_step(s: Seq<u8>, ins: int, i: int) -> Result<SampleStep, ErrorView> {
    match u8_at(s, ins) {
        None => Err(oob_view()),
        Some(kind) => if kind != 1 {
            Ok(SampleStep::Skip)
        } else {
            let off = ins + 13;
            match u32le_at(s, off + 3) {
                None => Err(oob_view()),
                Some(raw_len) => {
                    let len = raw_len as int % 65536;
                    if len == 0 {
                        Ok(SampleStep::Skip)
                    } else {
                        match (u8_at(s, off), u16le_at(s, off + 1), u8_at(s, off + 0x12)) {
                            (Some(_hi), Some(lo), Some(flags)) => {
                                let ptr = lo as int * 16;
                                let bits = s3m_bits(flags);
                                let blen = len * (bits / 8);
                                if ptr + blen > (s.len() as u32) as int {
                                    Ok(SampleStep::Stop)
                                } else {
                                    match (
                                        text_at(s, off + 0x23, 28),
                                        u32le_at(s, off + 0x13),
                                        u32le_at(s, off + 0x07),
                                        u32le_at(s, off + 0x0b),
                                    ) {
                                        (Some(name), Some(rate), Some(loop_start), Some(loop_end)) => Ok(
                                            SampleStep::Take(
                                                SampleModel {
                                                    name,
                                                    filename: name,
                                                    raw_index: i as usize,
                                                    len: blen as usize,
                                                    ptr: ptr as usize,
                                                    flags: 0,
                                                    bits,
                                                    rate,
                                                    loop_start,
                                                    loop_end,
                                                    is_stereo: false,
                                                    is_compressed: false,
                                                    is_interleaved: false,
                                                    is_readable: false,
                                                    loop_type: LoopType::Off,
                                                },
                                            ),
                                        ),
                                        _ => Err(oob_view()),
                                    }
                                }
                            },
                            _ => Err(oob_view()),
                        }
                    }
                },
            }
        },
    }
}

/// The samples of the instruments at `ptrs`, from number `i` on, appended to
/// `acc`.
pub open spec fn s3m_samples(s: Seq<u8>, ptrs: Seq<usize>, i: int, acc: Seq<SampleModel>) -> Result<Seq<SampleModel>, ErrorView>
    decreases ptrs.len() - i,
{
    if i < 0 || i >= ptrs.len() {
        Ok(acc)
    } else {
        match s3m_step(s, ptrs[i] as int, i) {
            Err(e) => Err(e),
            Ok(SampleStep::Skip) => s3m_samples(s, ptrs, i + 1, acc),
            Ok(SampleStep::Stop) => Ok(acc),
            Ok(SampleStep::Take(m)) => s3m_samples(s, ptrs, i + 1, acc.push(m)),
        }
    }
}

/// A Scream Tracker 3 module as the contracts see it.
pub struct S3mModel {
    pub title: Seq<char>,
    pub buf: Seq<u8>,
    pub samples: Seq<SampleModel>,
}

/// Reading a Scream Tracker 3 module from its bytes, without the header checks.
pub open spec fn s3m_load_unchecked(s: Seq<u8>) -> Result<S3mModel, ErrorView> {
    match (text_at(s, 0, 28), u16le_at(s, 0x20), u16le_at(s, 0x22)) {
        (Some(title), Some(ord_count), Some(ins_count)) => {
            let list = 0x60 + ord_count as int;
            if list > 0xffff {
                Err(oob_view())
            } else {
                match s3m_ptrs(s, list, ins_count as int, 0, Seq::empty()) {
                    Err(e) => Err(e),
                    Ok(ptrs) => match s3m_samples(s, ptrs, 0, Seq::empty()) {
                        Err(e) => Err(e),
                        Ok(samples) => Ok(S3mModel { title, buf: s, samples }),
                    },
                }
            }
        },
        _ => Err(oob_view()),
    }
}

/// Reading a Scream Tracker 3 module from its bytes.
pub open spec fn s3m_load(s: Seq<u8>) -> Result<S3mModel, ErrorView> {
    match s3m_validate(s) {
        Err(e) => Err(e),
        Ok(()) => s3m_load_unchecked(s),
    }
}

/// The PCM data of sample `index`: 8-bit samples as stored, 16-bit samples
/// converted by `make_signed_u16`.
pub open spec fn s3m_pcm(m: S3mModel, index: int) -> Result<Seq<u8>, ErrorView> {
    let smp = m.samples[index];
    if smp.ptr + smp.len > m.buf.len() {
        Err(oob_view())
    } else if smp.bits == 8 {
        Ok(m.buf.subrange(smp.ptr as int, smp.ptr + smp.len))
    } else {
        Ok(signed_u16_spec(m.buf.subrange(smp.ptr as int, smp.ptr + smp.len)))
    }
}

/// A Scream Tracker 3 module.
pub struct S3MFile {
    buf: Vec<u8>,
    title: String,
    smp_data: Vec<TrackerSample>,
}

impl View for S3MFile {
    type V = S3mModel;

    closed spec fn view(&self) -> S3mModel {
        S3mModel { title: self.title@, buf: self.buf@, samples: samples_view(self.smp_data@) }
    }
}

impl S3MFile {
    /// Checks the header of a Scream Tracker 3 module.
    pub fn validate(buf: &[u8]) -> (r: Result<(), XmoditsError>)
        ensures
            match s3m_validate(buf@) {
                Ok(()) => r is Ok,
                Err(e) => r is Err && r->Err_0@ == e,
            },
    {
        if buf.len() < 0x0060 || buf[0x001d] != S3M_MAGIC_NUMBER || !matches_at(buf, 0x002c, &S3M_HEADER_ID) {
            return Err(XmoditsError::invalid("File is not a valid Scream Tracker Module"));
        }
        Ok(())
    }

    /// Checks the header, then reads the module.
    pub fn load_from_buf(buf: Vec<u8>) -> (r: Result<S3MFile, XmoditsError>)
        ensures
            match s3m_load(buf@) {
                Ok(m) => r is Ok && r->Ok_0@ == m,
                Err(e) => r is Err && r->Err_0@ == e,
            },
    {
        match Self::validate(buf.as_slice()) {
            Ok(()) => {},
            Err(e) => return Err(e),
        }
        Self::load_from_buf_unchecked(buf)
    }

    /// Reads the module: its title, its instrument parapointers and the
    /// samples they point to.
    pub fn load_from_buf_unchecked(buf: Vec<u8>) -> (r: Result<S3MFile, XmoditsError>)
        ensures
            match s3m_load_unchecked(buf@) {
                Ok(m) => r is Ok && r->Ok_0@ == m,
                Err(e) => r is Err && r->Err_0@ == e,
            },
    {
        let b = buf.as_slice();
        let title: String = match read_string(b, 0x0000, 28) {
            Some(t) => t,
            None => return Err(XmoditsError::OutOfBounds),
        };
        let ord_count: u16 = match read_u16_le(b, 0x0020) {
            Some(v) => v,
            None => return Err(XmoditsError::OutOfBounds),
        };
        let ins_count: u16 = match read_u16_le(b, 0x0022) {
            Some(v) => v,
            None => return Err(XmoditsError::OutOfBounds),
        };
        let ins_ptr_list: u16 = match 0x0060u16.checked_add(ord_count) {
            Some(v) => v,
            None => return Err(XmoditsError::OutOfBounds),
        };
        let mut ins_ptrs: Vec<usize> = Vec::with_capacity(ins_count as usize);
        let mut i: u16 = 0;
        while i < ins_count
            invariant
                b@ == buf@,
                i <= ins_count,
                text_at(b@, 0, 28) is Some,
                u16le_at(b@, 0x20) == Some(ord_count),
                u16le_at(b@, 0x22) == Some(ins_count),
                ins_ptr_list as int == 0x60 + ord_count as int,
                s3m_ptrs(b@, ins_ptr_list as int, ins_count as int, i as int, ins_ptrs@) == s3m_ptrs(
                    b@,
                    ins_ptr_list as int,
                    ins_count as int,
                    0,
                    Seq::empty(),
                ),
            decreases ins_count - i,
        {
            let index: u16 = match i.checked_mul(2) {
                None => return Err(XmoditsError::OutOfBounds),
                Some(x) => match ins_ptr_list.checked_add(x) {
                    None => return Err(XmoditsError::OutOfBounds),
                    Some(y) => y,
                },
            };
            // convert parameter to byte-level offset by << 4
            match read_u16_le(b, index as usize) {
                None => return Err(XmoditsError::OutOfBounds),
                Some(p) => ins_ptrs.push((p as usize) * 16),
            }
            i += 1;
        }
        let smp_data = match build_samples(b, &ins_ptrs) {
            Ok(d) => d,
            Err(e) => return Err(e),
        };
        Ok(S3MFile { title, smp_data, buf })
    }

    /// The PCM data of sample `index`, ready for a WAV file.
    pub fn pcm(&self, index: usize) -> (r: Result<Vec<u8>, XmoditsError>)
        requires
            index < self@.samples.len(),
        ensures
            match s3m_pcm(self@, index as int) {
                Ok(s) => r is Ok && r->Ok_0@ == s,
                Err(e) => r is Err && r->Err_0@ == e,
            },
    {
        let smp = &self.smp_data[index];
        assert(smp@ == self@.samples[index as int]);
        if smp.ptr > self.buf.len() || self.buf.len() - smp.ptr < smp.len {
            return Err(XmoditsError::OutOfBounds);
        }
        let raw = slice_subrange(self.buf.as_slice(), smp.ptr, smp.ptr + smp.len);
        if smp.bits == 8 {
            Ok(slice_to_vec(raw))
        } else {
            Ok(make_signed_u16(raw))
        }
    }

    /// Number of samples the module contains.
    pub fn number_of_samples(&self) -> (r: usize)
        ensures
            r == self@.samples.len(),
    {
        self.smp_data.len()
    }

    /// Name of the module.
    pub fn module_name(&self) -> (r: &str)
        ensures
            r@ == self@.title,
    {
        self.title.as_str()
    }

    /// The samples the module lists.
    pub fn list_sample_data(&self) -> (r: &[TrackerSample])
        ensures
            samples_view(r@) == self@.samples,
    {
        self.smp_data.as_slice()
    }

    /// Name of the format.
    pub fn format(&self) -> (r: &'static str)
        ensures
            r@ == "Scream Tracker"@,
    {
        "Scream Tracker"
    }
}

fn build_samples(buf: &[u8], ins_ptr: &Vec<usize>) -> (r: Result<Vec<TrackerSample>, XmoditsError>)
    ensures
        match s3m_samples(buf@, ins_ptr@, 0, Seq::empty()) {
            Ok(v) => r is Ok && samples_view(r->Ok_0@) == v,
            Err(e) => r is Err && r->Err_0@ == e,
        },
{
    let mut samples: Vec<TrackerSample> = Vec::with_capacity(ins_ptr.len());
    let ghost goal = s3m_samples(buf@, ins_ptr@, 0, Seq::empty());
    let mut index: usize = 0;
    assert(samples_view(samples@) =~= Seq::<SampleModel>::empty());
    while index < ins_ptr.len()
        invariant
            index <= ins_ptr@.len(),
            goal == s3m_samples(buf@, ins_ptr@, 0, Seq::empty()),
            s3m_samples(buf@, ins_ptr@, index as int, samples_view(samples@)) == goal,
        decreases ins_ptr@.len() - index,
    {
        match read_sample(buf, ins_ptr[index], index) {
            Err(e) => return Err(e),
            Ok(ReadStep::Skip) => {},
            Ok(ReadStep::Stop) => return Ok(samples),
            Ok(ReadStep::Take(t)) => {
                let ghost before = samples_view(samples@);
                samples.push(t);
                assert(samples_view(samples@) =~= before.push(samples@.last()@));
            },
        }
        index += 1;
    }
    Ok(samples)
}

/// Reads the instrument at `ins`, number `index`.
fn read_sample(buf: &[u8], ins: usize, index: usize) -> (r: Result<ReadStep, XmoditsError>)
    ensures
        match s3m_step(buf@, ins as int, index as int) {
            Ok(st) => r is Ok && r->Ok_0@ == st,
            Err(e) => r is Err && r->Err_0@ == e,
        },
{
    let _l = buf.len();
    // if it's not a PCM instrument, skip
    match read_u8(buf, ins) {
        None => return Err(XmoditsError::OutOfBounds),
        Some(kind) => if kind != 0x1 {
            return Ok(ReadStep::Skip);
        },
    }
    // skip instrument header (13 bytes)
    let offset: usize = match ins.checked_add(INS_HEAD_LENGTH) {
        Some(o) => o,
        None => return Err(XmoditsError::OutOfBounds),
    };
    let len: u32 = match read_u32_le_at(buf, offset, 0x0003) {
        Some(l) => l & 0xffff,
        None => return Err(XmoditsError::OutOfBounds),
    };
    proof {
        let l = u32le_at(buf@, offset + 3)->0;
        assert(l & 0xffffu32 == l % 65536) by (bit_vector);
    }
    if len == 0 {
        return Ok(ReadStep::Skip);
    }
    let _hi_ptr: u8 = match read_u8_at(buf, offset, 0) {
        Some(h) => h,
        None => return Err(XmoditsError::OutOfBounds),
    };
    let lo_ptr: u16 = match read_u16_le_at(buf, offset, 0x0001) {
        Some(l) => l,
        None => return Err(XmoditsError::OutOfBounds),
    };
    // The high part of the pointer, a byte shifted right by 16, is always zero.
    let ptr: u32 = (lo_ptr as u32) * 16;
    let flags: u8 = match read_u8_at(buf, offset, 0x0012) {
        Some(f) => f,
        None => return Err(XmoditsError::OutOfBounds),
    };
    proof {
        let f = flags;
        assert(((f & 4u8) >> 2u8 == 1u8) == (f & 4u8 == 4u8)) by (bit_vector);
    }
    let bits: u8 = if (flags & SMP_MASK_BITS) >> 2 == 1 {
        16
    } else {
        8
    };
    let len: u32 = len * (bits / 8) as u32;
    if ptr + len > buf.len() as u32 {
        // break out of loop if we get a funky offset
        return Ok(ReadStep::Stop);
    }
    let name: String = match read_string_at(buf, offset, 0x0023, 28) {
        Some(n) => n,
        None => return Err(XmoditsError::OutOfBounds),
    };
    let rate: u32 = match read_u32_le_at(buf, offset, 0x0013) {
        Some(r) => r,
        None => return Err(XmoditsError::OutOfBounds),
    };
    let loop_start: u32 = match read_u32_le_at(buf, offset, 0x0007) {
        Some(r) => r,
        None => return Err(XmoditsError::OutOfBounds),
    };
    let loop_end: u32 = match read_u32_le_at(buf, offset, 0x000b) {
        Some(r) => r,
        None => return Err(XmoditsError::OutOfBounds),
    };
    Ok(
        ReadStep::Take(
            TrackerSample {
                filename: name.clone(),
                name,
                raw_index: index,
                len: len as usize,
                ptr: ptr as usize,
                flags: 0,
                bits,
                rate,
                loop_start,
                loop_end,
                is_stereo: false,
                is_compressed: false,
                is_interleaved: false,
                is_readable: false,
                loop_type: LoopType::Off,
            },
        ),
    )
}

} // verus!

verus! {

/// The samples listed from instrument `i` on keep the property that each
/// one's data lies inside the module, when the samples before do.
proof fn lemma_s3m_samples_inside(s: Seq<u8>, ptrs: Seq<usize>, i: int, acc: Seq<SampleModel>)
    requires
        s.len() <= usize::MAX,
        forall|k: int| 0 <= k < acc.len() ==> acc[k].ptr + acc[k].len <= s.len(),
    ensures
        s3m_samples(s, ptrs, i, acc) matches Ok(v) ==> forall|k: int|
            0 <= k < v.len() ==> v[k].ptr + v[k].len <= s.len(),
    decreases ptrs.len() - i,
{
    if 0 <= i < ptrs.len() {
        let n: usize = s.len() as usize;
        assert((n as u32) as usize <= n) by (bit_vector);
        match s3m_step(s, ptrs[i] as int, i) {
            Err(_) => {},
            Ok(SampleStep::Skip) => {
                lemma_s3m_samples_inside(s, ptrs, i + 1, acc);
            },
            Ok(SampleStep::Stop) => {},
            Ok(SampleStep::Take(m)) => {
                lemma_s3m_samples_inside(s, ptrs, i + 1, acc.push(m));
            },
        }
    }
}

/// Every sample a Scream Tracker 3 module lists can be read: its data lies
/// inside the module, so asking for its PCM data succeeds.
pub proof fn law_s3m_samples_readable(s: Seq<u8>)
    requires
        s.len() <= usize::MAX,
    ensures
        s3m_load(s) matches Ok(m) ==> forall|i: int| 0 <= i < m.samples.len() ==> #[trigger] s3m_pcm(m, i) is Ok,
{
    if s3m_load(s) is Ok && s3m_validate(s) is Ok {
        match (text_at(s, 0, 28), u16le_at(s, 0x20), u16le_at(s, 0x22)) {
            (Some(title), Some(ord_count), Some(ins_count)) => {
                let list = 0x60 + ord_count as int;
                match s3m_ptrs(s, list, ins_count as int, 0, Seq::empty()) {
                    Ok(ptrs) => {
                        lemma_s3m_samples_inside(s, ptrs, 0, Seq::empty());
                    },
                    Err(_) => {},
                }
            },
            _ => {},
        }
    }
}

} // verus!

verus! {

/// Whether the instrument at `p` holds a sample: it is a PCM instrument
/// (type byte 1) with a non-zero length.
pub open spec fn s3m_holds_sample(s: Seq<u8>, p: int) -> bool {
    s[p] == 1 && le32(s, p + 16) % 65536 != 0
}

/// Whether the sample data of the instrument at `p` ends inside the module
/// (its length is in samples, two bytes each for 16-bit samples).
pub open spec fn s3m_data_fits(s: Seq<u8>, p: int) -> bool {
    16 * le16(s, p + 14) + (le32(s, p + 16) % 65536) * (s3m_bits(s[p + 31]) / 8) <= (s.len() as u32) as int
}

/// Whether sample `m` is the one the PCM instrument at `p` describes: its
/// name, where its data starts (the parapointer at byte 14, in 16-byte
/// units), its length in bytes (the low 16 bits of the length at byte 16,
/// in samples of the width flag bit 2 gives) and its sample rate.
#[verifier::opaque]
pub open spec fn s3m_sample_from(s: Seq<u8>, p: int, m: SampleModel) -> bool {
    &&& m.name == field_text(s.subrange(p + 0x30, p + 0x4c))
    &&& m.ptr == 16 * le16(s, p + 14)
    &&& m.len == (le32(s, p + 16) % 65536) * (s3m_bits(s[p + 31]) / 8)
    &&& m.rate == le32(s, p + 0x20)
}

/// The instrument offsets read from the parapointer list.
proof fn lemma_s3m_ptrs(s: Seq<u8>, list: int, n: int, i: int, acc: Seq<usize>)
    requires
        0 <= i <= n,
        acc.len() == i,
    ensures
        s3m_ptrs(s, list, n, i, acc) matches Ok(v) ==> {
            &&& v.len() == n
            &&& v.subrange(0, i) == acc
            &&& forall|k: int| i <= k < n ==> #[trigger] v[k] as int == 16 * le16(s, list + 2 * k)
        },
    decreases n - i,
{
    if i < n {
        if list + 2 * i <= 0xffff {
            match u16le_at(s, list + 2 * i) {
                None => {},
                Some(p) => {
                    lemma_s3m_ptrs(s, list, n, i + 1, acc.push((p as int * 16) as usize));
                    match s3m_ptrs(s, list, n, i + 1, acc.push((p as int * 16) as usize)) {
                        Ok(v) => {
                            assert(v[i] == v.subrange(0, i + 1)[i]);
                            assert(v.subrange(0, i) =~= v.subrange(0, i + 1).subrange(0, i));
                            assert(acc.push((p as int * 16) as usize).subrange(0, i) =~= acc);
                        },
                        Err(_) => {},
                    }
                },
            }
        }
    } else {
        assert(acc.subrange(0, i) =~= acc);
    }
}

/// A sample taken from the instrument at `p` is the one its header describes.
proof fn lemma_s3m_step_take(s: Seq<u8>, p: int, i: int)
    ensures
        s3m_step(s, p, i) matches Ok(SampleStep::Take(m)) ==> s3m_sample_from(s, p, m),
{
    reveal(s3m_sample_from);
}

/// The samples listed from instrument `i` on extend `acc`: each comes from
/// a later PCM instrument, in order, and every instrument that holds a
/// sample is listed as long as no instrument before it (from `i` on) holds
/// a sample whose data runs past the end.
#[verifier::spinoff_prover]
#[verifier::rlimit(40)]
proof fn lemma_s3m_samples_listed(s: Seq<u8>, ptrs: Seq<usize>, i: int, acc: Seq<SampleModel>)
    requires
        0 <= i <= ptrs.len() <= 0x10000,
    ensures
        s3m_samples(s, ptrs, i, acc) matches Ok(v) ==> {
            &&& acc.len() <= v.len()
            &&& v.subrange(0, acc.len() as int) == acc
            &&& forall|k: int|
                acc.len() <= k < v.len() ==> i <= #[trigger] v[k].raw_index < ptrs.len() && s[ptrs[v[k].raw_index as int] as int]
                    == 1 && s3m_sample_from(s, ptrs[v[k].raw_index as int] as int, v[k])
            &&& forall|k: int| acc.len() <= k < v.len() - 1 ==> #[trigger] v[k].raw_index < v[k + 1].raw_index
            &&& forall|j: int|
                i <= j < ptrs.len() && s3m_holds_sample(s, ptrs[j] as int) && (forall|l: int|
                    i <= l <= j && #[trigger] s3m_holds_sample(s, ptrs[l] as int) ==> s3m_data_fits(
                        s,
                        ptrs[l] as int,
                    )) ==> exists|k: int| acc.len() <= k < v.len() && #[trigger] v[k].raw_index == j
        },
    decreases ptrs.len() - i,
{
    if i < ptrs.len() {
        let p = ptrs[i] as int;
        lemma_s3m_samples_listed(s, ptrs, i + 1, acc);
        match s3m_step(s, p, i) {
            Err(_) => {},
            Ok(SampleStep::Skip) => {
                match s3m_samples(s, ptrs, i + 1, acc) {
                    Ok(v) => {
                        assert forall|j: int|
                            i <= j < ptrs.len() && s3m_holds_sample(s, ptrs[j] as int) && (forall|l: int|
                                i <= l <= j && #[trigger] s3m_holds_sample(s, ptrs[l] as int) ==> s3m_data_fits(
                                    s,
                                    ptrs[l] as int,
                                )) implies exists|k: int| acc.len() <= k < v.len() && #[trigger] v[k].raw_index == j by {
                            if j == i {
                                assert(!s3m_holds_sample(s, p));
                            }
                        }
                    },
                    Err(_) => {},
                }
            },
            Ok(SampleStep::Stop) => {
                assert(acc.subrange(0, acc.len() as int) =~= acc);
                assert(s3m_holds_sample(s, p) && !s3m_data_fits(s, p));
            },
            Ok(SampleStep::Take(m)) => {
                lemma_s3m_step_take(s, p, i);
                lemma_s3m_samples_listed(s, ptrs, i + 1, acc.push(m));
                match s3m_samples(s, ptrs, i + 1, acc.push(m)) {
                    Ok(v) => {
                        let a = acc.len() as int;
                        assert(v[a] == v.subrange(0, a + 1)[a]);
                        assert(v[a] == m);
                        assert(v.subrange(0, a) =~= v.subrange(0, a + 1).subrange(0, a));
                        assert(acc.push(m).subrange(0, a) =~= acc);
                        assert forall|k: int| a <= k < v.len() - 1 implies #[trigger] v[k].raw_index < v[k
                            + 1].raw_index by {
                            if k == a {
                                assert(a + 1 <= k + 1);
                            }
                        }
                        assert forall|j: int|
                            i <= j < ptrs.len() && s3m_holds_sample(s, ptrs[j] as int) && (forall|l: int|
                                i <= l <= j && #[trigger] s3m_holds_sample(s, ptrs[l] as int) ==> s3m_data_fits(
                                    s,
                                    ptrs[l] as int,
                                )) implies exists|k: int| a <= k < v.len() && #[trigger] v[k].raw_index == j by {
                            if j == i {
                                assert(v[a].raw_index == j);
                            } else {
                                assert(forall|l: int|
                                    i + 1 <= l <= j && #[trigger] s3m_holds_sample(s, ptrs[l] as int)
                                        ==> s3m_data_fits(s, ptrs[l] as int));
                            }
                        }
                    },
                    Err(_) => {},
                }
            },
        }
    } else {
        assert(acc.subrange(0, acc.len() as int) =~= acc);
    }
}

/// The offset of instrument `i`, as the parapointer list after the order
/// list gives it.
pub open spec fn s3m_ins_offset(s: Seq<u8>, i: int) -> int {
    16 * le16(s, 0x60 + le16(s, 0x20) + 2 * i)
}

/// Which instruments of a Scream Tracker 3 module give samples: every
/// listed sample comes from a PCM instrument (type byte 1) whose offset the
/// parapointer list gives for its index, and is the sample that instrument
/// header describes (name, data offset, length, rate); the samples come in the order of
/// their instruments, and an instrument that is not a PCM sample (an empty
/// slot or an AdLib instrument) is passed over without ending the list:
/// every PCM instrument with data is listed, unless an earlier one's data
/// runs past the end of the module.
pub proof fn law_s3m_pcm_instruments_listed(s: Seq<u8>)
    ensures
        s3m_load(s) matches Ok(m) ==> {
            &&& forall|k: int|
                0 <= k < m.samples.len() ==> #[trigger] m.samples[k].raw_index < le16(s, 0x22) && s[s3m_ins_offset(
                    s,
                    m.samples[k].raw_index as int,
                )] == 1 && s3m_sample_from(s, s3m_ins_offset(s, m.samples[k].raw_index as int), m.samples[k])
            &&& forall|k: int| 0 <= k < m.samples.len() - 1 ==> #[trigger] m.samples[k].raw_index < m.samples[k
                + 1].raw_index
            &&& forall|j: int|
                0 <= j < le16(s, 0x22) && #[trigger] s3m_holds_sample(s, s3m_ins_offset(s, j)) && (forall|l: int|
                    0 <= l <= j && #[trigger] s3m_holds_sample(s, s3m_ins_offset(s, l)) ==> s3m_data_fits(
                        s,
                        s3m_ins_offset(s, l),
                    )) ==> exists|k: int| 0 <= k < m.samples.len() && #[trigger] m.samples[k].raw_index == j
        },
{
    if s3m_load(s) is Ok && s3m_validate(s) is Ok {
        match (text_at(s, 0, 28), u16le_at(s, 0x20), u16le_at(s, 0x22)) {
            (Some(title), Some(ord_count), Some(ins_count)) => {
                let list = 0x60 + ord_count as int;
                if list <= 0xffff {
                    lemma_s3m_ptrs(s, list, ins_count as int, 0, Seq::empty());
                    match s3m_ptrs(s, list, ins_count as int, 0, Seq::empty()) {
                        Ok(ptrs) => {
                            lemma_s3m_samples_listed(s, ptrs, 0, Seq::empty());
                            assert(forall|i: int| 0 <= i < ins_count ==> ptrs[i] as int == #[trigger] s3m_ins_offset(s, i));
                            let v = s3m_samples(s, ptrs, 0, Seq::empty())->Ok_0;
                            assert forall|k: int| 0 <= k < v.len() implies #[trigger] v[k].raw_index < le16(s, 0x22)
                                && s[s3m_ins_offset(s, v[k].raw_index as int)] == 1 && s3m_sample_from(
                                s,
                                s3m_ins_offset(s, v[k].raw_index as int),
                                v[k],
                            ) by {
                                assert(ptrs[v[k].raw_index as int] as int == s3m_ins_offset(s, v[k].raw_index as int));
                            }
                            assert forall|j: int|
                                0 <= j < le16(s, 0x22) && #[trigger] s3m_holds_sample(s, s3m_ins_offset(s, j)) && (forall|l: int|
                                    0 <= l <= j && #[trigger] s3m_holds_sample(s, s3m_ins_offset(s, l)) ==> s3m_data_fits(
                                        s,
                                        s3m_ins_offset(s, l),
                                    )) implies exists|k: int| 0 <= k < v.len() && #[trigger] v[k].raw_index == j by {
                                assert forall|l: int|
                                    0 <= l <= j && #[trigger] s3m_holds_sample(s, ptrs[l] as int) implies s3m_data_fits(
                                        s,
                                        ptrs[l] as int,
                                    ) by {
                                    assert(ptrs[l] as int == s3m_ins_offset(s, l));
                                }
                                assert(ptrs[j] as int == s3m_ins_offset(s, j));
                            }
                        },
                        Err(_) => {},
                    }
                }
            },
            _ => {},
        }
    }
}

} // verus!
