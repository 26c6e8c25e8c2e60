//! A plain Impulse Tracker reader: it finds the sample headers by their tag
//! and writes each sample as a WAV file.
use crate::bytes::{be32, le16, le32, read_u16_le, read_u32_be, read_u32_le, read_u8};
use crate::compression::decimal;
use crate::error::{err_view, oob_view, ErrorKind, ErrorView, XmoditsError};
use crate::wav::{wav_header, wav_header_spec};
use vstd::prelude::*;
use vstd::slice::slice_subrange;
use vstd::string::StringExecFns;

verus! {

const IT_HEADER_ID: u32 = 0x494D504D;  // IMPM

const IT_SAMPLE_ID: u32 = 0x494D5053;  // IMPS

const IT_HEADER_LEN: usize = 192;

const IT_SAMPLE_LEN: usize = 80;

const MASK_BITS_SAMPLE: u8 = 0b0000_0011;

/// The characters that bytes stand for, one per byte (Latin-1).
pub open spec fn latin1(s: Seq<u8>) -> Seq<char> {
    s.map_values(|b: u8| b as char)
}

/// Bits per sample of a sample header's flags: 8 when the two low bits are
/// `01`, 16 otherwise.
pub open spec fn scan_bits(flags: u8) -> u16 {
    if flags & 3u8 == 1u8 {
        8
    } else {
        16
    }
}

/// The position of the first sample header tag ("IMPS") from `i` on, among
/// the positions below `s.len() - 4`.
pub open spec fn first_tag(s: Seq<u8>, i: int) -> Option<int>
    decreases s.len() - i,
{
    if i < 0 || i >= s.len() - 4 {
        None
    } else if be32(s, i) == 0x494D5053 {
        Some(i)
    } else {
        first_tag(s, i + 1)
    }
}

/// A sample header as the contracts see it.
pub struct ItSampleModel {
    pub filename: Seq<char>,
    pub name: Seq<char>,
    pub length: u32,
    pub sample_pointer: u32,
    pub sample_rate: u32,
    pub flags: u8,
    pub bits_sample: u16,
}

/// The sample header at `offset`, which must fit in `s`.
pub open spec fn scan_sample(s: Seq<u8>, offset: int) -> ItSampleModel {
    ItSampleModel {
        filename: latin1(s.subrange(offset + 4, offset + 16)),
        name: latin1(s.subrange(offset + 0x14, offset + 0x2e)),
        length: le32(s, offset + 0x30) as u32,
        sample_pointer: le32(s, offset + 0x48) as u32,
        sample_rate: le32(s, offset + 0x3c) as u32,
        flags: s[offset + 0x12],
        bits_sample: scan_bits(s[offset + 0x12]),
    }
}

/// The sample headers from number `i` of `n` on, each 80 bytes after the
/// one before, the first at `start`.
pub open spec fn scan_samples(s: Seq<u8>, start: int, n: int, i: int, acc: Seq<ItSampleModel>) -> Result<Seq<ItSampleModel>, ErrorView>
    decreases n - i,
{
    if i >= n {
        Ok(acc)
    } else if start + 80 * i + 0x4c > s.len() {
        Err(oob_view())
    } else {
        scan_samples(s, start, n, i + 1, acc.push(scan_sample(s, start + 80 * i)))
    }
}

/// The message for a module that says it has samples but holds no sample
/// header.
pub open spec fn no_headers_message(n: nat) -> Seq<char> {
    "IT module doesn't contain any samples. Despite showing that it has \""@ + decimal(n)
        + "\" samples"@
}

/// The `n` sample headers of a module: they follow the first sample header
/// tag of the file.
pub open spec fn scan_build(s: Seq<u8>, n: int) -> Result<Seq<ItSampleModel>, ErrorView> {
    if n == 0 {
        Err(err_view(ErrorKind::GenericError, "IT module doesn't contain any samples."@))
    } else {
        match first_tag(s, 0) {
            Some(k) => if k == 0 {
                Err(err_view(ErrorKind::GenericError, no_headers_message(n as nat)))
            } else {
                scan_samples(s, k, n, 0, Seq::empty())
            },
            None => Err(err_view(ErrorKind::GenericError, no_headers_message(n as nat))),
        }
    }
}

/// A module as the contracts see it.
pub struct ItScanModel {
    pub buffer: Seq<u8>,
    pub sample_number: u16,
    pub samples: Seq<ItSampleModel>,
}

/// Reading a module from its bytes.
pub open spec fn scan_load(s: Seq<u8>) -> Result<ItScanModel, ErrorView> {
    if s.len() < 192 || be32(s, 0) != 0x494D504D {
        Err(err_view(ErrorKind::GenericError, "File is not a valid Impulse Tracker Module"@))
    } else {
        match scan_build(s, le16(s, 0x24)) {
            Err(e) => Err(e),
            Ok(samples) => Ok(ItScanModel { buffer: s, sample_number: le16(s, 0x24) as u16, samples }),
        }
    }
}

/// The data of sample `index` as a WAV file: an index past the last
/// sample stands for the last one. 8-bit data is converted to unsigned form.
pub open spec fn scan_export(m: ItScanModel, index: int) -> Result<Seq<u8>, ErrorView> {
    let i = if index > m.sample_number { m.sample_number - 1 } else { index };
    if i >= m.samples.len() {
        Err(oob_view())
    } else {
        let smp = m.samples[i];
        let size = smp.length * (smp.bits_sample / 8);
        if size + 44 > u32::MAX || smp.sample_pointer + size > m.buffer.len() {
            Err(oob_view())
        } else {
            let raw = m.buffer.subrange(smp.sample_pointer as int, smp.sample_pointer + size);
            Ok(
                wav_header_spec(smp.sample_rate, smp.bits_sample, size as u32) + if smp.bits_sample == 8 {
                    crate::signed::signed_u8_spec(raw)
                } else {
                    raw
                },
            )
        }
    }
}

/// A sample header.
#[derive(Debug)]
pub struct ItSample {
    filename: Vec<char>,
    name: Vec<char>,
    length: u32,
    sample_pointer: u32,
    sample_rate: u32,
    flags: u8,
    bits_sample: u16,
}

impl View for ItSample {
    type V = ItSampleModel;

    closed spec fn view(&self) -> ItSampleModel {
        ItSampleModel {
            filename: self.filename@,
            name: self.name@,
            length: self.length,
            sample_pointer: self.sample_pointer,
            sample_rate: self.sample_rate,
            flags: self.flags,
            bits_sample: self.bits_sample,
        }
    }
}

/// A module read by `ItFile::load_from_buf`.
#[derive(Debug)]
pub struct ItFile {
    buffer: Vec<u8>,
    sample_number: u16,
    samples_meta: Vec<ItSample>,
}

impl View for ItFile {
    type V = ItScanModel;

    closed spec fn view(&self) -> ItScanModel {
        ItScanModel {
            buffer: self.buffer@,
            sample_number: self.sample_number,
            samples: self.samples_meta@.map_values(|s: ItSample| s@),
        }
    }
}

/// The characters of `len` bytes at `off` (which fit), one per byte.
pub(crate) fn load_chars(data: &[u8], off: usize, len: usize) -> (r: Vec<char>)
    requires
        off + len <= data@.len(),
    ensures
        r@ == latin1(data@.subrange(off as int, off + len)),
{
    let _l = data.len();
    let mut out: Vec<char> = Vec::with_capacity(len);
    let mut i: usize = 0;
    while i < len
        invariant
            off + len <= data@.len(),
            data@.len() <= usize::MAX,
            i <= len,
            out@ == latin1(data@.subrange(off as int, off + i)),
        decreases len - i,
    {
        out.push(data[off + i] as char);
        i += 1;
        assert(out@ =~= latin1(data@.subrange(off as int, off + i)));
    }
    out
}

/// Reads the sample header at `offset`, which fits in `data`.
fn read_sample(data: &[u8], offset: usize) -> (r: ItSample)
    requires
        offset + 0x4c <= data@.len(),
    ensures
        r@ == scan_sample(data@, offset as int),
{
    let _l = data.len();
    let flags: u8 = data[0x12 + offset];
    let bits_sample: u16 = if flags & MASK_BITS_SAMPLE == 0b01 {
        8
    } else {
        16
    };
    ItSample {
        filename: load_chars(data, 0x0004 + offset, 12),
        name: load_chars(data, 0x0014 + offset, 26),
        length: read_u32_le(data, 0x0030 + offset).unwrap(),
        sample_pointer: read_u32_le(data, 0x0048 + offset).unwrap(),
        sample_rate: read_u32_le(data, 0x003C + offset).unwrap(),
        flags,
        bits_sample,
    }
}

/// Finds the first sample header tag and reads the `num_samples` headers
/// that follow it; see `scan_build`.
fn build_samples(it_data: &[u8], num_samples: u16) -> (r: Result<Vec<ItSample>, XmoditsError>)
    requires
        it_data@.len() >= 4,
    ensures
        match scan_build(it_data@, num_samples as int) {
            Ok(v) => r is Ok && r->Ok_0@.map_values(|s: ItSample| s@) == v,
            Err(e) => r is Err && r->Err_0@ == e,
        },
{
    if num_samples == 0 {
        return Err(XmoditsError::GenericError(String::from_str("IT module doesn't contain any samples.")));
    }
    let mut found: Option<usize> = None;
    let mut i: usize = 0;
    let end: usize = it_data.len() - 4;
    while i < end
        invariant_except_break
            found is None,
            first_tag(it_data@, i as int) == first_tag(it_data@, 0),
        invariant
            end == it_data@.len() - 4,
            i <= end,
        ensures
            found matches Some(k) ==> first_tag(it_data@, 0) == Some(k as int),
            found is None ==> first_tag(it_data@, 0) is None,
        decreases end - i,
    {
        if read_u32_be(it_data, i).unwrap() == IT_SAMPLE_ID {
            found = Some(i);
            break;
        }
        i += 1;
    }
    let ins_start_index: usize = match found {
        Some(k) => k,
        None => 0,
    };
    if ins_start_index == 0 {
        let mut msg = String::from_str("IT module doesn't contain any samples. Despite showing that it has \"");
        let digits = crate::text::decimal_text(num_samples as u64);
        msg.append(digits.as_str());
        msg.append("\" samples");
        return Err(XmoditsError::GenericError(msg));
    }
    let ghost goal = scan_build(it_data@, num_samples as int);
    let mut smp_meta: Vec<ItSample> = Vec::new();
    let mut j: usize = 0;
    assert(smp_meta@.map_values(|s: ItSample| s@) =~= Seq::<ItSampleModel>::empty());
    let _l = it_data.len();
    while j < num_samples as usize
        invariant
            ins_start_index > 0,
            it_data@.len() <= usize::MAX,
            goal == scan_build(it_data@, num_samples as int),
            j <= num_samples,
            goal == scan_samples(it_data@, ins_start_index as int, num_samples as int, 0, Seq::empty()),
            goal == scan_samples(
                it_data@,
                ins_start_index as int,
                num_samples as int,
                j as int,
                smp_meta@.map_values(|s: ItSample| s@),
            ),
        decreases num_samples - j,
    {
        let offset: usize = match j.checked_mul(IT_SAMPLE_LEN) {
            Some(x) => match ins_start_index.checked_add(x) {
                Some(o) => o,
                None => return Err(XmoditsError::OutOfBounds),
            },
            None => return Err(XmoditsError::OutOfBounds),
        };
        if offset > it_data.len() || it_data.len() - offset < 0x4c {
            return Err(XmoditsError::OutOfBounds);
        }
        let smp = read_sample(it_data, offset);
        let ghost before = smp_meta@.map_values(|s: ItSample| s@);
        smp_meta.push(smp);
        assert(smp_meta@.map_values(|s: ItSample| s@) =~= before.push(scan_sample(it_data@, offset as int)));
        j += 1;
    }
    Ok(smp_meta)
}

impl ItFile {
    /// The sample headers agree with the sample count.
    pub closed spec fn wf(&self) -> bool {
        &&& self.samples_meta@.len() == self.sample_number
        &&& self.sample_number > 0
    }

    /// Reads a module from its bytes; see `scan_load`.
    pub fn load_from_buf(buffer: Vec<u8>) -> (r: Result<ItFile, XmoditsError>)
        ensures
            match scan_load(buffer@) {
                Ok(m) => r is Ok && r->Ok_0@ == m && r->Ok_0.wf(),
                Err(e) => r is Err && r->Err_0@ == e,
            },
    {
        if buffer.len() < IT_HEADER_LEN || read_u32_be(buffer.as_slice(), 0x0000).unwrap() != IT_HEADER_ID {
            return Err(XmoditsError::GenericError(String::from_str("File is not a valid Impulse Tracker Module")));
        }
        let sample_number: u16 = read_u16_le(buffer.as_slice(), 0x0024).unwrap();
        let samples_meta = match build_samples(buffer.as_slice(), sample_number) {
            Ok(s) => s,
            Err(e) => return Err(e),
        };
        proof {
            lemma_scan_samples_len(buffer@, first_tag(buffer@, 0)->0, sample_number as int, 0, Seq::empty());
        }
        Ok(ItFile { buffer, sample_number, samples_meta })
    }

    /// Number of samples the module contains.
    pub fn number_of_samples(&self) -> (r: usize)
        ensures
            r == self@.sample_number,
    {
        self.sample_number as usize
    }

    /// The WAV file of sample `index`; see `scan_export`.
    pub fn export_data(&self, index: usize) -> (r: Result<Vec<u8>, XmoditsError>)
        requires
            self.wf(),
        ensures
            match scan_export(self@, index as int) {
                Ok(s) => r is Ok && r->Ok_0@ == s,
                Err(e) => r is Err && r->Err_0@ == e,
            },
    {
        let index = if index > self.sample_number as usize {
            self.sample_number as usize - 1
        } else {
            index
        };
        if index >= self.samples_meta.len() {
            return Err(XmoditsError::OutOfBounds);
        }
        let sample = &self.samples_meta[index];
        assert(sample@ == self@.samples[index as int]);
        let size: u32 = match sample.length.checked_mul((sample.bits_sample / 8) as u32) {
            Some(s) => s,
            None => return Err(XmoditsError::OutOfBounds),
        };
        // the header's file size is 44 + size - 8, computed as a u32
        if size > u32::MAX - 44 {
            return Err(XmoditsError::OutOfBounds);
        }
        let start_ptr: usize = sample.sample_pointer as usize;
        if start_ptr > self.buffer.len() || self.buffer.len() - start_ptr < size as usize {
            return Err(XmoditsError::OutOfBounds);
        }
        let mut out = wav_header(sample.sample_rate, sample.bits_sample, size);
        let raw = slice_subrange(self.buffer.as_slice(), start_ptr, start_ptr + size as usize);
        if sample.bits_sample == 8 {
            // normalize to prevent earrape
            let mut conv = crate::signed::make_signed_u8(raw);
            out.append(&mut conv);
        } else {
            let mut copy = vstd::slice::slice_to_vec(raw);
            out.append(&mut copy);
        }
        Ok(out)
    }
}

/// Reading `n - i` headers appends that many.
proof fn lemma_scan_samples_len(s: Seq<u8>, start: int, n: int, i: int, acc: Seq<ItSampleModel>)
    requires
        i <= n,
    ensures
        scan_samples(s, start, n, i, acc) matches Ok(v) ==> v.len() == acc.len() + n - i,
    decreases n - i,
{
    if i < n && start + 80 * i + 0x4c <= s.len() {
        lemma_scan_samples_len(s, start, n, i + 1, acc.push(scan_sample(s, start + 80 * i)));
    }
}

} // verus!
