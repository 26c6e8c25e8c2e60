//! An Impulse Tracker reader that finds the sample headers by their tag and
//! decodes their flags.
use crate::bytes::{be32, le16, le32, read_u16_le, read_u32_be, read_u32_le};
use crate::error::{err_view, oob_view, ErrorKind, ErrorView, XmoditsError};
use crate::fmt::it::{it_bits, it_compressed, sample_bits, sample_compressed};
use crate::it::tracker::{first_tag, latin1, load_chars, no_headers_message};
use crate::it::{it_stereo, sample_stereo};
use vstd::prelude::*;
use vstd::string::StringExecFns;

verus! {

const IT_HEADER_ID: u32 = 0x494D504D;  // IMPM

const IT_SAMPLE_ID: u32 = 0x494D5053;  // IMPS

const IT_HEADER_LEN: usize = 192;

const IT_SAMPLE_LEN: usize = 80;

/// A sample header as the contracts see it.
pub struct ScanSampleModel {
    pub filename: Seq<char>,
    pub name: Seq<char>,
    pub smp_len: u32,
    pub smp_ptr: u32,
    pub smp_rate: u32,
    pub smp_flag: u8,
    pub smp_bits: u8,
    pub smp_comp: bool,
    pub smp_stereo: bool,
}

/// The sample header at `offset`, which must fit in `s`.
pub open spec fn header_at(s: Seq<u8>, offset: int) -> ScanSampleModel {
    let flag = s[offset + 0x12];
    ScanSampleModel {
        filename: latin1(s.subrange(offset + 4, offset + 16)),
        name: latin1(s.subrange(offset + 0x14, offset + 0x2e)),
        smp_len: le32(s, offset + 0x30) as u32,
        smp_ptr: le32(s, offset + 0x48) as u32,
        smp_rate: le32(s, offset + 0x3c) as u32,
        smp_flag: flag,
        smp_bits: it_bits(flag),
        smp_comp: it_compressed(flag),
        smp_stereo: it_stereo(flag),
    }
}

/// The sample headers from number `i` of `n` on, each 80 bytes after the
/// one before, the first at `start`.
pub open spec fn headers_from(s: Seq<u8>, start: int, n: int, i: int, acc: Seq<ScanSampleModel>) -> Result<Seq<ScanSampleModel>, ErrorView>
    decreases n - i,
{
    if i >= n {
        Ok(acc)
    } else if start + 80 * i + 0x4c > s.len() {
        Err(oob_view())
    } else {
        headers_from(s, start, n, i + 1, acc.push(header_at(s, start + 80 * i)))
    }
}

/// The `n` sample headers of a module: they follow the first sample header
/// tag of the file.
pub open spec fn headers(s: Seq<u8>, n: int) -> Result<Seq<ScanSampleModel>, ErrorView> {
    if n == 0 {
        Err(err_view(ErrorKind::GenericError, "IT module doesn't contain any samples."@))
    } else {
        match first_tag(s, 0) {
            Some(k) => if k == 0 {
                Err(err_view(ErrorKind::GenericError, no_headers_message(n as nat)))
            } else {
                headers_from(s, k, n, 0, Seq::empty())
            },
            None => Err(err_view(ErrorKind::GenericError, no_headers_message(n as nat))),
        }
    }
}

/// A module as the contracts see it.
pub struct ScanModel {
    pub buffer: Seq<u8>,
    pub version: u16,
    pub compat_version: u16,
    pub sample_number: u16,
    pub samples: Seq<ScanSampleModel>,
}

/// Reading a module from its bytes.
pub open spec fn load_spec(s: Seq<u8>) -> Result<ScanModel, ErrorView> {
    if s.len() < 192 || be32(s, 0) != 0x494D504D {
        Err(err_view(ErrorKind::GenericError, "File is not a valid Impulse Tracker Module"@))
    } else {
        match headers(s, le16(s, 0x24)) {
            Err(e) => Err(e),
            Ok(samples) => Ok(
                ScanModel {
                    buffer: s,
                    version: le16(s, 0x28) as u16,
                    compat_version: le16(s, 0x2a) as u16,
                    sample_number: le16(s, 0x24) as u16,
                    samples,
                },
            ),
        }
    }
}

/// A sample header.
#[derive(Debug)]
pub struct ITSample {
    pub filename: [char; 12],
    pub name: [char; 26],
    pub smp_len: u32,
    pub smp_ptr: u32,
    pub smp_rate: u32,
    pub smp_flag: u8,
    pub smp_bits: u8,
    pub smp_comp: bool,
    pub smp_stereo: bool,
}

impl View for ITSample {
    type V = ScanSampleModel;

    open spec fn view(&self) -> ScanSampleModel {
        ScanSampleModel {
            filename: self.filename@,
            name: self.name@,
            smp_len: self.smp_len,
            smp_ptr: self.smp_ptr,
            smp_rate: self.smp_rate,
            smp_flag: self.smp_flag,
            smp_bits: self.smp_bits,
            smp_comp: self.smp_comp,
            smp_stereo: self.smp_stereo,
        }
    }
}

/// The views of a list of sample headers.
pub open spec fn headers_view(v: Seq<ITSample>) -> Seq<ScanSampleModel> {
    v.map_values(|s: ITSample| s@)
}

/// A module read by `ITFile::load_from_buf`.
#[derive(Debug)]
pub struct ITFile {
    buffer: Vec<u8>,
    pub version: u16,
    pub compat_version: u16,
    pub sample_number: u16,
    pub samples_meta: Vec<ITSample>,
}

impl View for ITFile {
    type V = ScanModel;

    closed spec fn view(&self) -> ScanModel {
        ScanModel {
            buffer: self.buffer@,
            version: self.version,
            compat_version: self.compat_version,
            sample_number: self.sample_number,
            samples: headers_view(self.samples_meta@),
        }
    }
}

/// The first 12 characters of `v` as an array.
fn array12(v: &Vec<char>) -> (r: [char; 12])
    requires
        v@.len() == 12,
    ensures
        r@ == v@,
{
    let r = [v[0], v[1], v[2], v[3], v[4], v[5], v[6], v[7], v[8], v[9], v[10], v[11]];
    assert(r@ =~= v@);
    r
}

/// The first 26 characters of `v` as an array.
fn array26(v: &Vec<char>) -> (r: [char; 26])
    requires
        v@.len() == 26,
    ensures
        r@ == v@,
{
    let r = [v[0], v[1], v[2], v[3], v[4], v[5], v[6], v[7], v[8], v[9], v[10], v[11], v[12], v[13], v[14], v[15], v[16], v[17], v[18], v[19], v[20], v[21], v[22], v[23], v[24], v[25]];
    assert(r@ =~= v@);
    r
}

/// Reads the sample header at `offset`, which fits in `data`.
fn read_header(data: &[u8], offset: usize) -> (r: ITSample)
    requires
        offset + 0x4c <= data@.len(),
    ensures
        r@ == header_at(data@, offset as int),
{
    let _l = data.len();
    let smp_flag: u8 = data[0x12 + offset];
    let filename = load_chars(data, 0x0004 + offset, 12);
    let name = load_chars(data, 0x0014 + offset, 26);
    ITSample {
        filename: array12(&filename),
        name: array26(&name),
        smp_len: read_u32_le(data, 0x0030 + offset).unwrap(),
        smp_ptr: read_u32_le(data, 0x0048 + offset).unwrap(),
        smp_rate: read_u32_le(data, 0x003C + offset).unwrap(),
        smp_bits: sample_bits(smp_flag),
        smp_comp: sample_compressed(smp_flag),
        smp_stereo: sample_stereo(smp_flag),
        smp_flag,
    }
}

/// Finds the first sample header tag and reads the `num_samples` headers
/// that follow it; see `headers`.
fn build_samples(it_data: &[u8], num_samples: u16) -> (r: Result<Vec<ITSample>, XmoditsError>)
    requires
        it_data@.len() >= 4,
    ensures
        match headers(it_data@, num_samples as int) {
            Ok(v) => r is Ok && headers_view(r->Ok_0@) == v,
            Err(e) => r is Err && r->Err_0@ == e,
        },
{
    if num_samples == 0 {
        return Err(XmoditsError::GenericError(String::from_str("IT module doesn't contain any samples.")));
    }
    let mut found: Option<usize> = None;
    let mut i: usize = 0;
    let end: usize = it_data.len() - 4;
    while i < end
        invariant_except_break
            found is None,
            first_tag(it_data@, i as int) == first_tag(it_data@, 0),
        invariant
            end == it_data@.len() - 4,
            i <= end,
        ensures
            found matches Some(k) ==> first_tag(it_data@, 0) == Some(k as int),
            found is None ==> first_tag(it_data@, 0) is None,
        decreases end - i,
    {
        if read_u32_be(it_data, i).unwrap() == IT_SAMPLE_ID {
            found = Some(i);
            break;
        }
        i += 1;
    }
    let ins_start_index: usize = match found {
        Some(k) => k,
        None => 0,
    };
    if ins_start_index == 0 {
        let mut msg = String::from_str("IT module doesn't contain any samples. Despite showing that it has \"");
        let digits = crate::text::decimal_text(num_samples as u64);
        msg.append(digits.as_str());
        msg.append("\" samples");
        return Err(XmoditsError::GenericError(msg));
    }
    let ghost goal = headers(it_data@, num_samples as int);
    let mut smp_meta: Vec<ITSample> = Vec::new();
    assert(headers_view(smp_meta@) =~= Seq::<ScanSampleModel>::empty());
    let _l = it_data.len();
    let mut j: usize = 0;
    while j < num_samples as usize
        invariant
            ins_start_index > 0,
            it_data@.len() <= usize::MAX,
            goal == headers(it_data@, num_samples as int),
            j <= num_samples,
            goal == headers_from(it_data@, ins_start_index as int, num_samples as int, 0, Seq::empty()),
            goal == headers_from(it_data@, ins_start_index as int, num_samples as int, j as int, headers_view(smp_meta@)),
        decreases num_samples - j,
    {
        let offset: usize = match j.checked_mul(IT_SAMPLE_LEN) {
            Some(x) => match ins_start_index.checked_add(x) {
                Some(o) => o,
                None => return Err(XmoditsError::OutOfBounds),
            },
            None => return Err(XmoditsError::OutOfBounds),
        };
        if offset > it_data.len() || it_data.len() - offset < 0x4c {
            return Err(XmoditsError::OutOfBounds);
        }
        let smp = read_header(it_data, offset);
        let ghost before = headers_view(smp_meta@);
        smp_meta.push(smp);
        assert(headers_view(smp_meta@) =~= before.push(header_at(it_data@, offset as int)));
        j += 1;
    }
    Ok(smp_meta)
}

impl ITFile {
    /// Reads a module from its bytes; see `load_spec`.
    pub fn load_from_buf(buffer: Vec<u8>) -> (r: Result<ITFile, XmoditsError>)
        ensures
            match load_spec(buffer@) {
                Ok(m) => r is Ok && r->Ok_0@ == m,
                Err(e) => r is Err && r->Err_0@ == e,
            },
    {
        if buffer.len() < IT_HEADER_LEN || read_u32_be(buffer.as_slice(), 0x0000).unwrap() != IT_HEADER_ID {
            return Err(XmoditsError::GenericError(String::from_str("File is not a valid Impulse Tracker Module")));
        }
        let sample_number: u16 = read_u16_le(buffer.as_slice(), 0x0024).unwrap();
        let samples_meta = match build_samples(buffer.as_slice(), sample_number) {
            Ok(s) => s,
            Err(e) => return Err(e),
        };
        let version: u16 = read_u16_le(buffer.as_slice(), 0x0028).unwrap();
        let compat_version: u16 = read_u16_le(buffer.as_slice(), 0x002A).unwrap();
        Ok(ITFile { sample_number, samples_meta, version, compat_version, buffer })
    }

    /// Number of samples the module says it has.
    pub fn number_of_samples(&self) -> (r: usize)
        ensures
            r == self@.sample_number,
    {
        self.sample_number as usize
    }
}

} // verus!
