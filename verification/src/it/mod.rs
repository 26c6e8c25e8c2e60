//! Impulse Tracker readers that list the samples of a module for writing
//! them out one by one.
pub mod scan;
pub mod tracker;

use crate::bytes::{bytes_at, field_text, le16, matches_at, read_string, read_u16_le, read_u32_le, read_u8, text_at, u32le_at, u8_at};
use crate::error::{err_view, oob_view, ErrorKind, ErrorView, XmoditsError};
use crate::fmt::it::{it_bits, it_compressed, it_ptrs, sample_bits, sample_compressed};
use vstd::prelude::*;
use vstd::string::StringExecFns;

verus! {

const IT_HEADER_ID: [u8; 4] = [0x49, 0x4D, 0x50, 0x4D];  // IMPM

const IT_HEADER_LEN: usize = 192;

const MASK_SMP_STEREO: u8 = 0b0000_0100;  // 0 = mono, 1 = stereo

/// Whether IT sample flags mark the sample as stereo (bit 2).
pub open spec fn it_stereo(flags: u8) -> bool {
    flags & 4u8 == 4u8
}

/// Whether IT sample flags mark the sample as stereo.
pub fn sample_stereo(flags: u8) -> (r: bool)
    ensures
        r == it_stereo(flags),
{
    let r = ((flags & MASK_SMP_STEREO) >> 2) == 1;
    proof {
        let f = flags;
        assert((((f & 4u8) >> 2u8) == 1u8) == (f & 4u8 == 4u8)) by (bit_vector);
    }
    r
}

/// A sample header as the contracts see it.
pub struct ITSampleModel {
    pub filename: Seq<char>,
    pub name: Seq<char>,
    pub smp_len: u32,
    pub smp_ptr: u32,
    pub smp_rate: u32,
    pub smp_flag: u8,
    pub smp_bits: u8,
    pub smp_comp: bool,
    pub smp_stereo: bool,
}

/// The sample headers that `ptrs` point to, from number `i` on, appended to
/// `acc`; headers of empty samples are skipped.
pub open spec fn ptr_samples(s: Seq<u8>, ptrs: Seq<u32>, i: int, acc: Seq<ITSampleModel>) -> Result<Seq<ITSampleModel>, ErrorView>
    decreases ptrs.len() - i,
{
    if i < 0 || i >= ptrs.len() {
        Ok(acc)
    } else {
        let off = ptrs[i] as int;
        match u32le_at(s, off + 0x30) {
            None => Err(oob_view()),
            Some(len) => if len == 0 {
                ptr_samples(s, ptrs, i + 1, acc)
            } else {
                match (
                    text_at(s, off + 0x04, 12),
                    text_at(s, off + 0x14, 26),
                    u32le_at(s, off + 0x48),
                    u32le_at(s, off + 0x3c),
                    u8_at(s, off + 0x12),
                ) {
                    (Some(filename), Some(name), Some(ptr), Some(rate), Some(flag)) => ptr_samples(
                        s,
                        ptrs,
                        i + 1,
                        acc.push(
                            ITSampleModel {
                                filename,
                                name,
                                smp_len: len,
                                smp_ptr: ptr,
                                smp_rate: rate,
                                smp_flag: flag,
                                smp_bits: it_bits(flag),
                                smp_comp: it_compressed(flag),
                                smp_stereo: it_stereo(flag),
                            },
                        ),
                    ),
                    _ => Err(oob_view()),
                }
            },
        }
    }
}

/// A module as the contracts see it.
pub struct ITModuleModel {
    pub title: Seq<char>,
    pub buf: Seq<u8>,
    pub version: u16,
    pub compat_ver: u16,
    pub samples: Seq<ITSampleModel>,
}

/// Reading a module from its bytes: its header, its sample header pointers
/// and the headers of the samples that hold data.
pub open spec fn ptr_load(s: Seq<u8>) -> Result<ITModuleModel, ErrorView> {
    if s.len() < 192 || !bytes_at(s, 0, seq![0x49u8, 0x4D, 0x50, 0x4D]) {
        Err(err_view(ErrorKind::GenericError, "File is not a valid Impulse Tracker Module"@))
    } else {
        let list = 0xc0 + le16(s, 0x20) + 4 * le16(s, 0x22);
        if 4 * le16(s, 0x22) > 0xffff || list > 0xffff {
            Err(oob_view())
        } else {
            match it_ptrs(s, list, le16(s, 0x24), 0, Seq::empty()) {
                Err(e) => Err(e),
                Ok(ptrs) => match ptr_samples(s, ptrs, 0, Seq::empty()) {
                    Err(e) => Err(e),
                    Ok(samples) => Ok(
                        ITModuleModel {
                            title: field_text(s.subrange(4, 30)),
                            buf: s,
                            version: le16(s, 0x28) as u16,
                            compat_ver: le16(s, 0x2a) as u16,
                            samples,
                        },
                    ),
                },
            }
        }
    }
}

/// A sample header.
#[derive(Debug)]
pub struct ITSample {
    pub filename: String,
    pub name: String,
    pub smp_len: u32,
    pub smp_ptr: u32,
    pub smp_rate: u32,
    pub smp_flag: u8,
    pub smp_bits: u8,
    pub smp_comp: bool,
    pub smp_stereo: bool,
}

impl View for ITSample {
    type V = ITSampleModel;

    open spec fn view(&self) -> ITSampleModel {
        ITSampleModel {
            filename: self.filename@,
            name: self.name@,
            smp_len: self.smp_len,
            smp_ptr: self.smp_ptr,
            smp_rate: self.smp_rate,
            smp_flag: self.smp_flag,
            smp_bits: self.smp_bits,
            smp_comp: self.smp_comp,
            smp_stereo: self.smp_stereo,
        }
    }
}

/// The views of a list of sample headers.
pub open spec fn it_samples_view(v: Seq<ITSample>) -> Seq<ITSampleModel> {
    v.map_values(|s: ITSample| s@)
}

/// A module read by `ITFile::load_from_buf`.
#[derive(Debug)]
pub struct ITFile {
    title: String,
    buf: Vec<u8>,
    pub version: u16,
    pub compat_ver: u16,
    pub smp_num: u16,
    pub smp_data: Vec<ITSample>,
}

impl View for ITFile {
    type V = ITModuleModel;

    closed spec fn view(&self) -> ITModuleModel {
        ITModuleModel {
            title: self.title@,
            buf: self.buf@,
            version: self.version,
            compat_ver: self.compat_ver,
            samples: it_samples_view(self.smp_data@),
        }
    }
}

/// Reads the sample headers that `smp_ptr` points to; see `ptr_samples`.
fn build_samples(it_data: &[u8], smp_ptr: &Vec<u32>) -> (r: Result<Vec<ITSample>, XmoditsError>)
    ensures
        match ptr_samples(it_data@, smp_ptr@, 0, Seq::empty()) {
            Ok(v) => r is Ok && it_samples_view(r->Ok_0@) == v && v.len() <= smp_ptr@.len(),
            Err(e) => r is Err && r->Err_0@ == e,
        },
{
    let _l = it_data.len();
    let ghost goal = ptr_samples(it_data@, smp_ptr@, 0, Seq::empty());
    let mut smp_meta: Vec<ITSample> = Vec::new();
    assert(it_samples_view(smp_meta@) =~= Seq::<ITSampleModel>::empty());
    let mut i: usize = 0;
    while i < smp_ptr.len()
        invariant
            i <= smp_ptr@.len(),
            smp_meta@.len() <= i,
            it_data@.len() <= usize::MAX,
            goal == ptr_samples(it_data@, smp_ptr@, 0, Seq::empty()),
            goal == ptr_samples(it_data@, smp_ptr@, i as int, it_samples_view(smp_meta@)),
        decreases smp_ptr@.len() - i,
    {
        let offset: usize = smp_ptr[i] as usize;
        let smp_len: u32 = match offset.checked_add(0x0030) {
            Some(o) => match read_u32_le(it_data, o) {
                Some(v) => v,
                None => return Err(XmoditsError::OutOfBounds),
            },
            None => return Err(XmoditsError::OutOfBounds),
        };
        if smp_len == 0 {
            i += 1;
            continue;
        }
        let filename: String = match crate::bytes::read_string_at(it_data, offset, 0x0004, 12) {
            Some(v) => v,
            None => return Err(XmoditsError::OutOfBounds),
        };
        let name: String = match crate::bytes::read_string_at(it_data, offset, 0x0014, 26) {
            Some(v) => v,
            None => return Err(XmoditsError::OutOfBounds),
        };
        let smp_ptr_v: u32 = match crate::bytes::read_u32_le_at(it_data, offset, 0x0048) {
            Some(v) => v,
            None => return Err(XmoditsError::OutOfBounds),
        };
        let smp_rate: u32 = match crate::bytes::read_u32_le_at(it_data, offset, 0x003C) {
            Some(v) => v,
            None => return Err(XmoditsError::OutOfBounds),
        };
        let smp_flag: u8 = match crate::bytes::read_u8_at(it_data, offset, 0x0012) {
            Some(v) => v,
            None => return Err(XmoditsError::OutOfBounds),
        };
        let smp = ITSample {
            filename,
            name,
            smp_len,
            smp_ptr: smp_ptr_v,
            smp_rate,
            smp_bits: sample_bits(smp_flag),
            smp_comp: sample_compressed(smp_flag),
            smp_stereo: sample_stereo(smp_flag),
            smp_flag,
        };
        let ghost before = it_samples_view(smp_meta@);
        smp_meta.push(smp);
        assert(it_samples_view(smp_meta@) =~= before.push(smp_meta@.last()@));
        i += 1;
    }
    Ok(smp_meta)
}

impl ITFile {
    /// Reads a module from its bytes; see `ptr_load`.
    pub fn load_from_buf(buf: Vec<u8>) -> (r: Result<ITFile, XmoditsError>)
        ensures
            match ptr_load(buf@) {
                Ok(m) => r is Ok && r->Ok_0@ == m && r->Ok_0.sample_number() as int == m.samples.len(),
                Err(e) => r is Err && r->Err_0@ == e,
            },
    {
        let b = buf.as_slice();
        if b.len() < IT_HEADER_LEN || !matches_at(b, 0, &IT_HEADER_ID) {
            return Err(XmoditsError::GenericError(String::from_str("File is not a valid Impulse Tracker Module")));
        }
        assert(IT_HEADER_ID@ == seq![0x49u8, 0x4D, 0x50, 0x4D]);
        let title: String = read_string(b, 0x0004, 26).unwrap();
        let ord_num: u16 = read_u16_le(b, 0x0020).unwrap();
        let ins_num: u16 = read_u16_le(b, 0x0022).unwrap();
        let smp_num: u16 = read_u16_le(b, 0x0024).unwrap();
        let version: u16 = read_u16_le(b, 0x0028).unwrap();
        let compat_ver: u16 = read_u16_le(b, 0x002A).unwrap();
        let smp_ptr_list: u16 = match ins_num.checked_mul(4) {
            None => return Err(XmoditsError::OutOfBounds),
            Some(x) => match 0x00c0u16.checked_add(ord_num) {
                None => return Err(XmoditsError::OutOfBounds),
                Some(h) => match h.checked_add(x) {
                    None => return Err(XmoditsError::OutOfBounds),
                    Some(y) => y,
                },
            },
        };
        let mut smp_ptrs: Vec<u32> = Vec::new();
        let mut i: u16 = 0;
        while i < smp_num
            invariant
                b@ == buf@,
                b@.len() >= 192,
                bytes_at(b@, 0, seq![0x49u8, 0x4D, 0x50, 0x4D]),
                smp_ptr_list as int == 0xc0 + le16(b@, 0x20) + 4 * le16(b@, 0x22),
                4 * le16(b@, 0x22) <= 0xffff,
                smp_num as int == le16(b@, 0x24),
                i <= smp_num,
                smp_ptrs@.len() == i,
                it_ptrs(b@, smp_ptr_list as int, smp_num as int, i as int, smp_ptrs@) == it_ptrs(
                    b@,
                    smp_ptr_list as int,
                    smp_num as int,
                    0,
                    Seq::empty(),
                ),
            decreases smp_num - i,
        {
            let index: u16 = match i.checked_mul(4) {
                None => return Err(XmoditsError::OutOfBounds),
                Some(x) => match smp_ptr_list.checked_add(x) {
                    None => return Err(XmoditsError::OutOfBounds),
                    Some(y) => y,
                },
            };
            match read_u32_le(b, index as usize) {
                None => return Err(XmoditsError::OutOfBounds),
                Some(p) => smp_ptrs.push(p),
            }
            i += 1;
        }
        let smp_data = match build_samples(b, &smp_ptrs) {
            Ok(d) => d,
            Err(e) => return Err(e),
        };
        let smp_num: u16 = smp_data.len() as u16;
        Ok(ITFile { title, smp_num, smp_data, version, compat_ver, buf })
    }

    /// The recorded number of samples.
    pub closed spec fn sample_number(&self) -> u16 {
        self.smp_num
    }

    /// Number of samples the module lists.
    pub fn number_of_samples(&self) -> (r: usize)
        ensures
            r == self.sample_number(),
    {
        self.smp_num as usize
    }

    /// Name of the module.
    pub fn module_name(&self) -> (r: &str)
        ensures
            r@ == self@.title,
    {
        self.title.as_str()
    }
}

} // verus!
