//! Impulse Tracker modules.
use crate::bytes::{
    bytes_at, field_text, le16, le32, matches_at, read_string, read_string_at, read_u16_le, read_u32_le,
    read_u32_le_at, read_u8_at, text_at, u32le_at, u8_at,
};
use crate::compression::{decompress_sample, decompress_sample_spec};
use crate::error::{err_view, oob_view, ErrorKind, ErrorView, XmoditsError};
use crate::sample::{samples_view, LoopType, SampleModel, TrackerSample};
use crate::signed::{make_signed_u8, signed_u8_spec};
use vstd::prelude::*;
use vstd::slice::{slice_subrange, slice_to_vec};

verus! {

const IT_HEADER_ID: [u8; 4] = [0x49, 0x4D, 0x50, 0x4D];  // IMPM

const ZIRCON: [u8; 6] = [0x7a, 0x69, 0x52, 0x43, 0x4f, 0x4e];  // ziRCON, mmcmp compression

const IT_HEADER_LEN: usize = 192;

const MASK_SMP_BITS: u8 = 0b0000_0010;  // 16/8bit samples

const MASK_SMP_COMP: u8 = 0b0000_1000;  // Does sample use compression?

const IT215: u16 = 0x0215;  // IT215 compression

/// Bits per sample that IT sample flags give: 16 when bit 1 is set, 8 otherwise.
pub open spec fn it_bits(flags: u8) -> u8 {
    if flags & 2u8 == 2u8 {
        16
    } else {
        8
    }
}

/// Whether IT sample flags mark the sample as compressed (bit 3).
pub open spec fn it_compressed(flags: u8) -> bool {
    flags & 8u8 == 8u8
}

/// Bits per sample of IT sample flags.
pub fn sample_bits(flags: u8) -> (r: u8)
    ensures
        r == it_bits(flags),
{
    proof {
        let f = flags;
        assert((f & 2u8) >> 1u8 <= 1u8) by (bit_vector);
        assert(((f & 2u8) >> 1u8 == 1u8) == (f & 2u8 == 2u8)) by (bit_vector);
    }
    (((flags & MASK_SMP_BITS) >> 1) + 1) * 8
}

/// Whether IT sample flags mark the sample as compressed.
pub fn sample_compressed(flags: u8) -> (r: bool)
    ensures
        r == it_compressed(flags),
{
    let r = ((flags & MASK_SMP_COMP) >> 3) == 1;
    proof {
        let f = flags;
        assert((((f & 8u8) >> 3u8) == 1u8) == (f & 8u8 == 8u8)) by (bit_vector);
    }
    r
}

/// The error for a file that is not an IT module.
pub open spec fn it_invalid() -> ErrorView {
    err_view(ErrorKind::InvalidModule, "File is not a valid Impulse Tracker module"@)
}

/// The error for an IT module packed with ziRCON compression.
pub open spec fn it_zircon() -> ErrorView {
    err_view(ErrorKind::UnsupportedFormat, "Unsupported IT: Uses 'ziRCON' sample compression"@)
}

/// The checks an IT module must pass.
pub open spec fn it_validate(s: Seq<u8>) -> Result<(), ErrorView> {
    if s.len() < 192 {
        Err(it_invalid())
    } else if bytes_at(s, 0, seq![0x7au8, 0x69, 0x52, 0x43, 0x4f, 0x4e]) {
        Err(it_zircon())
    } else if !bytes_at(s, 0, seq![0x49u8, 0x4D, 0x50, 0x4D]) {
        Err(it_invalid())
    } else {
        Ok(())
    }
}

/// The sample header pointers from number `i` on, appended to `acc`; the
/// list of `n` pointers starts at `list`. An offset past 0xFFFF, or a pointer
/// past the end, is out of bounds.
pub open spec fn it_ptrs(s: Seq<u8>, list: int, n: int, i: int, acc: Seq<u32>) -> Result<Seq<u32>, ErrorView>
    decreases n - i,
{
    if i >= n {
        Ok(acc)
    } else if list + 4 * i > 0xffff {
        Err(oob_view())
    } else {
        match u32le_at(s, list + 4 * i) {
            None => Err(oob_view()),
            Some(p) => it_ptrs(s, list, n, i + 1, acc.push(p)),
        }
    }
}

/// The samples whose headers `ptrs` point to, from number `i` on, appended to
/// `acc`. Empty samples are skipped; the list stops at the first uncompressed
/// sample whose data runs past the end of the module.
pub open spec fn it_samples(s: Seq<u8>, ptrs: Seq<u32>, i: int, acc: Seq<SampleModel>) -> Result<Seq<SampleModel>, ErrorView>
    decreases ptrs.len() - i,
{
    if i < 0 || i >= ptrs.len() {
        Ok(acc)
    } else {
        let off = ptrs[i] as int;
        match u32le_at(s, off + 0x30) {
            None => Err(oob_view()),
            Some(len) => if len == 0 {
                it_samples(s, ptrs, i + 1, acc)
            } else {
                match (u32le_at(s, off + 0x48), u8_at(s, off + 0x12)) {
                    (Some(ptr), Some(flags)) => {
                        let bits = it_bits(flags);
                        let comp = it_compressed(flags);
                        let blen = len * (bits / 8);
                        if blen > u32::MAX {
                            Err(oob_view())
                        } else if !comp && ptr + blen > u32::MAX {
                            Err(oob_view())
                        } else if !comp && ptr + blen > s.len() {
                            Ok(acc)
                        } else {
                            match (text_at(s, off + 0x04, 12), text_at(s, off + 0x14, 26), u32le_at(s, off + 0x3C)) {
                                (Some(filename), Some(name), Some(rate)) => it_samples(
                                    s,
                                    ptrs,
                                    i + 1,
                                    acc.push(
                                        SampleModel {
                                            name,
                                            filename,
                                            raw_index: i as usize,
                                            len: blen as usize,
                                            ptr: ptr as usize,
                                            flags,
                                            bits,
                                            rate,
                                            loop_start: 0,
                                            loop_end: 0,
                                            is_stereo: false,
                                            is_compressed: comp,
                                            is_interleaved: false,
                                            is_readable: false,
                                            loop_type: LoopType::Off,
                                        },
                                    ),
                                ),
                                _ => Err(oob_view()),
                            }
                        }
                    },
                    _ => Err(oob_view()),
                }
            },
        }
    }
}

/// An IT module as the contracts see it.
pub struct ItModel {
    pub title: Seq<char>,
    pub buf: Seq<u8>,
    pub version: u16,
    pub compat_ver: u16,
    pub samples: Seq<SampleModel>,
}

/// Reading an IT module from its bytes.
pub open spec fn it_load(s: Seq<u8>) -> Result<ItModel, ErrorView> {
    match it_validate(s) {
        Err(e) => Err(e),
        Ok(()) => {
            let list = 0xc0 + le16(s, 0x20) + 4 * le16(s, 0x22);
            if 4 * le16(s, 0x22) > 0xffff || list > 0xffff {
                Err(oob_view())
            } else {
                match it_ptrs(s, list, le16(s, 0x24), 0, Seq::empty()) {
                    Err(e) => Err(e),
                    Ok(ptrs) => match it_samples(s, ptrs, 0, Seq::empty()) {
                        Err(e) => Err(e),
                        Ok(samples) => Ok(
                            ItModel {
                                title: field_text(s.subrange(4, 30)),
                                buf: s,
                                version: le16(s, 0x28) as u16,
                                compat_ver: le16(s, 0x2A) as u16,
                                samples,
                            },
                        ),
                    },
                }
            }
        },
    }
}

/// The PCM data of sample `index`: compressed samples decompressed, 8-bit
/// samples converted by `make_signed_u8`, 16-bit samples as stored.
pub open spec fn it_pcm(m: ItModel, index: int) -> Result<Seq<u8>, ErrorView> {
    let smp = m.samples[index];
    if smp.is_compressed {
        if smp.ptr > m.buf.len() {
            Err(oob_view())
        } else {
            decompress_sample_spec(
                m.buf.subrange(smp.ptr as int, m.buf.len() as int),
                (smp.len as u32) as int,
                smp.bits,
                m.compat_ver == 0x0215,
            )
        }
    } else if smp.ptr + smp.len > m.buf.len() {
        Err(oob_view())
    } else if smp.bits == 8 {
        Ok(signed_u8_spec(m.buf.subrange(smp.ptr as int, smp.ptr + smp.len)))
    } else {
        Ok(m.buf.subrange(smp.ptr as int, smp.ptr + smp.len))
    }
}

/// An Impulse Tracker module.
pub struct ITFile {
    title: String,
    buf: Vec<u8>,
    pcm_cache: Vec<Vec<u8>>,
    version: u16,
    compat_ver: u16,
    smp_num: u16,
    smp_data: Vec<TrackerSample>,
}

impl View for ITFile {
    type V = ItModel;

    closed spec fn view(&self) -> ItModel {
        ItModel {
            title: self.title@,
            buf: self.buf@,
            version: self.version,
            compat_ver: self.compat_ver,
            samples: samples_view(self.smp_data@),
        }
    }
}

impl ITFile {
    /// The fields agree: one cache entry per sample, and each filled entry
    /// holds the decompressed data of its (compressed) sample.
    pub closed spec fn wf(&self) -> bool {
        &&& self.pcm_cache@.len() == self.smp_data@.len()
        &&& self.smp_num as int == self.smp_data@.len()
        &&& forall|i: int|
            0 <= i < self.pcm_cache@.len() && self.pcm_cache@[i]@.len() > 0 ==> {
                &&& self.smp_data@[i].is_compressed
                &&& it_pcm(self@, i) == Ok::<Seq<u8>, ErrorView>(self.pcm_cache@[i]@)
            }
    }

    /// Checks the header of an IT module.
    pub fn validate(buf: &[u8]) -> (r: Result<(), XmoditsError>)
        ensures
            match it_validate(buf@) {
                Ok(()) => r is Ok,
                Err(e) => r is Err && r->Err_0@ == e,
            },
    {
        if buf.len() < IT_HEADER_LEN {
            return Err(XmoditsError::invalid("File is not a valid Impulse Tracker module"));
        }
        if matches_at(buf, 0, &ZIRCON) {
            return Err(XmoditsError::unsupported("Unsupported IT: Uses 'ziRCON' sample compression"));
        }
        if !matches_at(buf, 0, &IT_HEADER_ID) {
            return Err(XmoditsError::invalid("File is not a valid Impulse Tracker module"));
        }
        Ok(())
    }

    /// Reads an IT module: its header, its sample header pointers and the
    /// samples they point to.
    pub fn load_from_buf(buf: Vec<u8>) -> (r: Result<ITFile, XmoditsError>)
        ensures
            match it_load(buf@) {
                Ok(m) => r is Ok && r->Ok_0@ == m && r->Ok_0.wf(),
                Err(e) => r is Err && r->Err_0@ == e,
            },
    {
        match Self::validate(buf.as_slice()) {
            Ok(()) => {},
            Err(e) => return Err(e),
        }
        let b = buf.as_slice();
        let title: String = read_string(b, 0x0004, 26).unwrap();
        let ord_num: u16 = read_u16_le(b, 0x0020).unwrap();
        let ins_num: u16 = read_u16_le(b, 0x0022).unwrap();
        let smp_num: u16 = read_u16_le(b, 0x0024).unwrap();
        let version: u16 = read_u16_le(b, 0x0028).unwrap();
        let compat_ver: u16 = read_u16_le(b, 0x002A).unwrap();
        let smp_ptr_list: u16 = match ins_num.checked_mul(4) {
            None => return Err(XmoditsError::OutOfBounds),
            Some(x) => match 0x00c0u16.checked_add(ord_num) {
                None => return Err(XmoditsError::OutOfBounds),
                Some(h) => match h.checked_add(x) {
                    None => return Err(XmoditsError::OutOfBounds),
                    Some(y) => y,
                },
            },
        };
        let mut smp_ptrs: Vec<u32> = Vec::with_capacity(smp_num as usize);
        let mut i: u16 = 0;
        while i < smp_num
            invariant
                b@ == buf@,
                it_validate(b@) is Ok,
                smp_ptr_list as int == 0xc0 + le16(b@, 0x20) + 4 * le16(b@, 0x22),
                4 * le16(b@, 0x22) <= 0xffff,
                b@.len() >= 192,
                i <= smp_num,
                smp_ptrs@.len() == i,
                smp_num as int == le16(b@, 0x24),
                it_ptrs(b@, smp_ptr_list as int, smp_num as int, i as int, smp_ptrs@) == it_ptrs(
                    b@,
                    smp_ptr_list as int,
                    smp_num as int,
                    0,
                    Seq::empty(),
                ),
            decreases smp_num - i,
        {
            let index: u16 = match i.checked_mul(4) {
                None => return Err(XmoditsError::OutOfBounds),
                Some(x) => match smp_ptr_list.checked_add(x) {
                    None => return Err(XmoditsError::OutOfBounds),
                    Some(y) => y,
                },
            };
            match read_u32_le(b, index as usize) {
                None => return Err(XmoditsError::OutOfBounds),
                Some(p) => smp_ptrs.push(p),
            }
            i += 1;
        }
        let smp_data = match build_samples(b, &smp_ptrs) {
            Ok(d) => d,
            Err(e) => return Err(e),
        };
        let smp_num: u16 = smp_data.len() as u16;
        let mut pcm_cache: Vec<Vec<u8>> = Vec::new();
        let mut k: usize = 0;
        while k < smp_data.len()
            invariant
                k <= smp_data@.len(),
                pcm_cache@.len() == k,
                forall|j: int| 0 <= j < k ==> pcm_cache@[j]@.len() == 0,
            decreases smp_data@.len() - k,
        {
            pcm_cache.push(Vec::new());
            k += 1;
        }
        Ok(ITFile { title, smp_num, smp_data, version, compat_ver, buf, pcm_cache })
    }
}

impl ITFile {
    /// The PCM data of sample `index`, ready for a WAV file. Compressed
    /// samples are decompressed once and kept.
    pub fn pcm(&mut self, index: usize) -> (r: Result<Vec<u8>, XmoditsError>)
        requires
            old(self).wf(),
            index < old(self)@.samples.len(),
        ensures
            final(self).wf(),
            final(self)@ == old(self)@,
            match it_pcm(old(self)@, index as int) {
                Ok(s) => r is Ok && r->Ok_0@ == s,
                Err(e) => r is Err && r->Err_0@ == e,
            },
    {
        let ptr = self.smp_data[index].ptr;
        let len = self.smp_data[index].len;
        let bits = self.smp_data[index].bits;
        let is_compressed = self.smp_data[index].is_compressed;
        assert(self.smp_data@[index as int]@ == self@.samples[index as int]);
        if is_compressed {
            if self.pcm_cache[index].len() == 0 {
                if ptr > self.buf.len() {
                    return Err(XmoditsError::OutOfBounds);
                }
                let data = match decompress_sample(
                    slice_subrange(self.buf.as_slice(), ptr, self.buf.len()),
                    len as u32,
                    bits,
                    self.compat_ver == IT215,
                ) {
                    Ok(d) => d,
                    Err(e) => return Err(e),
                };
                let ghost before = self@;
                let out = slice_to_vec(data.as_slice());
                self.pcm_cache[index] = data;
                assert(self@ == before);
                return Ok(out);
            }
            return Ok(slice_to_vec(self.pcm_cache[index].as_slice()));
        }
        if ptr > self.buf.len() || self.buf.len() - ptr < len {
            return Err(XmoditsError::OutOfBounds);
        }
        let raw = slice_subrange(self.buf.as_slice(), ptr, ptr + len);
        if bits == 8 {
            Ok(make_signed_u8(raw))
        } else {
            Ok(slice_to_vec(raw))
        }
    }

    /// Number of samples the module contains.
    pub fn number_of_samples(&self) -> (r: usize)
        requires
            self.wf(),
        ensures
            r == self@.samples.len(),
    {
        self.smp_num as usize
    }

    /// Name of the module.
    pub fn module_name(&self) -> (r: &str)
        ensures
            r@ == self@.title,
    {
        self.title.as_str()
    }

    /// The samples the module lists.
    pub fn list_sample_data(&self) -> (r: &[TrackerSample])
        ensures
            samples_view(r@) == self@.samples,
    {
        self.smp_data.as_slice()
    }

    /// Name of the format.
    pub fn format(&self) -> (r: &'static str)
        ensures
            r@ == "Impulse Tracker"@,
    {
        "Impulse Tracker"
    }
}

fn build_samples(buf: &[u8], smp_ptrs: &Vec<u32>) -> (r: Result<Vec<TrackerSample>, XmoditsError>)
    ensures
        match it_samples(buf@, smp_ptrs@, 0, Seq::empty()) {
            Ok(v) => r is Ok && samples_view(r->Ok_0@) == v && v.len() <= smp_ptrs@.len(),
            Err(e) => r is Err && r->Err_0@ == e,
        },
{
    let mut sample_data: Vec<TrackerSample> = Vec::with_capacity(smp_ptrs.len());
    let ghost goal = it_samples(buf@, smp_ptrs@, 0, Seq::empty());
    let mut index: usize = 0;
    let _l = buf.len();
    assert(samples_view(sample_data@) =~= Seq::<SampleModel>::empty());
    while index < smp_ptrs.len()
        invariant
            index <= smp_ptrs@.len(),
            sample_data@.len() <= index,
            buf@.len() <= usize::MAX,
            goal == it_samples(buf@, smp_ptrs@, 0, Seq::empty()),
            it_samples(buf@, smp_ptrs@, index as int, samples_view(sample_data@)) == goal,
        decreases smp_ptrs@.len() - index,
    {
        let offset: usize = smp_ptrs[index] as usize;
        let len: u32 = match read_u32_le_at(buf, offset, 0x0030) {
            Some(l) => l,
            None => return Err(XmoditsError::OutOfBounds),
        };
        if len == 0 {
            index += 1;
            continue ;
        }
        let ptr: u32 = match read_u32_le_at(buf, offset, 0x0048) {
            Some(p) => p,
            None => return Err(XmoditsError::OutOfBounds),
        };
        let flags: u8 = match read_u8_at(buf, offset, 0x0012) {
            Some(f) => f,
            None => return Err(XmoditsError::OutOfBounds),
        };
        let bits: u8 = sample_bits(flags);
        let is_compressed: bool = sample_compressed(flags);
        let is_stereo: bool = false;
        // convert to length in bytes
        let len: u32 = match len.checked_mul((bits / 8) as u32) {
            Some(l) => l,
            None => return Err(XmoditsError::OutOfBounds),
        };
        if !is_compressed {
            // stop at the first sample whose data runs past the end
            match ptr.checked_add(len) {
                None => return Err(XmoditsError::OutOfBounds),
                Some(end) => if end as usize > buf.len() {
                    return Ok(sample_data);
                },
            }
        }
        let filename: String = match read_string_at(buf, offset, 0x0004, 12) {
            Some(f) => f,
            None => return Err(XmoditsError::OutOfBounds),
        };
        let name: String = match read_string_at(buf, offset, 0x0014, 26) {
            Some(n) => n,
            None => return Err(XmoditsError::OutOfBounds),
        };
        let rate: u32 = match read_u32_le_at(buf, offset, 0x003C) {
            Some(r) => r,
            None => return Err(XmoditsError::OutOfBounds),
        };
        let ghost before = samples_view(sample_data@);
        sample_data.push(
            TrackerSample {
                name,
                filename,
                raw_index: index,
                len: len as usize,
                ptr: ptr as usize,
                flags,
                bits,
                rate,
                loop_start: 0,
                loop_end: 0,
                is_stereo,
                is_compressed,
                is_interleaved: false,
                is_readable: false,
                loop_type: LoopType::Off,
            },
        );
        assert(samples_view(sample_data@) =~= before.push(sample_data@.last()@));
        index += 1;
    }
    Ok(sample_data)
}

} // verus!

verus! {

/// The samples listed from pointer `i` on keep the property that the data
/// of each uncompressed one lies inside the module, when the samples before
/// do.
proof fn lemma_it_samples_inside(s: Seq<u8>, ptrs: Seq<u32>, i: int, acc: Seq<SampleModel>)
    requires
        s.len() <= usize::MAX,
        forall|k: int| 0 <= k < acc.len() && !acc[k].is_compressed ==> acc[k].ptr + acc[k].len <= s.len(),
    ensures
        it_samples(s, ptrs, i, acc) matches Ok(v) ==> forall|k: int|
            0 <= k < v.len() && !v[k].is_compressed ==> v[k].ptr + v[k].len <= s.len(),
    decreases ptrs.len() - i,
{
    if 0 <= i < ptrs.len() {
        let off = ptrs[i] as int;
        match u32le_at(s, off + 0x30) {
            None => {},
            Some(len) => if len == 0 {
                lemma_it_samples_inside(s, ptrs, i + 1, acc);
            } else {
                match (u32le_at(s, off + 0x48), u8_at(s, off + 0x12)) {
                    (Some(ptr), Some(flags)) => {
                        let bits = it_bits(flags);
                        let comp = it_compressed(flags);
                        let blen = len * (bits / 8);
                        if blen <= u32::MAX && !(!comp && ptr + blen > u32::MAX) && !(!comp && ptr + blen
                            > s.len()) {
                            match (text_at(s, off + 0x04, 12), text_at(s, off + 0x14, 26), u32le_at(s, off + 0x3C)) {
                                (Some(filename), Some(name), Some(rate)) => {
                                    lemma_it_samples_inside(
                                        s,
                                        ptrs,
                                        i + 1,
                                        acc.push(
                                            SampleModel {
                                                name,
                                                filename,
                                                raw_index: i as usize,
                                                len: blen as usize,
                                                ptr: ptr as usize,
                                                flags,
                                                bits,
                                                rate,
                                                loop_start: 0,
                                                loop_end: 0,
                                                is_stereo: false,
                                                is_compressed: comp,
                                                is_interleaved: false,
                                                is_readable: false,
                                                loop_type: LoopType::Off,
                                            },
                                        ),
                                    );
                                },
                                _ => {},
                            }
                        }
                    },
                    _ => {},
                }
            },
        }
    }
}

/// Every uncompressed sample an IT module lists can be read: its data lies
/// inside the module, so asking for its PCM data succeeds.
pub proof fn law_it_samples_readable(s: Seq<u8>)
    requires
        s.len() <= usize::MAX,
    ensures
        it_load(s) matches Ok(m) ==> forall|i: int|
            0 <= i < m.samples.len() && !m.samples[i].is_compressed ==> #[trigger] it_pcm(m, i) is Ok,
{
    if it_load(s) is Ok {
        let list = 0xc0 + le16(s, 0x20) + 4 * le16(s, 0x22);
        match it_ptrs(s, list, le16(s, 0x24), 0, Seq::empty()) {
            Ok(ptrs) => {
                lemma_it_samples_inside(s, ptrs, 0, Seq::empty());
            },
            Err(_) => {},
        }
    }
}

} // verus!

verus! {

/// Whether the IT sample header at `off` describes a sample with data: its
/// length field is not zero.
pub open spec fn it_holds_sample(s: Seq<u8>, off: int) -> bool {
    le32(s, off + 0x30) != 0
}

/// Whether the data of the sample whose header is at `off` ends inside the
/// module; compressed data is measured when it is decompressed, so it always
/// counts as fitting here.
pub open spec fn it_data_fits(s: Seq<u8>, off: int) -> bool {
    it_compressed(s[off + 0x12]) || le32(s, off + 0x48) + le32(s, off + 0x30) * (it_bits(s[off + 0x12]) / 8)
        <= s.len()
}

/// Whether sample `m` is the one the IT sample header at `off` describes:
/// its name, its length in bytes, where its data starts, whether it is
/// compressed, and its sample rate.
pub open spec fn it_sample_from(s: Seq<u8>, off: int, m: SampleModel) -> bool {
    &&& m.name == field_text(s.subrange(off + 0x14, off + 0x2e))
    &&& m.len == le32(s, off + 0x30) * (it_bits(s[off + 0x12]) / 8)
    &&& m.ptr == le32(s, off + 0x48)
    &&& m.is_compressed == it_compressed(s[off + 0x12])
    &&& m.rate == le32(s, off + 0x3C)
}

/// The offset of sample header `i`: the `i`-th little-endian 32-bit pointer
/// of the list that follows the header (0xC0 bytes), the order list and the
/// instrument pointers.
pub open spec fn it_hdr_offset(s: Seq<u8>, i: int) -> int {
    le32(s, 0xc0 + le16(s, 0x20) + 4 * le16(s, 0x22) + 4 * i)
}

/// The sample header pointers read from the list at `list`.
proof fn lemma_it_ptrs(s: Seq<u8>, list: int, n: int, i: int, acc: Seq<u32>)
    requires
        0 <= i <= n,
        acc.len() == i,
    ensures
        it_ptrs(s, list, n, i, acc) matches Ok(v) ==> {
            &&& v.len() == n
            &&& v.subrange(0, i) == acc
            &&& forall|k: int| i <= k < n ==> #[trigger] v[k] as int == le32(s, list + 4 * k)
        },
    decreases n - i,
{
    if i < n {
        if list + 4 * i <= 0xffff {
            match u32le_at(s, list + 4 * i) {
                None => {},
                Some(p) => {
                    assert(p as int == le32(s, list + 4 * i));
                    lemma_it_ptrs(s, list, n, i + 1, acc.push(p));
                    match it_ptrs(s, list, n, i + 1, acc.push(p)) {
                        Ok(v) => {
                            assert(v[i] == v.subrange(0, i + 1)[i]);
                            assert(v.subrange(0, i) =~= v.subrange(0, i + 1).subrange(0, i));
                            assert(acc.push(p).subrange(0, i) =~= acc);
                        },
                        Err(_) => {},
                    }
                },
            }
        }
    } else {
        assert(acc.subrange(0, i) =~= acc);
    }
}

} // verus!

verus! {

/// The samples listed from header pointer `i` on extend `acc`: each is the
/// one a later header describes, in order, and every header with a length
/// is listed as long as no header before it (from `i` on) holds
/// uncompressed data that runs past the end.
#[verifier::spinoff_prover]
#[verifier::rlimit(80)]
proof fn lemma_it_samples_listed(s: Seq<u8>, ptrs: Seq<u32>, i: int, acc: Seq<SampleModel>)
    requires
        0 <= i <= ptrs.len() <= 0x10000,
    ensures
        it_samples(s, ptrs, i, acc) matches Ok(v) ==> {
            &&& acc.len() <= v.len()
            &&& v.subrange(0, acc.len() as int) == acc
            &&& forall|k: int|
                acc.len() <= k < v.len() ==> i <= #[trigger] v[k].raw_index < ptrs.len() && it_sample_from(
                    s,
                    ptrs[v[k].raw_index as int] as int,
                    v[k],
                )
            &&& forall|k: int| acc.len() <= k < v.len() - 1 ==> #[trigger] v[k].raw_index < v[k + 1].raw_index
            &&& forall|j: int|
                i <= j < ptrs.len() && it_holds_sample(s, ptrs[j] as int) && (forall|l: int|
                    i <= l <= j && #[trigger] it_holds_sample(s, ptrs[l] as int) ==> it_data_fits(
                        s,
                        ptrs[l] as int,
                    )) ==> exists|k: int| acc.len() <= k < v.len() && #[trigger] v[k].raw_index == j
        },
    decreases ptrs.len() - i,
{
    if i < ptrs.len() {
        let off = ptrs[i] as int;
        match u32le_at(s, off + 0x30) {
            None => {},
            Some(len) => {
                assert(len as int == le32(s, off + 0x30));
                if len == 0 {
                    lemma_it_samples_listed(s, ptrs, i + 1, acc);
                    match it_samples(s, ptrs, i + 1, acc) {
                        Ok(v) => {
                            assert forall|j: int|
                                i <= j < ptrs.len() && it_holds_sample(s, ptrs[j] as int) && (forall|l: int|
                                    i <= l <= j && #[trigger] it_holds_sample(s, ptrs[l] as int) ==> it_data_fits(
                                        s,
                                        ptrs[l] as int,
                                    )) implies exists|k: int| acc.len() <= k < v.len() && #[trigger] v[k].raw_index
                                == j by {
                                if j == i {
                                    assert(!it_holds_sample(s, off));
                                }
                            }
                        },
                        Err(_) => {},
                    }
                } else {
                    match (u32le_at(s, off + 0x48), u8_at(s, off + 0x12)) {
                        (Some(ptr), Some(flags)) => {
                            assert(ptr as int == le32(s, off + 0x48));
                            let bits = it_bits(flags);
                            let comp = it_compressed(flags);
                            let blen = len * (bits / 8);
                            if blen > u32::MAX {
                            } else if !comp && ptr + blen > u32::MAX {
                            } else if !comp && ptr + blen > s.len() {
                                assert(acc.subrange(0, acc.len() as int) =~= acc);
                                assert(it_holds_sample(s, off) && !it_data_fits(s, off));
                            } else {
                                match (text_at(s, off + 0x04, 12), text_at(s, off + 0x14, 26), u32le_at(s, off + 0x3C)) {
                                    (Some(filename), Some(name), Some(rate)) => {
                                        let m = SampleModel {
                                            name,
                                            filename,
                                            raw_index: i as usize,
                                            len: blen as usize,
                                            ptr: ptr as usize,
                                            flags,
                                            bits,
                                            rate,
                                            loop_start: 0,
                                            loop_end: 0,
                                            is_stereo: false,
                                            is_compressed: comp,
                                            is_interleaved: false,
                                            is_readable: false,
                                            loop_type: LoopType::Off,
                                        };
                                        assert(it_sample_from(s, off, m));
                                        lemma_it_samples_listed(s, ptrs, i + 1, acc.push(m));
                                        match it_samples(s, ptrs, i + 1, acc.push(m)) {
                                            Ok(v) => {
                                                let a = acc.len() as int;
                                                assert(v[a] == v.subrange(0, a + 1)[a]);
                                                assert(v[a] == m);
                                                assert(v.subrange(0, a) =~= v.subrange(0, a + 1).subrange(0, a));
                                                assert(acc.push(m).subrange(0, a) =~= acc);
                                                assert forall|k: int| a <= k < v.len() - 1 implies #[trigger] v[k].raw_index
                                                    < v[k + 1].raw_index by {
                                                    if k == a {
                                                        assert(a + 1 <= k + 1);
                                                    }
                                                }
                                                assert forall|j: int|
                                                    i <= j < ptrs.len() && it_holds_sample(s, ptrs[j] as int) && (forall|l: int|
                                                        i <= l <= j && #[trigger] it_holds_sample(s, ptrs[l] as int)
                                                            ==> it_data_fits(s, ptrs[l] as int)) implies exists|k: int|
                                                    a <= k < v.len() && #[trigger] v[k].raw_index == j by {
                                                    if j == i {
                                                        assert(v[a].raw_index == j);
                                                    } else {
                                                        assert(forall|l: int|
                                                            i + 1 <= l <= j && #[trigger] it_holds_sample(s, ptrs[l] as int)
                                                                ==> it_data_fits(s, ptrs[l] as int));
                                                    }
                                                }
                                            },
                                            Err(_) => {},
                                        }
                                    },
                                    _ => {},
                                }
                            }
                        },
                        _ => {},
                    }
                }
            },
        }
    } else {
        assert(acc.subrange(0, acc.len() as int) =~= acc);
    }
}

} // verus!

verus! {

/// Where the samples of an Impulse Tracker module come from: the sample
/// header pointers are the SmpNum little-endian 32-bit values that follow
/// the 0xC0-byte header, the OrdNum orders and the InsNum instrument
/// pointers. Every listed sample is the one the header at such a pointer
/// describes (name, length in bytes, data offset, compression, rate), the samples
/// come in the order of their pointers, and every header with a length is
/// listed unless an earlier one holds uncompressed data that runs past the
/// end of the module.
pub proof fn law_it_samples_from_pointer_list(s: Seq<u8>)
    ensures
        it_load(s) matches Ok(m) ==> {
            &&& forall|k: int|
                0 <= k < m.samples.len() ==> #[trigger] m.samples[k].raw_index < le16(s, 0x24) && it_sample_from(
                    s,
                    it_hdr_offset(s, m.samples[k].raw_index as int),
                    m.samples[k],
                )
            &&& forall|k: int| 0 <= k < m.samples.len() - 1 ==> #[trigger] m.samples[k].raw_index < m.samples[k
                + 1].raw_index
            &&& forall|j: int|
                0 <= j < le16(s, 0x24) && #[trigger] it_holds_sample(s, it_hdr_offset(s, j)) && (forall|l: int|
                    0 <= l <= j && #[trigger] it_holds_sample(s, it_hdr_offset(s, l)) ==> it_data_fits(
                        s,
                        it_hdr_offset(s, l),
                    )) ==> exists|k: int| 0 <= k < m.samples.len() && #[trigger] m.samples[k].raw_index == j
        },
{
    if it_load(s) is Ok {
        let first = 0xc0 + le16(s, 0x20) + 4 * le16(s, 0x22);
        let n = le16(s, 0x24);
        lemma_it_ptrs(s, first, n, 0, Seq::empty());
        let ptrs = it_ptrs(s, first, n, 0, Seq::empty())->Ok_0;
        assert(ptrs.len() == n);
        lemma_it_samples_listed(s, ptrs, 0, Seq::empty());
        assert(forall|i: int| 0 <= i < n ==> ptrs[i] as int == #[trigger] it_hdr_offset(s, i));
        let v = it_samples(s, ptrs, 0, Seq::empty())->Ok_0;
        assert forall|k: int| 0 <= k < v.len() implies #[trigger] v[k].raw_index < n && it_sample_from(
            s,
            it_hdr_offset(s, v[k].raw_index as int),
            v[k],
        ) by {
            assert(ptrs[v[k].raw_index as int] as int == it_hdr_offset(s, v[k].raw_index as int));
        }
        assert forall|j: int|
            0 <= j < n && #[trigger] it_holds_sample(s, it_hdr_offset(s, j)) && (forall|l: int|
                0 <= l <= j && #[trigger] it_holds_sample(s, it_hdr_offset(s, l)) ==> it_data_fits(
                    s,
                    it_hdr_offset(s, l),
                )) implies exists|k: int| 0 <= k < v.len() && #[trigger] v[k].raw_index == j by {
            assert forall|l: int| 0 <= l <= j && #[trigger] it_holds_sample(s, ptrs[l] as int) implies it_data_fits(
                s,
                ptrs[l] as int,
            ) by {
                assert(ptrs[l] as int == it_hdr_offset(s, l));
            }
            assert(ptrs[j] as int == it_hdr_offset(s, j));
        }
    }
}

} // verus!
