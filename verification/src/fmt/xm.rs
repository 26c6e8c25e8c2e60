//! Extended Modules (FastTracker 2).
use crate::bytes::{
    bytes_at, field_text, le16, le32, matches_at, read_string_at, read_u16_le, read_u16_le_at, read_u32_le, read_u32_le_at,
    read_u8_at, text_at, u16le_at, u32le_at, u8_at,
};
use crate::deltadecode::{delta_decode_u16, delta_decode_u8, delta16_spec, delta8_spec};
use crate::error::{err_view, oob_view, ErrorKind, ErrorView, XmoditsError};
use crate::sample::{samples_view, LoopType, SampleModel, TrackerSample};
use vstd::prelude::*;
use vstd::slice::{slice_subrange, slice_to_vec};

verus! {

const XM_HEADER_ID: [u8; 17] = [
    0x45, 0x78, 0x74, 0x65, 0x6e, 0x64, 0x65, 0x64, 0x20, 0x4d, 0x6f, 0x64, 0x75, 0x6c, 0x65, 0x3a, 0x20,
];  // "Extended Module: "

const MOD_PLUGIN_PACKED: [u8; 20] = [
    0x4d, 0x4f, 0x44, 0x20, 0x50, 0x6c, 0x75, 0x67, 0x69, 0x6e, 0x20, 0x70, 0x61, 0x63, 0x6b, 0x65, 0x64,
    0x20, 0x20, 0x20,
];  // "MOD Plugin packed   "

const XM_MAGIC_NUM: u8 = 0x1a;

const XM_MIN_VER: u16 = 0x0104;

const MASK_SMP_BITS: u8 = 0b0001_0000;  // 1 = 16 bit samples, 0 = 8 bit

const XM_SMP_SIZE: usize = 40;

const XM_INS_SIZE: u32 = 263;

/// The two bytes of an XM sample header from which its sample rate is
/// computed: the finetune and the relative note number.
#[derive(PartialEq, Eq, Structural, Clone, Copy, Debug)]
pub struct Tuning {
    pub finetune: i8,
    pub relative_note: i8,
}

/// The text an Extended Module starts with.
pub open spec fn xm_header_id() -> Seq<u8> {
    seq![0x45u8, 0x78, 0x74, 0x65, 0x6e, 0x64, 0x65, 0x64, 0x20, 0x4d, 0x6f, 0x64, 0x75, 0x6c, 0x65, 0x3a, 0x20]
}

/// The tracker name of modules packed by the MOD plugin.
pub open spec fn mod_plugin_packed() -> Seq<u8> {
    seq![0x4du8, 0x4f, 0x44, 0x20, 0x50, 0x6c, 0x75, 0x67, 0x69, 0x6e, 0x20, 0x70, 0x61, 0x63, 0x6b, 0x65, 0x64, 0x20, 0x20, 0x20]
}

/// The checks an Extended Module must pass.
pub open spec fn xm_validate(s: Seq<u8>) -> Result<(), ErrorView> {
    if s.len() < 60 || !bytes_at(s, 0, xm_header_id()) || s[0x25] != 0x1a {
        Err(err_view(ErrorKind::InvalidModule, "Not a valid Extended Module"@))
    } else if bytes_at(s, 0x26, mod_plugin_packed()) {
        Err(err_view(ErrorKind::UnsupportedFormat, "Unsupported XM: Uses 'MOD plugin packed'"@))
    } else if (s[0x3a] as int + 256 * (s[0x3b] as int)) < 0x0104 {
        Err(err_view(ErrorKind::UnsupportedFormat, "Unsupported XM: Version below 0104"@))
    } else {
        Ok(())
    }
}

/// Bits per sample that XM sample flags give: 16 when bit 4 is set, 8 otherwise.
pub open spec fn xm_bits(flags: u8) -> u8 {
    if flags & 0x10u8 == 0x10u8 {
        16
    } else {
        8
    }
}

/// Skipping the pattern headers from number `i` on, from `offset`; each
/// header gives its own length and the size of its data.
pub open spec fn xm_skip_patterns(s: Seq<u8>, n: int, i: int, offset: int) -> Result<int, ErrorView>
    decreases n - i,
{
    if i >= n {
        Ok(offset)
    } else {
        match (u32le_at(s, offset), u16le_at(s, offset + 7)) {
            (Some(h), Some(d)) => {
                let add = h as int + d as int;
                if add > u32::MAX || offset + add > usize::MAX {
                    Err(oob_view())
                } else {
                    xm_skip_patterns(s, n, i + 1, offset + add)
                }
            },
            _ => Err(oob_view()),
        }
    }
}

/// Offset of the instrument headers: past the header of `hdr_size` bytes
/// (from 60) and the `patnum` pattern headers.
pub open spec fn xm_skip_pat_header(s: Seq<u8>, patnum: int, hdr_size: int) -> Result<int, ErrorView> {
    if 60 + hdr_size > usize::MAX {
        Err(oob_view())
    } else if patnum > 256 {
        Err(err_view(ErrorKind::InvalidModule, "Invalid XM: Contains more than 256 patterns"@))
    } else {
        xm_skip_patterns(s, patnum, 0, 60 + hdr_size)
    }
}

/// Reading the sample header at `offset` of an instrument whose sample
/// headers start at `start` and take `total` bytes; the data of the samples
/// before it take `cum` bytes. `None` when the header or the data would run
/// past the end (the instrument's list stops there).
pub open spec fn xm_sample_step(s: Seq<u8>, start: int, total: int, offset: int, cum: int, raw_index: int) -> Result<Option<(SampleModel, Tuning)>, ErrorView> {
    match u32le_at(s, offset) {
        None => Err(oob_view()),
        Some(len32) => {
            let len = len32 as int;
            if 0x10 + offset > usize::MAX {
                Err(oob_view())
            } else if 0x10 + offset > s.len() {
                Ok(None)
            } else if start + total + len > usize::MAX {
                Err(oob_view())
            } else if start + total + len > s.len() {
                Ok(None)
            } else if start + total + cum > usize::MAX {
                Err(oob_view())
            } else {
                match (
                    text_at(s, offset + 0x12, 22),
                    u8_at(s, offset + 0x0e),
                    u8_at(s, offset + 0x0d),
                    u8_at(s, offset + 0x10),
                    u32le_at(s, offset + 0x04),
                    u32le_at(s, offset + 0x08),
                ) {
                    (Some(name), Some(flags), Some(ft), Some(nn), Some(ls), Some(ll)) => if ls as int
                        + ll as int > u32::MAX {
                        Err(oob_view())
                    } else {
                        Ok(
                            Some(
                                (
                                    SampleModel {
                                        name,
                                        filename: name,
                                        raw_index: raw_index as usize,
                                        len: len as usize,
                                        ptr: (start + total + cum) as usize,
                                        flags,
                                        bits: xm_bits(flags),
                                        rate: 0,
                                        loop_start: ls,
                                        loop_end: (ls + ll) as u32,
                                        is_stereo: false,
                                        is_compressed: false,
                                        is_interleaved: false,
                                        is_readable: false,
                                        loop_type: LoopType::Off,
                                    },
                                    Tuning { finetune: ft as i8, relative_note: nn as i8 },
                                ),
                            ),
                        )
                    },
                    _ => Err(oob_view()),
                }
            }
        },
    }
}

/// The samples of an instrument from header `j` of `n` on: the offset and
/// data size reached, and the samples appended to `acc`.
pub open spec fn xm_inst_samples(
    s: Seq<u8>,
    start: int,
    total: int,
    n: int,
    j: int,
    offset: int,
    cum: int,
    acc: Seq<(SampleModel, Tuning)>,
) -> Result<(int, int, Seq<(SampleModel, Tuning)>), ErrorView>
    decreases n - j,
{
    if j >= n {
        Ok((offset, cum, acc))
    } else {
        match xm_sample_step(s, start, total, offset, cum, acc.len() as int) {
            Err(e) => Err(e),
            Ok(None) => Ok((offset, cum, acc)),
            Ok(Some((m, t))) => if cum + m.len > usize::MAX || offset + 40 > usize::MAX {
                Err(oob_view())
            } else {
                xm_inst_samples(s, start, total, n, j + 1, offset + 40, cum + m.len, acc.push((m, t)))
            },
        }
    }
}

/// Reading the instrument at `offset`: the offset of the next one and the
/// samples appended to `acc`. A header size of 0 or past 263 counts as 263.
pub open spec fn xm_instrument(s: Seq<u8>, offset: int, acc: Seq<(SampleModel, Tuning)>) -> Result<(int, Seq<(SampleModel, Tuning)>), ErrorView> {
    match (u32le_at(s, offset), u16le_at(s, offset + 0x1b)) {
        (Some(h), Some(n)) => {
            let hs = if h == 0 || h > 263 { 263int } else { h as int };
            if offset + hs > usize::MAX {
                Err(oob_view())
            } else {
                let start = offset + hs;
                match xm_inst_samples(s, start, 40 * n as int, n as int, 0, start, 0, acc) {
                    Err(e) => Err(e),
                    Ok((o, cum, acc2)) => if o + cum > usize::MAX {
                        Err(oob_view())
                    } else {
                        Ok((o + cum, acc2))
                    },
                }
            }
        },
        _ => Err(oob_view()),
    }
}

/// The samples of the instruments from number `k` of `n` on, at `offset`.
pub open spec fn xm_instruments(s: Seq<u8>, n: int, k: int, offset: int, acc: Seq<(SampleModel, Tuning)>) -> Result<Seq<(SampleModel, Tuning)>, ErrorView>
    decreases n - k,
{
    if k >= n {
        Ok(acc)
    } else {
        match xm_instrument(s, offset, acc) {
            Err(e) => Err(e),
            Ok((o, acc2)) => xm_instruments(s, n, k + 1, o, acc2),
        }
    }
}

/// The samples of all `ins_num` instruments, the first at `ins_offset`.
pub open spec fn xm_build(s: Seq<u8>, ins_offset: int, ins_num: int) -> Result<Seq<(SampleModel, Tuning)>, ErrorView> {
    if ins_num > 128 {
        Err(err_view(ErrorKind::InvalidModule, "Invalid XM: Contains more than 128 instruments"@))
    } else {
        xm_instruments(s, ins_num, 0, ins_offset, Seq::empty())
    }
}

/// The samples that are kept: those with data.
pub open spec fn non_empty(v: Seq<(SampleModel, Tuning)>) -> Seq<(SampleModel, Tuning)> {
    v.filter_map(|x: (SampleModel, Tuning)| if x.0.len != 0 { Some(x) } else { None })
}

/// An Extended Module as the contracts see it. Sample rates are not computed
/// here (they take floating point); each sample's tuning is kept instead.
pub struct XmModel {
    pub module_name: Seq<char>,
    pub buf: Seq<u8>,
    pub samples: Seq<SampleModel>,
    pub tunings: Seq<Tuning>,
}

/// Reading an Extended Module from its bytes, without the header checks.
pub open spec fn xm_load_unchecked(s: Seq<u8>) -> Result<XmModel, ErrorView> {
    match (text_at(s, 0x11, 20), u32le_at(s, 0x3c), u16le_at(s, 0x46), u16le_at(s, 0x48)) {
        (Some(name), Some(hdr), Some(patnum), Some(insnum)) => match xm_skip_pat_header(s, patnum as int, hdr as int) {
            Err(e) => Err(e),
            Ok(ins_offset) => match xm_build(s, ins_offset, insnum as int) {
                Err(e) => Err(e),
                Ok(all) => {
                    let kept = non_empty(all);
                    Ok(
                        XmModel {
                            module_name: name,
                            buf: s,
                            samples: kept.map_values(|x: (SampleModel, Tuning)| x.0),
                            tunings: kept.map_values(|x: (SampleModel, Tuning)| x.1),
                        },
                    )
                },
            },
        },
        _ => Err(oob_view()),
    }
}

/// Reading an Extended Module from its bytes.
pub open spec fn xm_load(s: Seq<u8>) -> Result<XmModel, ErrorView> {
    match xm_validate(s) {
        Err(e) => Err(e),
        Ok(()) => xm_load_unchecked(s),
    }
}

/// The PCM data of sample `index`, delta decoded as 8 or 16-bit values.
pub open spec fn xm_pcm(m: XmModel, index: int) -> Result<Seq<u8>, ErrorView> {
    let smp = m.samples[index];
    if smp.ptr + smp.len > m.buf.len() {
        Err(oob_view())
    } else if smp.bits == 8 {
        Ok(delta8_spec(m.buf.subrange(smp.ptr as int, smp.ptr + smp.len)))
    } else {
        Ok(delta16_spec(m.buf.subrange(smp.ptr as int, smp.ptr + smp.len)))
    }
}

/// An Extended Module.
pub struct XMFile {
    buf: Vec<u8>,
    module_name: String,
    samples: Vec<TrackerSample>,
    tunings: Vec<Tuning>,
    smp_num: usize,
}

impl View for XMFile {
    type V = XmModel;

    closed spec fn view(&self) -> XmModel {
        XmModel {
            module_name: self.module_name@,
            buf: self.buf@,
            samples: samples_view(self.samples@),
            tunings: self.tunings@,
        }
    }
}

/// The pairs of sample views and tunings of two parallel lists.
pub open spec fn pairs_view(s: Seq<TrackerSample>, t: Seq<Tuning>) -> Seq<(SampleModel, Tuning)> {
    Seq::new(s.len(), |i: int| (s[i]@, t[i]))
}

impl XMFile {
    /// One tuning per sample, and the sample count agrees.
    pub closed spec fn wf(&self) -> bool {
        &&& self.tunings@.len() == self.samples@.len()
        &&& self.smp_num == self.samples@.len()
    }

    /// Checks the header of an Extended Module.
    pub fn validate(buf: &[u8]) -> (r: Result<(), XmoditsError>)
        ensures
            match xm_validate(buf@) {
                Ok(()) => r is Ok,
                Err(e) => r is Err && r->Err_0@ == e,
            },
    {
        if buf.len() < 60 || !matches_at(buf, 0x0000, &XM_HEADER_ID) || buf[0x0025] != XM_MAGIC_NUM {
            return Err(XmoditsError::invalid("Not a valid Extended Module"));
        }
        if matches_at(buf, 0x0026, &MOD_PLUGIN_PACKED) {
            return Err(XmoditsError::unsupported("Unsupported XM: Uses 'MOD plugin packed'"));
        }
        let version: u16 = read_u16_le(buf, 0x003A).unwrap();
        if version < XM_MIN_VER {
            return Err(XmoditsError::unsupported("Unsupported XM: Version below 0104"));
        }
        Ok(())
    }

    /// Checks the header, then reads the module.
    pub fn load_from_buf(buf: Vec<u8>) -> (r: Result<XMFile, XmoditsError>)
        ensures
            match xm_load(buf@) {
                Ok(m) => r is Ok && r->Ok_0@ == m && r->Ok_0.wf(),
                Err(e) => r is Err && r->Err_0@ == e,
            },
    {
        match Self::validate(buf.as_slice()) {
            Ok(()) => {},
            Err(e) => return Err(e),
        }
        Self::load_from_buf_unchecked(buf)
    }

    /// Reads the module: its name, the pattern headers it skips, and the
    /// samples of its instruments (those with data).
    pub fn load_from_buf_unchecked(buf: Vec<u8>) -> (r: Result<XMFile, XmoditsError>)
        ensures
            match xm_load_unchecked(buf@) {
                Ok(m) => r is Ok && r->Ok_0@ == m && r->Ok_0.wf(),
                Err(e) => r is Err && r->Err_0@ == e,
            },
    {
        let b = buf.as_slice();
        let module_name: String = match read_string_at(b, 0x0011, 0, 20) {
            Some(n) => n,
            None => return Err(XmoditsError::OutOfBounds),
        };
        let header_size: u32 = match read_u32_le(b, 0x003c) {
            Some(v) => v,
            None => return Err(XmoditsError::OutOfBounds),
        };
        let patnum: u16 = match read_u16_le(b, 0x0046) {
            Some(v) => v,
            None => return Err(XmoditsError::OutOfBounds),
        };
        let insnum: u16 = match read_u16_le(b, 0x0048) {
            Some(v) => v,
            None => return Err(XmoditsError::OutOfBounds),
        };
        let ins_offset: usize = match skip_pat_header(b, patnum as usize, header_size) {
            Ok(o) => o,
            Err(e) => return Err(e),
        };
        let (all_samples, all_tunings) = match build_samples(b, ins_offset, insnum as usize) {
            Ok(v) => v,
            Err(e) => return Err(e),
        };
        // keep the samples with data
        let ghost all = pairs_view(all_samples@, all_tunings@);
        let mut samples: Vec<TrackerSample> = Vec::new();
        let mut tunings: Vec<Tuning> = Vec::new();
        let mut i: usize = 0;
        assert(all.take(0) =~= Seq::<(SampleModel, Tuning)>::empty());
        assert(pairs_view(samples@, tunings@) =~= non_empty(all.take(0)));
        while i < all_samples.len()
            invariant
                all == pairs_view(all_samples@, all_tunings@),
                all_samples@.len() == all_tunings@.len(),
                i <= all_samples@.len(),
                samples@.len() == tunings@.len(),
                pairs_view(samples@, tunings@) == non_empty(all.take(i as int)),
            decreases all_samples@.len() - i,
        {
            proof {
                all.lemma_filter_map_take_succ(
                    |x: (SampleModel, Tuning)| if x.0.len != 0 { Some(x) } else { None },
                    i as int,
                );
            }
            if all_samples[i].len != 0 {
                let ghost before = pairs_view(samples@, tunings@);
                samples.push(all_samples[i].duplicate());
                tunings.push(all_tunings[i]);
                assert(pairs_view(samples@, tunings@) =~= before + seq![all[i as int]]);
            } else {
                assert(pairs_view(samples@, tunings@) =~= non_empty(all.take(i + 1)));
            }
            i += 1;
        }
        assert(all.take(i as int) =~= all);
        let ghost kept = non_empty(all);
        assert(samples_view(samples@) =~= kept.map_values(|x: (SampleModel, Tuning)| x.0));
        assert(tunings@ =~= kept.map_values(|x: (SampleModel, Tuning)| x.1));
        let smp_num: usize = samples.len();
        Ok(XMFile { module_name, buf, samples, tunings, smp_num })
    }

    /// The PCM data of sample `index`, ready for a WAV file.
    pub fn pcm(&self, index: usize) -> (r: Result<Vec<u8>, XmoditsError>)
        requires
            index < self@.samples.len(),
        ensures
            match xm_pcm(self@, index as int) {
                Ok(s) => r is Ok && r->Ok_0@ == s,
                Err(e) => r is Err && r->Err_0@ == e,
            },
    {
        let smp = &self.samples[index];
        assert(smp@ == self@.samples[index as int]);
        if smp.ptr > self.buf.len() || self.buf.len() - smp.ptr < smp.len {
            return Err(XmoditsError::OutOfBounds);
        }
        let mut data = slice_to_vec(slice_subrange(self.buf.as_slice(), smp.ptr, smp.ptr + smp.len));
        if smp.bits == 8 {
            delta_decode_u8(data.as_mut_slice());
        } else {
            delta_decode_u16(data.as_mut_slice());
        }
        Ok(data)
    }

    /// Sets the sample rate of sample `index` (computed from its tuning).
    pub fn set_rate(&mut self, index: usize, rate: u32)
        requires
            old(self).wf(),
            index < old(self)@.samples.len(),
        ensures
            final(self).wf(),
            final(self)@ == (XmModel {
                samples: old(self)@.samples.update(index as int, SampleModel { rate, ..old(self)@.samples[index as int] }),
                ..old(self)@
            }),
    {
        let ghost before = self@;
        self.samples[index].rate = rate;
        assert(samples_view(self.samples@) =~= before.samples.update(index as int, SampleModel { rate, ..before.samples[index as int] }));
    }

    /// The tuning (finetune and relative note) of sample `index`.
    pub fn tuning(&self, index: usize) -> (r: Tuning)
        requires
            self.wf(),
            index < self@.samples.len(),
        ensures
            r == self@.tunings[index as int],
    {
        self.tunings[index]
    }

    /// Number of samples the module contains.
    pub fn number_of_samples(&self) -> (r: usize)
        requires
            self.wf(),
        ensures
            r == self@.samples.len(),
    {
        self.smp_num
    }

    /// Name of the module.
    pub fn module_name(&self) -> (r: &str)
        ensures
            r@ == self@.module_name,
    {
        self.module_name.as_str()
    }

    /// The samples the module lists.
    pub fn list_sample_data(&self) -> (r: &[TrackerSample])
        ensures
            samples_view(r@) == self@.samples,
    {
        self.samples.as_slice()
    }

    /// Name of the format.
    pub fn format(&self) -> (r: &'static str)
        ensures
            r@ == "Extended Module"@,
    {
        "Extended Module"
    }
}

/// Skips the XM pattern headers to reach the instrument headers. Pattern
/// headers do not have a fixed size, so each is read.
fn skip_pat_header(buf: &[u8], patnum: usize, hdr_size: u32) -> (r: Result<usize, XmoditsError>)
    ensures
        match xm_skip_pat_header(buf@, patnum as int, hdr_size as int) {
            Ok(o) => r is Ok && r->Ok_0 == o,
            Err(e) => r is Err && r->Err_0@ == e,
        },
{
    // add 60 to go to pat header
    let mut offset: usize = match 60usize.checked_add(hdr_size as usize) {
        Some(o) => o,
        None => return Err(XmoditsError::OutOfBounds),
    };
    if patnum > 256 {
        return Err(XmoditsError::invalid("Invalid XM: Contains more than 256 patterns"));
    }
    let ghost goal = xm_skip_patterns(buf@, patnum as int, 0, offset as int);
    let mut i: usize = 0;
    while i < patnum
        invariant
            i <= patnum,
            patnum <= 256,
            60 + hdr_size <= usize::MAX,
            goal == xm_skip_patterns(buf@, patnum as int, 0, 60 + hdr_size),
            xm_skip_patterns(buf@, patnum as int, i as int, offset as int) == goal,
        decreases patnum - i,
    {
        let pat_hdr_len: u32 = match read_u32_le(buf, offset) {
            Some(v) => v,
            None => return Err(XmoditsError::OutOfBounds),
        };
        let pat_data_size: u32 = match read_u16_le_at(buf, offset, 0x0007) {
            Some(v) => v as u32,
            None => return Err(XmoditsError::OutOfBounds),
        };
        let add: u32 = match pat_hdr_len.checked_add(pat_data_size) {
            Some(a) => a,
            None => return Err(XmoditsError::OutOfBounds),
        };
        offset = match offset.checked_add(add as usize) {
            Some(o) => o,
            None => return Err(XmoditsError::OutOfBounds),
        };
        i += 1;
    }
    Ok(offset)
}

/// Reads the sample header at `offset`; see `xm_sample_step`.
fn read_sample_header(buf: &[u8], start: usize, total: usize, offset: usize, cum: usize, raw_index: usize) -> (r: Result<Option<(TrackerSample, Tuning)>, XmoditsError>)
    ensures
        match xm_sample_step(buf@, start as int, total as int, offset as int, cum as int, raw_index as int) {
            Ok(None) => r matches Ok(None),
            Ok(Some((m, t))) => r matches Ok(Some((x, y))) && x@ == m && y == t,
            Err(e) => r is Err && r->Err_0@ == e,
        },
{
    let _l = buf.len();
    let len: usize = match read_u32_le(buf, offset) {
        Some(v) => v as usize,
        None => return Err(XmoditsError::OutOfBounds),
    };
    // stop if the header or the data would run past the end
    let hdr_end = match offset.checked_add(0x0010) {
        Some(e) => e,
        None => return Err(XmoditsError::OutOfBounds),
    };
    if hdr_end > buf.len() {
        return Ok(None);
    }
    let data_end = match start.checked_add(total) {
        Some(x) => match x.checked_add(len) {
            Some(y) => y,
            None => return Err(XmoditsError::OutOfBounds),
        },
        None => return Err(XmoditsError::OutOfBounds),
    };
    if data_end > buf.len() {
        return Ok(None);
    }
    let ptr: usize = match (start + total).checked_add(cum) {
        Some(p) => p,
        None => return Err(XmoditsError::OutOfBounds),
    };
    let name: String = match read_string_at(buf, offset, 0x0012, 22) {
        Some(n) => n,
        None => return Err(XmoditsError::OutOfBounds),
    };
    let flags: u8 = match read_u8_at(buf, offset, 0x000e) {
        Some(f) => f,
        None => return Err(XmoditsError::OutOfBounds),
    };
    proof {
        let f = flags;
        assert((f & 0x10u8) >> 4u8 <= 1u8) by (bit_vector);
        assert(((f & 0x10u8) >> 4u8 == 1u8) == (f & 0x10u8 == 0x10u8)) by (bit_vector);
    }
    let bits: u8 = (((flags & MASK_SMP_BITS) >> 4) + 1) * 8;
    let finetune: u8 = match read_u8_at(buf, offset, 0x000d) {
        Some(f) => f,
        None => return Err(XmoditsError::OutOfBounds),
    };
    let notenum: u8 = match read_u8_at(buf, offset, 0x0010) {
        Some(f) => f,
        None => return Err(XmoditsError::OutOfBounds),
    };
    let loop_start: u32 = match read_u32_le_at(buf, offset, 0x0004) {
        Some(v) => v,
        None => return Err(XmoditsError::OutOfBounds),
    };
    let loop_len: u32 = match read_u32_le_at(buf, offset, 0x0008) {
        Some(v) => v,
        None => return Err(XmoditsError::OutOfBounds),
    };
    let loop_end: u32 = match loop_start.checked_add(loop_len) {
        Some(v) => v,
        None => return Err(XmoditsError::OutOfBounds),
    };
    Ok(
        Some(
            (
                TrackerSample {
                    filename: name.clone(),
                    name,
                    raw_index,
                    len,
                    ptr,
                    flags,
                    bits,
                    rate: 0,
                    loop_start,
                    loop_end,
                    is_stereo: false,
                    is_compressed: false,
                    is_interleaved: false,
                    is_readable: false,
                    loop_type: LoopType::Off,
                },
                Tuning { finetune: finetune as i8, relative_note: notenum as i8 },
            ),
        ),
    )
}

/// Reads the instrument at `offset`, appending its samples; gives the offset
/// of the next instrument.
fn read_instrument(buf: &[u8], ins_offset: usize, samples: &mut Vec<TrackerSample>, tunings: &mut Vec<Tuning>) -> (r: Result<usize, XmoditsError>)
    requires
        old(samples)@.len() == old(tunings)@.len(),
    ensures
        match xm_instrument(buf@, ins_offset as int, pairs_view(old(samples)@, old(tunings)@)) {
            Ok((o, acc)) => r is Ok && r->Ok_0 == o && final(samples)@.len() == final(tunings)@.len()
                && pairs_view(final(samples)@, final(tunings)@) == acc,
            Err(e) => r is Err && r->Err_0@ == e,
        },
{
    let ghost acc0 = pairs_view(samples@, tunings@);
    let ghost result = xm_instrument(buf@, ins_offset as int, acc0);
    assert(acc0 == pairs_view(old(samples)@, old(tunings)@));
    let ins_hdr_size: u32 = match read_u32_le(buf, ins_offset) {
        Some(v) => v,
        None => return Err(XmoditsError::OutOfBounds),
    };
    let ins_smp_num: u16 = match read_u16_le_at(buf, ins_offset, 0x001b) {
        Some(v) => v,
        None => return Err(XmoditsError::OutOfBounds),
    };
    let ins_hdr_size: u32 = if ins_hdr_size == 0 || ins_hdr_size > XM_INS_SIZE {
        XM_INS_SIZE
    } else {
        ins_hdr_size
    };
    // skip to sample headers
    let mut offset: usize = match ins_offset.checked_add(ins_hdr_size as usize) {
        Some(o) => o,
        None => return Err(XmoditsError::OutOfBounds),
    };
    // Offset where the sample headers starts
    let start_smp_hdr: usize = offset;
    let total_smp_hdr_size: usize = XM_SMP_SIZE * ins_smp_num as usize;
    // Cumulative sum of sample data size
    let mut smp_len_cumulative: usize = 0;
    let ghost goal = xm_inst_samples(buf@, start_smp_hdr as int, total_smp_hdr_size as int, ins_smp_num as int, 0, start_smp_hdr as int, 0, acc0);
    assert(result == match goal {
        Err(e) => Err(e),
        Ok((o, cum, acc2)) => if o + cum > usize::MAX {
            Err(oob_view())
        } else {
            Ok((o + cum, acc2))
        },
    });
    let mut j: u16 = 0;
    while j < ins_smp_num
        invariant
            j <= ins_smp_num,
            samples@.len() == tunings@.len(),
            result == xm_instrument(buf@, ins_offset as int, pairs_view(old(samples)@, old(tunings)@)),
            result == match goal {
                Err(e) => Err(e),
                Ok((o, cum, acc2)) => if o + cum > usize::MAX {
                    Err(oob_view())
                } else {
                    Ok((o + cum, acc2))
                },
            },
            xm_inst_samples(buf@, start_smp_hdr as int, total_smp_hdr_size as int, ins_smp_num as int, j as int, offset as int, smp_len_cumulative as int, pairs_view(samples@, tunings@)) == goal,
        decreases ins_smp_num - j,
    {
        match read_sample_header(buf, start_smp_hdr, total_smp_hdr_size, offset, smp_len_cumulative, samples.len()) {
            Err(e) => return Err(e),
            Ok(None) => {
                return match offset.checked_add(smp_len_cumulative) {
                    Some(o) => Ok(o),
                    None => Err(XmoditsError::OutOfBounds),
                };
            },
            Ok(Some((smp, tuning))) => {
                let len = smp.len;
                smp_len_cumulative = match smp_len_cumulative.checked_add(len) {
                    Some(c) => c,
                    None => return Err(XmoditsError::OutOfBounds),
                };
                offset = match offset.checked_add(XM_SMP_SIZE) {
                    Some(o) => o,
                    None => return Err(XmoditsError::OutOfBounds),
                };
                let ghost before = pairs_view(samples@, tunings@);
                samples.push(smp);
                tunings.push(tuning);
                assert(pairs_view(samples@, tunings@) =~= before.push((samples@.last()@, tunings@.last())));
            },
        }
        j += 1;
    }
    match offset.checked_add(smp_len_cumulative) {
        Some(o) => Ok(o),
        None => Err(XmoditsError::OutOfBounds),
    }
}

/// Reads the sample headers of all `ins_num` instruments.
fn build_samples(buf: &[u8], ins_offset: usize, ins_num: usize) -> (r: Result<(Vec<TrackerSample>, Vec<Tuning>), XmoditsError>)
    ensures
        match xm_build(buf@, ins_offset as int, ins_num as int) {
            Ok(v) => r is Ok && r->Ok_0.0@.len() == r->Ok_0.1@.len() && pairs_view(r->Ok_0.0@, r->Ok_0.1@) == v,
            Err(e) => r is Err && r->Err_0@ == e,
        },
{
    if ins_num > 128 {
        return Err(XmoditsError::invalid("Invalid XM: Contains more than 128 instruments"));
    }
    let mut samples: Vec<TrackerSample> = Vec::with_capacity(25);
    let mut tunings: Vec<Tuning> = Vec::new();
    let mut offset: usize = ins_offset;
    let ghost goal = xm_instruments(buf@, ins_num as int, 0, ins_offset as int, Seq::empty());
    assert(pairs_view(samples@, tunings@) =~= Seq::<(SampleModel, Tuning)>::empty());
    let mut k: usize = 0;
    while k < ins_num
        invariant
            k <= ins_num <= 128,
            samples@.len() == tunings@.len(),
            goal == xm_instruments(buf@, ins_num as int, 0, ins_offset as int, Seq::empty()),
            xm_instruments(buf@, ins_num as int, k as int, offset as int, pairs_view(samples@, tunings@)) == goal,
        decreases ins_num - k,
    {
        offset = match read_instrument(buf, offset, &mut samples, &mut tunings) {
            Ok(o) => o,
            Err(e) => return Err(e),
        };
        k += 1;
    }
    Ok((samples, tunings))
}

} // verus!

verus! {

/// Whether sample `m` is the one the XM sample header at `off` describes:
/// its name, its length in bytes, its flags and where its loop starts.
#[verifier::opaque]
pub open spec fn xm_sample_from(s: Seq<u8>, off: int, m: SampleModel) -> bool {
    &&& m.name == field_text(s.subrange(off + 0x12, off + 0x28))
    &&& m.len == le32(s, off)
    &&& m.flags == s[off + 0x0e]
    &&& m.loop_start == le32(s, off + 0x04)
}

/// A sample read from the header at `offset` is the one it describes.
proof fn lemma_xm_step_take(s: Seq<u8>, start: int, total: int, offset: int, cum: int, raw_index: int)
    ensures
        xm_sample_step(s, start, total, offset, cum, raw_index) matches Ok(Some((m, _))) ==> xm_sample_from(
            s,
            offset,
            m,
        ),
{
    reveal(xm_sample_from);
}

/// The samples an instrument appends from header `j` on: the first one's
/// data starts after the sample headers and the data already counted
/// (`cum`), and each one's data starts where the one before ends.
proof fn lemma_xm_inst_contiguous(
    s: Seq<u8>,
    start: int,
    total: int,
    n: int,
    j: int,
    offset: int,
    cum: int,
    acc: Seq<(SampleModel, Tuning)>,
)
    requires
        0 <= start,
        0 <= total,
        0 <= cum,
        j <= n,
    ensures
        xm_inst_samples(s, start, total, n, j, offset, cum, acc) matches Ok((_, _, v)) ==> {
            &&& acc.len() <= v.len()
            &&& v.subrange(0, acc.len() as int) == acc
            &&& v.len() > acc.len() ==> v[acc.len() as int].0.ptr == start + total + cum
            &&& forall|k: int| acc.len() <= k < v.len() - 1 ==> #[trigger] v[k + 1].0.ptr == v[k].0.ptr + v[k].0.len
            &&& v.len() - acc.len() <= n - j
            &&& forall|k: int|
                acc.len() <= k < v.len() ==> xm_sample_from(s, offset + 40 * (k - acc.len()), #[trigger] v[k].0)
        },
    decreases n - j,
{
    if j < n {
        match xm_sample_step(s, start, total, offset, cum, acc.len() as int) {
            Err(_) => {},
            Ok(None) => {
                assert(acc.subrange(0, acc.len() as int) =~= acc);
            },
            Ok(Some((m, t))) => {
                lemma_xm_step_take(s, start, total, offset, cum, acc.len() as int);
                if !(cum + m.len > usize::MAX || offset + 40 > usize::MAX) {
                    lemma_xm_inst_contiguous(s, start, total, n, j + 1, offset + 40, cum + m.len, acc.push((m, t)));
                    match xm_inst_samples(s, start, total, n, j + 1, offset + 40, cum + m.len, acc.push((m, t))) {
                        Ok((_, _, v)) => {
                            assert(v[acc.len() as int] == v.subrange(0, acc.len() + 1int)[acc.len() as int]);
                            assert(v.subrange(0, acc.len() as int) =~= v.subrange(0, acc.len() + 1int).subrange(
                                0,
                                acc.len() as int,
                            ));
                            assert(acc.push((m, t)).subrange(0, acc.len() as int) =~= acc);
                            let a = acc.len() as int;
                            assert(v[a] == (m, t));
                            assert forall|k: int| a <= k < v.len() implies xm_sample_from(
                                s,
                                offset + 40 * (k - a),
                                #[trigger] v[k].0,
                            ) by {
                                if k > a {
                                    assert(offset + 40 + 40 * (k - (a + 1)) == offset + 40 * (k - a));
                                }
                            }
                        },
                        Err(_) => {},
                    }
                }
            },
        }
    } else {
        assert(acc.subrange(0, acc.len() as int) =~= acc);
    }
}

/// The sample data of an XM instrument is stored sample after sample: the
/// first sample the instrument adds starts right after its sample headers
/// (40 bytes for each sample the instrument declares, after an instrument
/// header of the size it gives, 263 bytes when that is 0 or larger), and
/// each further sample starts where the previous one ends. The samples it
/// adds are described by its sample headers in turn, one 40-byte header
/// each, at most as many as it declares.
pub proof fn law_xm_instrument_samples_follow_each_other(s: Seq<u8>, offset: int, acc: Seq<(SampleModel, Tuning)>)
    requires
        0 <= offset,
    ensures
        xm_instrument(s, offset, acc) matches Ok((_, v)) ==> {
            let h = le32(s, offset);
            let hs: int = if h == 0 || h > 263 { 263 } else { h };
            let n = le16(s, offset + 0x1b);
            &&& acc.len() <= v.len()
            &&& v.subrange(0, acc.len() as int) == acc
            &&& v.len() > acc.len() ==> v[acc.len() as int].0.ptr == offset + hs + 40 * n
            &&& forall|k: int| acc.len() <= k < v.len() - 1 ==> #[trigger] v[k + 1].0.ptr == v[k].0.ptr + v[k].0.len
            &&& v.len() - acc.len() <= n
            &&& forall|k: int|
                acc.len() <= k < v.len() ==> xm_sample_from(s, offset + hs + 40 * (k - acc.len()), #[trigger] v[k].0)
        },
{
    match (u32le_at(s, offset), u16le_at(s, offset + 0x1b)) {
        (Some(h), Some(n)) => {
            let hs = if h == 0 || h > 263 { 263int } else { h as int };
            let start = offset + hs;
            lemma_xm_inst_contiguous(s, start, 40 * n as int, n as int, 0, start, 0, acc);
        },
        _ => {},
    }
}

} // verus!
