//! Amiga ProTracker modules. This format has the fewest checks.
use crate::bytes::{
    be16, bytes_at, matches_at, read_string, read_string_at, read_u16_be_at, read_u16_le_at, read_u8,
    text_at, u16be_at, u16le_at, u8_at,
};
use crate::error::{err_view, oob_view, ErrorKind, ErrorView, XmoditsError};
use crate::sample::{samples_view, LoopType, ReadStep, SampleModel, SampleStep, TrackerSample};
use crate::signed::{make_signed_u8, signed_u8_spec};
use vstd::prelude::*;
use vstd::slice::slice_subrange;

verus! {

const ALT_FINETUNE_1: [u8; 4] = [0x4D, 0x26, 0x4B, 0x21];  // M&K!

const ALT_FINETUNE_2: [u8; 4] = [0x46, 0x45, 0x53, 0x54];  // FEST

const MOD_XPK_MAGIC: [u8; 4] = [0x50, 0x50, 0x32, 0x30];  // PP20

const MOD_SMP_START: usize = 0x0014;  // offset where title ends & smp data begins

const MOD_SMP_LEN: usize = 0x1e;

const PAT_META: usize = 0x3b8;

/// The error for a file that is not a MOD module.
pub open spec fn mod_invalid() -> ErrorView {
    err_view(ErrorKind::InvalidModule, "Not a valid MOD file"@)
}

/// The checks a MOD module must pass.
pub open spec fn mod_validate(s: Seq<u8>) -> Result<(), ErrorView> {
    if s.len() < 1085 {
        Err(mod_invalid())
    } else if bytes_at(s, 0, seq![0x50u8, 0x50, 0x32, 0x30]) {
        Err(err_view(ErrorKind::UnsupportedFormat, "XPK compressed MOD files are not supported"@))
    } else {
        Ok(())
    }
}

/// Whether the four-byte tag at 0x438 holds a byte outside 33..=125, the mark
/// of a module with 15 samples (Ultimate Soundtracker).
pub open spec fn has_odd_tag_byte(s: Seq<u8>) -> bool {
    exists|j: int| 0x438 <= j < 0x43c && (s[j] <= 32 || s[j] >= 126)
}

/// The largest of the `n` bytes from `off` on (0 when `n` is 0).
pub open spec fn max_byte(s: Seq<u8>, off: int, n: nat) -> u8
    decreases n,
{
    if n == 0 {
        0
    } else {
        let m = max_byte(s, off, (n - 1) as nat);
        if s[off + n - 1] > m {
            s[off + n - 1]
        } else {
            m
        }
    }
}

/// Reading sample header number `i` while the sample data reached `idx`:
/// empty samples are skipped; the list stops at the first sample whose data
/// runs past the end.
pub open spec fn mod_step(s: Seq<u8>, i: int, idx: int) -> Result<SampleStep, ErrorView> {
    let offset = 0x14 + i * 30;
    match u16be_at(s, 0x16 + offset) {
        None => Err(oob_view()),
        Some(raw) => {
            let len = (raw as int * 2) % 65536;
            if len == 0 {
                Ok(SampleStep::Skip)
            } else if len > 128 * 1024 {
                Err(err_view(ErrorKind::InvalidModule, "MOD contains sample exceeding 128KB"@))
            } else if len + idx > s.len() {
                Ok(SampleStep::Stop)
            } else {
                match (text_at(s, offset, 22), u16le_at(s, 0x1A + offset), u16le_at(s, 0x1C + offset)) {
                    (Some(name), Some(ls), Some(ll)) => {
                        let loop_start = ls as int * 16;
                        let loop_end = if ll == 1 { 0 } else { loop_start + ll as int * 16 };
                        Ok(
                            SampleStep::Take(
                                SampleModel {
                                    name,
                                    filename: Seq::empty(),
                                    raw_index: i as usize,
                                    len: len as usize,
                                    ptr: idx as usize,
                                    flags: 0,
                                    bits: 8,
                                    rate: 8363,
                                    loop_start: loop_start as u32,
                                    loop_end: loop_end as u32,
                                    is_stereo: false,
                                    is_compressed: false,
                                    is_interleaved: false,
                                    is_readable: false,
                                    loop_type: LoopType::Off,
                                },
                            ),
                        )
                    },
                    _ => Err(oob_view()),
                }
            }
        },
    }
}

/// The samples from header `i` on, the sample data of the next one starting
/// at `idx`, appended to `acc`; there are `n` headers.
pub open spec fn mod_samples(s: Seq<u8>, n: int, i: int, idx: int, acc: Seq<SampleModel>) -> Result<Seq<SampleModel>, ErrorView>
    decreases n - i,
{
    if i < 0 || i >= n {
        Ok(acc)
    } else {
        match mod_step(s, i, idx) {
            Err(e) => Err(e),
            Ok(SampleStep::Skip) => mod_samples(s, n, i + 1, idx, acc),
            Ok(SampleStep::Stop) => Ok(acc),
            Ok(SampleStep::Take(m)) => mod_samples(s, n, i + 1, idx + m.len, acc.push(m)),
        }
    }
}

/// A MOD module as the contracts see it.
pub struct ModModel {
    pub title: Seq<char>,
    pub buf: Seq<u8>,
    pub samples: Seq<SampleModel>,
}

/// Reading a MOD module from its bytes, without the header checks.
pub open spec fn mod_load_unchecked(s: Seq<u8>) -> Result<ModModel, ErrorView> {
    if s.len() < 0x43c {
        Err(oob_view())
    } else {
        let smp_num = if has_odd_tag_byte(s) { 15int } else { 31int };
        let offset: int = if smp_num == 15 { 480 } else { 0 };
        if 0x3b8 - offset + 128 > s.len() {
            Err(oob_view())
        } else {
            let largest_pat = max_byte(s, 0x3b8 - offset, 128) as int;
            let smp_index = 4 + (0x438 - offset) + (largest_pat + 1) * 1024;
            if smp_index == s.len() {
                Err(err_view(ErrorKind::EmptyModule, Seq::empty()))
            } else if smp_index > s.len() {
                Err(mod_invalid())
            } else {
                match mod_samples(s, smp_num, 0, smp_index, Seq::empty()) {
                    Err(e) => Err(e),
                    Ok(samples) => Ok(ModModel { title: crate::bytes::field_text(s.subrange(0, 20)), buf: s, samples }),
                }
            }
        }
    }
}

/// Reading a MOD module from its bytes.
pub open spec fn mod_load(s: Seq<u8>) -> Result<ModModel, ErrorView> {
    match mod_validate(s) {
        Err(e) => Err(e),
        Ok(()) => mod_load_unchecked(s),
    }
}

/// The PCM data of sample `index`: 8-bit samples converted by `make_signed_u8`.
pub open spec fn mod_pcm(m: ModModel, index: int) -> Result<Seq<u8>, ErrorView> {
    let smp = m.samples[index];
    if smp.ptr + smp.len > m.buf.len() {
        Err(oob_view())
    } else {
        Ok(signed_u8_spec(m.buf.subrange(smp.ptr as int, smp.ptr + smp.len)))
    }
}

/// An Amiga ProTracker module.
pub struct MODFile {
    buf: Vec<u8>,
    title: String,
    smp_num: u8,
    smp_data: Vec<TrackerSample>,
}

impl View for MODFile {
    type V = ModModel;

    closed spec fn view(&self) -> ModModel {
        ModModel { title: self.title@, buf: self.buf@, samples: samples_view(self.smp_data@) }
    }
}

impl MODFile {
    /// The sample count agrees with the sample list.
    pub closed spec fn wf(&self) -> bool {
        self.smp_num as int == self.smp_data@.len()
    }

    /// Checks the header of a MOD module.
    pub fn validate(buf: &[u8]) -> (r: Result<(), XmoditsError>)
        ensures
            match mod_validate(buf@) {
                Ok(()) => r is Ok,
                Err(e) => r is Err && r->Err_0@ == e,
            },
    {
        if buf.len() < 1085 {
            return Err(XmoditsError::invalid("Not a valid MOD file"));
        }
        if matches_at(buf, 0, &MOD_XPK_MAGIC) {
            return Err(XmoditsError::unsupported("XPK compressed MOD files are not supported"));
        }
        Ok(())
    }

    /// Checks the header, then reads the module.
    pub fn load_from_buf(buf: Vec<u8>) -> (r: Result<MODFile, XmoditsError>)
        ensures
            match mod_load(buf@) {
                Ok(m) => r is Ok && r->Ok_0@ == m && r->Ok_0.wf(),
                Err(e) => r is Err && r->Err_0@ == e,
            },
    {
        match Self::validate(buf.as_slice()) {
            Ok(()) => {},
            Err(e) => return Err(e),
        }
        Self::load_from_buf_unchecked(buf)
    }

    /// Reads the module: 15 or 31 sample headers, whose data follows the
    /// patterns.
    pub fn load_from_buf_unchecked(buf: Vec<u8>) -> (r: Result<MODFile, XmoditsError>)
        ensures
            match mod_load_unchecked(buf@) {
                Ok(m) => r is Ok && r->Ok_0@ == m && r->Ok_0.wf(),
                Err(e) => r is Err && r->Err_0@ == e,
            },
    {
        let b = buf.as_slice();
        if b.len() < 0x043c {
            return Err(XmoditsError::OutOfBounds);
        }
        let title: String = read_string(b, 0x0000, 20).unwrap();
        let _alt_finetune: bool = matches_at(b, 0x0438, &ALT_FINETUNE_1) || matches_at(b, 0x0438, &ALT_FINETUNE_2);
        // if it contains any non-ascii, it was probably made with ultimate sound tracker
        let mut odd: bool = false;
        let mut j: usize = 0x0438;
        while j < 0x043c
            invariant
                b@.len() >= 0x43c,
                0x438 <= j <= 0x43c,
                odd == exists|k: int| 0x438 <= k < j && (b@[k] <= 32 || b@[k] >= 126),
            decreases 0x43c - j,
        {
            if b[j] <= 32 || b[j] >= 126 {
                odd = true;
            }
            j += 1;
        }
        let smp_num: u8 = if odd { 15 } else { 31 };
        let offset: usize = if smp_num == 15 { (15 + 1) * 30 } else { 0 };
        let start: usize = PAT_META - offset;
        if b.len() - start < 128 {
            return Err(XmoditsError::OutOfBounds);
        }
        let mut largest_pat: u8 = 0;
        let mut k: usize = 0;
        while k < 128
            invariant
                start + 128 <= b@.len(),
                b@.len() <= usize::MAX,
                k <= 128,
                largest_pat == max_byte(b@, start as int, k as nat),
            decreases 128 - k,
        {
            if b[start + k] > largest_pat {
                largest_pat = b[start + k];
            }
            k += 1;
        }
        // 0x0438 = 4 byte tag to identify mod type add 4 to skip
        let smp_index: usize = 4 + (0x0438 - offset) + (largest_pat as usize + 1) * 1024;
        if smp_index == b.len() {
            return Err(XmoditsError::EmptyModule);
        }
        if smp_index > b.len() {
            return Err(XmoditsError::invalid("Not a valid MOD file"));
        }
        let smp_data = match build_samples(smp_num, b, smp_index) {
            Ok(d) => d,
            Err(e) => return Err(e),
        };
        Ok(MODFile { title, smp_num: smp_data.len() as u8, smp_data, buf })
    }

    /// The PCM data of sample `index`, ready for a WAV file.
    pub fn pcm(&self, index: usize) -> (r: Result<Vec<u8>, XmoditsError>)
        requires
            index < self@.samples.len(),
        ensures
            match mod_pcm(self@, index as int) {
                Ok(s) => r is Ok && r->Ok_0@ == s,
                Err(e) => r is Err && r->Err_0@ == e,
            },
    {
        let smp = &self.smp_data[index];
        assert(smp@ == self@.samples[index as int]);
        if smp.ptr > self.buf.len() || self.buf.len() - smp.ptr < smp.len {
            return Err(XmoditsError::OutOfBounds);
        }
        Ok(make_signed_u8(slice_subrange(self.buf.as_slice(), smp.ptr, smp.ptr + smp.len)))
    }

    /// Number of samples the module contains.
    pub fn number_of_samples(&self) -> (r: usize)
        requires
            self.wf(),
        ensures
            r == self@.samples.len(),
    {
        self.smp_num as usize
    }

    /// Name of the module.
    pub fn module_name(&self) -> (r: &str)
        ensures
            r@ == self@.title,
    {
        self.title.as_str()
    }

    /// The samples the module lists.
    pub fn list_sample_data(&self) -> (r: &[TrackerSample])
        ensures
            samples_view(r@) == self@.samples,
    {
        self.smp_data.as_slice()
    }

    /// Name of the format.
    pub fn format(&self) -> (r: &'static str)
        ensures
            r@ == "Amiga ProTracker"@,
    {
        "Amiga ProTracker"
    }
}

fn build_samples(smp_num: u8, buf: &[u8], smp_start: usize) -> (r: Result<Vec<TrackerSample>, XmoditsError>)
    ensures
        match mod_samples(buf@, smp_num as int, 0, smp_start as int, Seq::empty()) {
            Ok(v) => r is Ok && samples_view(r->Ok_0@) == v && v.len() <= smp_num,
            Err(e) => r is Err && r->Err_0@ == e,
        },
{
    let mut smp_data: Vec<TrackerSample> = Vec::with_capacity(smp_num as usize);
    let mut smp_pcm_stream_index: usize = smp_start;
    let ghost goal = mod_samples(buf@, smp_num as int, 0, smp_start as int, Seq::empty());
    let mut i: usize = 0;
    let _l = buf.len();
    assert(samples_view(smp_data@) =~= Seq::<SampleModel>::empty());
    while i < smp_num as usize
        invariant
            buf@.len() <= usize::MAX,
            i <= smp_num,
            smp_data@.len() <= i,
            goal == mod_samples(buf@, smp_num as int, 0, smp_start as int, Seq::empty()),
            mod_samples(buf@, smp_num as int, i as int, smp_pcm_stream_index as int, samples_view(smp_data@)) == goal,
        decreases smp_num - i,
    {
        match read_sample(buf, i, smp_pcm_stream_index) {
            Err(e) => return Err(e),
            Ok(ReadStep::Skip) => {},
            Ok(ReadStep::Stop) => return Ok(smp_data),
            Ok(ReadStep::Take(t)) => {
                let ghost before = samples_view(smp_data@);
                smp_pcm_stream_index = smp_pcm_stream_index + t.len;
                smp_data.push(t);
                assert(samples_view(smp_data@) =~= before.push(smp_data@.last()@));
            },
        }
        i += 1;
    }
    Ok(smp_data)
}

/// Reads sample header number `i`; the data of the sample would start at `idx`.
fn read_sample(buf: &[u8], i: usize, idx: usize) -> (r: Result<ReadStep, XmoditsError>)
    requires
        i <= 255,
    ensures
        match mod_step(buf@, i as int, idx as int) {
            Ok(st) => r is Ok && r->Ok_0@ == st && (st matches SampleStep::Take(m) ==> idx + m.len
                <= buf@.len()),
            Err(e) => r is Err && r->Err_0@ == e,
        },
{
    let offset = MOD_SMP_START + (i * MOD_SMP_LEN);
    let len: u16 = match read_u16_be_at(buf, offset, 0x0016) {
        Some(v) => v.wrapping_mul(2),
        None => return Err(XmoditsError::OutOfBounds),
    };
    if len == 0 {
        return Ok(ReadStep::Skip);
    }
    if len as usize > (128 * 1024) {
        return Err(XmoditsError::invalid("MOD contains sample exceeding 128KB"));
    }
    if idx > buf.len() || len as usize > buf.len() - idx {
        return Ok(ReadStep::Stop);
    }
    let name = match read_string_at(buf, offset, 0, 22) {
        Some(n) => n,
        None => return Err(XmoditsError::OutOfBounds),
    };
    let loop_start: u32 = match read_u16_le_at(buf, offset, 0x001A) {
        Some(v) => v as u32 * 16,
        None => return Err(XmoditsError::OutOfBounds),
    };
    // loop length in words, 1 word = 2 bytes
    // if 1, looping is disabled
    let loop_end: u32 = match read_u16_le_at(buf, offset, 0x001C) {
        Some(1) => 0,
        Some(length) => loop_start + (length as u32 * 16),
        None => return Err(XmoditsError::OutOfBounds),
    };
    Ok(
        ReadStep::Take(
            TrackerSample {
                name,
                filename: String::new(),
                raw_index: i,
                len: len as usize,
                ptr: idx,
                flags: 0,
                bits: 8,
                rate: 8363,
                loop_start,
                loop_end,
                is_stereo: false,
                is_compressed: false,
                is_interleaved: false,
                is_readable: false,
                loop_type: LoopType::Off,
            },
        ),
    )
}

} // verus!

verus! {

/// The samples listed from header `i` on keep the property that each one's
/// data lies inside the module, when the samples before do.
proof fn lemma_mod_samples_inside(s: Seq<u8>, n: int, i: int, idx: int, acc: Seq<SampleModel>)
    requires
        s.len() <= usize::MAX,
        0 <= idx,
        forall|k: int| 0 <= k < acc.len() ==> acc[k].ptr + acc[k].len <= s.len(),
    ensures
        mod_samples(s, n, i, idx, acc) matches Ok(v) ==> forall|k: int|
            0 <= k < v.len() ==> v[k].ptr + v[k].len <= s.len(),
    decreases n - i,
{
    if 0 <= i < n {
        match mod_step(s, i, idx) {
            Err(_) => {},
            Ok(SampleStep::Skip) => {
                lemma_mod_samples_inside(s, n, i + 1, idx, acc);
            },
            Ok(SampleStep::Stop) => {},
            Ok(SampleStep::Take(m)) => {
                lemma_mod_samples_inside(s, n, i + 1, idx + m.len, acc.push(m));
            },
        }
    }
}

/// Every sample an Amiga module lists can be read: its data lies inside the
/// module, so asking for its PCM data succeeds.
pub proof fn law_mod_samples_readable(s: Seq<u8>)
    requires
        s.len() <= usize::MAX,
    ensures
        mod_load(s) matches Ok(m) ==> forall|i: int| 0 <= i < m.samples.len() ==> #[trigger] mod_pcm(m, i) is Ok,
{
    if mod_load(s) is Ok && s.len() >= 0x43c {
        let smp_num = if has_odd_tag_byte(s) { 15int } else { 31int };
        let offset: int = if smp_num == 15 { 480 } else { 0 };
        if 0x3b8 - offset + 128 <= s.len() {
            let largest_pat = max_byte(s, 0x3b8 - offset, 128) as int;
            let smp_index = 4 + (0x438 - offset) + (largest_pat + 1) * 1024;
            lemma_mod_samples_inside(s, smp_num, 0, smp_index, Seq::empty());
        }
    }
}

} // verus!

verus! {

/// The samples listed from header `i` on extend `acc`; the first of them
/// starts at `idx`, and each one's data starts where the one before ends.
proof fn lemma_mod_samples_contiguous(s: Seq<u8>, n: int, i: int, idx: int, acc: Seq<SampleModel>)
    requires
        s.len() <= usize::MAX,
        0 <= idx,
    ensures
        mod_samples(s, n, i, idx, acc) matches Ok(v) ==> {
            &&& acc.len() <= v.len()
            &&& v.subrange(0, acc.len() as int) == acc
            &&& v.len() > acc.len() ==> v[acc.len() as int].ptr == idx
            &&& forall|k: int| acc.len() <= k < v.len() - 1 ==> #[trigger] v[k + 1].ptr == v[k].ptr + v[k].len
        },
    decreases n - i,
{
    if 0 <= i < n {
        match mod_step(s, i, idx) {
            Err(_) => {},
            Ok(SampleStep::Skip) => {
                lemma_mod_samples_contiguous(s, n, i + 1, idx, acc);
            },
            Ok(SampleStep::Stop) => {
                assert(acc.subrange(0, acc.len() as int) =~= acc);
            },
            Ok(SampleStep::Take(m)) => {
                lemma_mod_samples_contiguous(s, n, i + 1, idx + m.len, acc.push(m));
                match mod_samples(s, n, i + 1, idx + m.len, acc.push(m)) {
                    Ok(v) => {
                        assert(v[acc.len() as int] == v.subrange(0, acc.len() + 1int)[acc.len() as int]);
                        assert(v.subrange(0, acc.len() as int) =~= v.subrange(0, acc.len() + 1int).subrange(
                            0,
                            acc.len() as int,
                        ));
                        assert(acc.push(m).subrange(0, acc.len() as int) =~= acc);
                    },
                    Err(_) => {},
                }
            },
        }
    } else {
        assert(acc.subrange(0, acc.len() as int) =~= acc);
    }
}

/// The sample data of an Amiga module follows the patterns: the first
/// listed sample starts right after the last pattern used, and each listed
/// sample's data starts where the previous listed sample's data ends.
pub proof fn law_mod_samples_follow_each_other(s: Seq<u8>)
    requires
        s.len() <= usize::MAX,
    ensures
        mod_load(s) matches Ok(m) ==> {
            let offset: int = if has_odd_tag_byte(s) { 480 } else { 0 };
            let first = 4 + (0x438 - offset) + (max_byte(s, 0x3b8 - offset, 128) as int + 1) * 1024;
            &&& m.samples.len() > 0 ==> m.samples[0].ptr == first
            &&& forall|k: int| 0 <= k < m.samples.len() - 1 ==> #[trigger] m.samples[k + 1].ptr == m.samples[k].ptr
                + m.samples[k].len
        },
{
    if mod_load(s) is Ok && s.len() >= 0x43c {
        let smp_num = if has_odd_tag_byte(s) { 15int } else { 31int };
        let offset: int = if smp_num == 15 { 480 } else { 0 };
        let largest_pat = max_byte(s, 0x3b8 - offset, 128) as int;
        let smp_index = 4 + (0x438 - offset) + (largest_pat + 1) * 1024;
        lemma_mod_samples_contiguous(s, smp_num, 0, smp_index, Seq::empty());
    }
}

} // verus!

verus! {

/// The length in bytes that MOD sample header `j` gives: twice its 16-bit
/// big-endian word count, kept to 16 bits.
pub open spec fn mod_len(s: Seq<u8>, j: int) -> int {
    (2 * be16(s, 0x2a + 30 * j)) % 65536
}

/// Whether sample `m` is the one MOD sample header `j` describes: its name
/// (22 bytes at the start of the header) and its length.
#[verifier::opaque]
pub open spec fn mod_sample_from(s: Seq<u8>, j: int, m: SampleModel) -> bool {
    &&& m.name == crate::bytes::field_text(s.subrange(0x14 + 30 * j, 0x2a + 30 * j))
    &&& m.len == mod_len(s, j)
}

/// Where the data of the samples listed after the first `a` of `v` ends:
/// after the last of them, or at `idx` when there is none.
pub open spec fn mod_data_end(v: Seq<SampleModel>, a: int, idx: int) -> int {
    if v.len() > a {
        v.last().ptr + v.last().len
    } else {
        idx
    }
}

/// A sample taken from header `i` is the one the header describes.
proof fn lemma_mod_step_take(s: Seq<u8>, i: int, idx: int)
    requires
        s.len() <= usize::MAX,
        0 <= idx,
        0 <= i <= 31,
    ensures
        mod_step(s, i, idx) matches Ok(SampleStep::Take(m)) ==> mod_sample_from(s, i, m) && m.raw_index == i
            && m.ptr == idx && m.len == mod_len(s, i) && m.len > 0,
        mod_step(s, i, idx) matches Ok(SampleStep::Skip) ==> mod_len(s, i) == 0,
        mod_step(s, i, idx) matches Ok(SampleStep::Stop) ==> mod_len(s, i) != 0 && idx + mod_len(s, i) > s.len(),
{
    reveal(mod_sample_from);
}

/// The samples listed from header `i` on extend `acc`: each is the one its
/// header describes, in header order, and they are exactly the headers with
/// a length before the cut `c` returned; a cut before the last header falls
/// on a header with a length whose data would run past the end.
#[verifier::spinoff_prover]
#[verifier::rlimit(80)]
proof fn lemma_mod_samples_cut(s: Seq<u8>, n: int, i: int, idx: int, acc: Seq<SampleModel>) -> (c: int)
    requires
        s.len() <= usize::MAX,
        0 <= idx,
        0 <= i <= n,
        n <= 31,
    ensures
        mod_samples(s, n, i, idx, acc) matches Ok(v) ==> {
            &&& acc.len() <= v.len()
            &&& v.subrange(0, acc.len() as int) == acc
            &&& forall|k: int|
                acc.len() <= k < v.len() ==> i <= #[trigger] v[k].raw_index < n && mod_sample_from(
                    s,
                    v[k].raw_index as int,
                    v[k],
                )
            &&& forall|k: int| acc.len() <= k < v.len() - 1 ==> #[trigger] v[k].raw_index < v[k + 1].raw_index
            &&& i <= c <= n
            &&& forall|k: int| acc.len() <= k < v.len() ==> #[trigger] v[k].raw_index < c
            &&& forall|j: int|
                i <= j < c && #[trigger] mod_len(s, j) != 0 ==> exists|k: int|
                    acc.len() <= k < v.len() && #[trigger] v[k].raw_index == j
            &&& c < n ==> mod_len(s, c) != 0 && mod_data_end(v, acc.len() as int, idx) + mod_len(s, c) > s.len()
        },
    decreases n - i,
{
    let a = acc.len() as int;
    if i < n {
        lemma_mod_step_take(s, i, idx);
        match mod_step(s, i, idx) {
            Err(_) => n,
            Ok(SampleStep::Skip) => {
                let c = lemma_mod_samples_cut(s, n, i + 1, idx, acc);
                match mod_samples(s, n, i + 1, idx, acc) {
                    Ok(v) => {
                        assert forall|j: int| i <= j < c && #[trigger] mod_len(s, j) != 0 implies exists|k: int|
                            a <= k < v.len() && #[trigger] v[k].raw_index == j by {
                            assert(j != i);
                        }
                    },
                    Err(_) => {},
                }
                c
            },
            Ok(SampleStep::Stop) => {
                assert(acc.subrange(0, a) =~= acc);
                assert(mod_data_end(acc, a, idx) == idx);
                i
            },
            Ok(SampleStep::Take(m)) => {
                let c = lemma_mod_samples_cut(s, n, i + 1, idx + m.len, acc.push(m));
                match mod_samples(s, n, i + 1, idx + m.len, acc.push(m)) {
                    Ok(v) => {
                        assert(v[a] == v.subrange(0, a + 1)[a]);
                        assert(v[a] == m);
                        assert(v.subrange(0, a) =~= v.subrange(0, a + 1).subrange(0, a));
                        assert(acc.push(m).subrange(0, a) =~= acc);
                        assert forall|k: int| a <= k < v.len() - 1 implies #[trigger] v[k].raw_index < v[k
                            + 1].raw_index by {
                            if k == a {
                                assert(a + 1 <= k + 1);
                            }
                        }
                        assert(mod_data_end(v, a, idx) == mod_data_end(v, a + 1, idx + m.len));
                        assert forall|k: int| a <= k < v.len() implies #[trigger] v[k].raw_index < c by {
                            if k == a {
                                assert(v[a].raw_index == i);
                            }
                        }
                        assert forall|j: int| i <= j < c && #[trigger] mod_len(s, j) != 0 implies exists|k: int|
                            a <= k < v.len() && #[trigger] v[k].raw_index == j by {
                            if j == i {
                                assert(v[a].raw_index == j);
                            }
                        }
                    },
                    Err(_) => {},
                }
                c
            },
        }
    } else {
        assert(acc.subrange(0, a) =~= acc);
        assert(mod_data_end(acc, a, idx) == idx);
        n
    }
}

/// Whether the samples `v` of a module with `n` sample headers, whose data
/// starts at `first`, are exactly the headers with a length before `c`, with
/// the list cut at `c` only because header `c` has a length and its data
/// would run past the end of the module.
pub open spec fn mod_cut_at(s: Seq<u8>, v: Seq<SampleModel>, n: int, first: int, c: int) -> bool {
    &&& 0 <= c <= n
    &&& forall|k: int| 0 <= k < v.len() ==> #[trigger] v[k].raw_index < c
    &&& forall|j: int|
        0 <= j < c && #[trigger] mod_len(s, j) != 0 ==> exists|k: int| 0 <= k < v.len() && #[trigger] v[k].raw_index == j
    &&& c < n ==> mod_len(s, c) != 0 && mod_data_end(v, 0, first) + mod_len(s, c) > s.len()
}

/// The number of sample headers of an Amiga module: 15 in the old layout
/// (no tag where the 31-sample layout has one), 31 otherwise.
pub open spec fn mod_header_count(s: Seq<u8>) -> int {
    if has_odd_tag_byte(s) {
        15
    } else {
        31
    }
}

/// Where the sample data of an Amiga module starts: after the header, the
/// order table and the patterns up to the largest one the order table uses
/// (1024 bytes each).
pub open spec fn mod_data_start(s: Seq<u8>) -> int {
    let offset: int = if has_odd_tag_byte(s) { 480 } else { 0 };
    4 + (0x438 - offset) + (max_byte(s, 0x3b8 - offset, 128) as int + 1) * 1024
}

/// Which sample headers of an Amiga module give samples: every listed
/// sample is the one its header describes (name and length), the samples
/// come in header order, and they are exactly the headers with a length up
/// to a cut; the list ends early only at a header with a length whose data
/// would run past the end of the module (an empty header is passed over).
#[verifier::spinoff_prover]
#[verifier::rlimit(80)]
pub proof fn law_mod_samples_from_headers(s: Seq<u8>)
    requires
        s.len() <= usize::MAX,
    ensures
        mod_load(s) matches Ok(m) ==> {
            &&& forall|k: int|
                0 <= k < m.samples.len() ==> #[trigger] m.samples[k].raw_index < mod_header_count(s) && mod_sample_from(
                    s,
                    m.samples[k].raw_index as int,
                    m.samples[k],
                )
            &&& forall|k: int| 0 <= k < m.samples.len() - 1 ==> #[trigger] m.samples[k].raw_index < m.samples[k
                + 1].raw_index
            &&& exists|c: int| mod_cut_at(s, m.samples, mod_header_count(s), mod_data_start(s), c)
        },
{
    if mod_load(s) is Ok && s.len() >= 0x43c {
        let smp_num = if has_odd_tag_byte(s) { 15int } else { 31int };
        let offset: int = if smp_num == 15 { 480 } else { 0 };
        let largest_pat = max_byte(s, 0x3b8 - offset, 128) as int;
        let smp_index = 4 + (0x438 - offset) + (largest_pat + 1) * 1024;
        let c = lemma_mod_samples_cut(s, smp_num, 0, smp_index, Seq::empty());
        let v = mod_samples(s, smp_num, 0, smp_index, Seq::empty())->Ok_0;
        assert(mod_load(s)->Ok_0.samples == v);
        assert(mod_cut_at(s, v, mod_header_count(s), mod_data_start(s), c));
    }
}

} // verus!
