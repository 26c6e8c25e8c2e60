//! What a module says of each of its samples.
use vstd::prelude::*;

verus! {

/// How a sample loops.
#[derive(PartialEq, Eq, Structural, Clone, Copy, Debug)]
pub enum LoopType {
    Off,
    Forward,
    PingPong,
    Reverse,
}

impl Default for LoopType {
    fn default() -> (r: Self)
        ensures
            r == LoopType::Off,
    {
        LoopType::Off
    }
}

/// A sample as the contracts see it: its text fields as characters.
pub struct SampleModel {
    pub name: Seq<char>,
    pub filename: Seq<char>,
    pub raw_index: usize,
    pub len: usize,
    pub ptr: usize,
    pub flags: u8,
    pub bits: u8,
    pub rate: u32,
    pub loop_start: u32,
    pub loop_end: u32,
    pub is_stereo: bool,
    pub is_compressed: bool,
    pub is_interleaved: bool,
    pub is_readable: bool,
    pub loop_type: LoopType,
}

/// A sample of a tracker module.
#[derive(Debug)]
pub struct TrackerSample {
    /// Sample name
    pub name: String,
    /// Sample filename
    pub filename: String,
    /// Zero-based index of the sample in the module; see `raw_index()`.
    pub raw_index: usize,
    /// Sample length in BYTES
    pub len: usize,
    /// Sample pointer
    pub ptr: usize,
    /// Sample flags
    pub flags: u8,
    /// Bits per sample
    pub bits: u8,
    /// Sample rate
    pub rate: u32,
    /// sample loop start
    pub loop_start: u32,
    /// sample loop end
    pub loop_end: u32,
    /// Is sample stereo?
    pub is_stereo: bool,
    /// Is sample compressed?
    pub is_compressed: bool,
    /// Is the stereo sample data interleaved?
    pub is_interleaved: bool,
    /// Can the sample data be read directly?
    pub is_readable: bool,
    /// What type of looping does this sample use?
    pub loop_type: LoopType,
}

impl View for TrackerSample {
    type V = SampleModel;

    open spec fn view(&self) -> SampleModel {
        SampleModel {
            name: self.name@,
            filename: self.filename@,
            raw_index: self.raw_index,
            len: self.len,
            ptr: self.ptr,
            flags: self.flags,
            bits: self.bits,
            rate: self.rate,
            loop_start: self.loop_start,
            loop_end: self.loop_end,
            is_stereo: self.is_stereo,
            is_compressed: self.is_compressed,
            is_interleaved: self.is_interleaved,
            is_readable: self.is_readable,
            loop_type: self.loop_type,
        }
    }
}

impl Default for TrackerSample {
    fn default() -> (r: Self)
        ensures
            r@ == (SampleModel {
                name: Seq::empty(),
                filename: Seq::empty(),
                raw_index: 0,
                len: 0,
                ptr: 0,
                flags: 0,
                bits: 0,
                rate: 0,
                loop_start: 0,
                loop_end: 0,
                is_stereo: false,
                is_compressed: false,
                is_interleaved: false,
                is_readable: false,
                loop_type: LoopType::Off,
            }),
    {
        TrackerSample {
            name: String::new(),
            filename: String::new(),
            raw_index: 0,
            len: 0,
            ptr: 0,
            flags: 0,
            bits: 0,
            rate: 0,
            loop_start: 0,
            loop_end: 0,
            is_stereo: false,
            is_compressed: false,
            is_interleaved: false,
            is_readable: false,
            loop_type: LoopType::Off,
        }
    }
}

/// What reading one sample header yields: nothing to keep, the end of the
/// list, or a sample.
pub enum SampleStep {
    Skip,
    Stop,
    Take(SampleModel),
}

/// What reading one sample header yields, in executable form.
pub enum ReadStep {
    Skip,
    Stop,
    Take(TrackerSample),
}

impl View for ReadStep {
    type V = SampleStep;

    open spec fn view(&self) -> SampleStep {
        match self {
            ReadStep::Skip => SampleStep::Skip,
            ReadStep::Stop => SampleStep::Stop,
            ReadStep::Take(t) => SampleStep::Take(t@),
        }
    }
}

/// The views of a list of samples.
pub open spec fn samples_view(v: Seq<TrackerSample>) -> Seq<SampleModel> {
    v.map_values(|s: TrackerSample| s@)
}

impl TrackerSample {
    /// A copy of the sample.
    pub fn duplicate(&self) -> (r: TrackerSample)
        ensures
            r@ == self@,
    {
        TrackerSample {
            name: self.name.clone(),
            filename: self.filename.clone(),
            raw_index: self.raw_index,
            len: self.len,
            ptr: self.ptr,
            flags: self.flags,
            bits: self.bits,
            rate: self.rate,
            loop_start: self.loop_start,
            loop_end: self.loop_end,
            is_stereo: self.is_stereo,
            is_compressed: self.is_compressed,
            is_interleaved: self.is_interleaved,
            is_readable: self.is_readable,
            loop_type: self.loop_type,
        }
    }

    /// Start and end of the sample data, as a range.
    pub fn ptr_range(&self) -> (r: std::ops::Range<usize>)
        requires
            self.ptr + self.len <= usize::MAX,
        ensures
            r.start == self.ptr,
            r.end == self.ptr + self.len,
    {
        self.ptr..(self.ptr + self.len)
    }

    /// The sample's index as a tracker lists it: one-based.
    pub fn raw_index(&self) -> (r: usize)
        requires
            self.raw_index < usize::MAX,
        ensures
            r == self.raw_index + 1,
    {
        self.raw_index + 1
    }
}

} // verus!
