//! The example values a sample name is previewed with.
use vstd::prelude::*;
use vstd::string::StringExecFns;

verus! {

/// The values a sample name is built from.
#[derive(Debug, Clone)]
pub struct SampleNameParams {
    pub module_name: String,
    pub module_source: String,
    pub sample_filename: Option<String>,
    pub sample_name: String,
    pub raw_index: u16,
    pub seq_index: u16,
}

impl Default for SampleNameParams {
    fn default() -> (r: Self)
        ensures
            r.module_name@ == "music"@,
            r.sample_filename matches Some(f) && f@ == "Kick_1.wav"@,
            r.sample_name@ == "Kick.wav"@,
            r.module_source@ == "~/Downloads/music.it"@,
            r.raw_index == 7,
            r.seq_index == 0,
    {
        SampleNameParams {
            module_name: String::from_str("music"),
            sample_filename: Some(String::from_str("Kick_1.wav")),
            sample_name: String::from_str("Kick.wav"),
            module_source: String::from_str("~/Downloads/music.it"),
            raw_index: 7,
            seq_index: 0,
        }
    }
}

} // verus!
