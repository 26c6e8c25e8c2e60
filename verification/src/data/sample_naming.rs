//! How ripped samples are named.
use vstd::prelude::*;

verus! {

/// How ripped samples are named.
#[derive(Debug, Clone, Copy)]
pub struct SampleNameConfig {
    pub index_raw: bool,
    pub index_only: bool,
    pub index_padding: u8,
    pub upper: bool,
    pub lower: bool,
    pub prefix: bool,
    pub prefer_filename: bool,
}

impl Default for SampleNameConfig {
    fn default() -> (r: Self)
        ensures
            !r.index_raw,
            !r.index_only,
            r.index_padding == 2,
            !r.upper,
            !r.lower,
            !r.prefix,
            r.prefer_filename,
    {
        SampleNameConfig {
            index_raw: false,
            index_only: false,
            index_padding: 2,
            upper: false,
            lower: false,
            prefix: false,
            prefer_filename: true,
        }
    }
}

} // verus!
