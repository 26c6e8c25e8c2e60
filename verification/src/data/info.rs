//! What the application shows of a module it was given.
use crate::interface::{model_format, model_name, model_samples, TrackerModule};
use crate::sample::SampleModel;
use vstd::prelude::*;
use vstd::string::StringExecFns;

verus! {

/// Whether two paths are the same path, as `==` on `std::path::Path`
/// decides (component by component).
pub uninterp spec fn paths_equal(a: Seq<char>, b: Seq<char>) -> bool;

/// Compares two paths with `==` on `std::path::Path`; its result is named
/// `paths_equal`.
#[verifier::external_body]
fn same_path(a: &str, b: &str) -> (r: bool)
    ensures
        r == paths_equal(a@, b@),
{
    std::path::Path::new(a) == std::path::Path::new(b)
}

/// The total length in bytes of a list of samples.
pub open spec fn total_len(s: Seq<SampleModel>) -> int
    decreases s.len(),
{
    if s.len() == 0 {
        0
    } else {
        total_len(s.drop_last()) + s.last().len
    }
}

/// A module the application was given: what was read of it, or why it
/// could not be read.
#[derive(Debug, Clone)]
pub enum Info {
    Valid { path: String, name: String, format: String, samples: usize, total_sample_size: usize },
    Invalid { path: String, error: String },
}

impl Info {
    /// The path of the module.
    pub open spec fn path_of(&self) -> Seq<char> {
        match self {
            Info::Valid { path, .. } => path@,
            Info::Invalid { path, .. } => path@,
        }
    }

    /// Whether this is the module at `other`.
    pub fn matches(&self, other: &str) -> (r: bool)
        ensures
            r == paths_equal(self.path_of(), other@),
    {
        match self {
            Info::Invalid { path, .. } => same_path(path.as_str(), other),
            Info::Valid { path, .. } => same_path(path.as_str(), other),
        }
    }

    /// The path of the module.
    pub fn path(&self) -> (r: &str)
        ensures
            r@ == self.path_of(),
    {
        match self {
            Info::Invalid { path, .. } => path.as_str(),
            Info::Valid { path, .. } => path.as_str(),
        }
    }

    /// What is shown of a module that was read: its name, format, number of
    /// samples and the total size of their data in KiB (rounded down).
    pub fn valid(tracker: &TrackerModule, path: String) -> (r: Self)
        requires
            tracker.wf(),
            total_len(model_samples(tracker@)) <= usize::MAX,
        ensures
            r matches Info::Valid { path: p, name, format, samples, total_sample_size } && p@ == path@
                && name@ == model_name(tracker@) && format@ == model_format(tracker@)
                && samples == model_samples(tracker@).len()
                && total_sample_size == total_len(model_samples(tracker@)) / 1024,
    {
        let smps = tracker.list_sample_data();
        let ghost s = model_samples(tracker@);
        let mut total: usize = 0;
        let mut i: usize = 0;
        while i < smps.len()
            invariant
                crate::sample::samples_view(smps@) == s,
                total_len(s) <= usize::MAX,
                i <= smps@.len(),
                total == total_len(s.take(i as int)),
            decreases smps@.len() - i,
        {
            proof {
                assert(s.take(i + 1).drop_last() =~= s.take(i as int));
                lemma_total_len_prefix(s, i + 1);
            }
            total = total + smps[i].len;
            i += 1;
        }
        assert(s.take(i as int) =~= s);
        Info::Valid {
            name: String::from_str(tracker.module_name()),
            format: String::from_str(tracker.format()),
            samples: tracker.number_of_samples(),
            path,
            total_sample_size: total / 1024,
        }
    }

    /// What is shown of a module that could not be read.
    pub fn invalid(error: String, path: String) -> (r: Self)
        ensures
            r matches Info::Invalid { path: p, error: e } && p@ == path@ && e@ == error@,
    {
        Info::Invalid { error, path }
    }
}

/// The total length of a prefix is at most the total length.
proof fn lemma_total_len_prefix(s: Seq<SampleModel>, n: int)
    requires
        0 <= n <= s.len(),
    ensures
        total_len(s.take(n)) <= total_len(s),
    decreases s.len() - n,
{
    if n < s.len() {
        lemma_total_len_prefix(s, n + 1);
        assert(s.take(n + 1).drop_last() =~= s.take(n));
    } else {
        assert(s.take(n) =~= s);
    }
}

} // verus!
