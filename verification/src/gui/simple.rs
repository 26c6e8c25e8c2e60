//! The decisions of a run without the window: modules dropped on the
//! program are ripped, and the outcome is reported in a dialog.
use vstd::prelude::*;
use vstd::string::StringExecFns;

verus! {

/// How a run without the window starts.
#[derive(Debug)]
pub enum Start {
    /// A folder was given: the window is needed for folders.
    PathContainsFolder,
    /// No existing path was given: show how to use the program.
    ShowHelp,
    /// Strict loading left no module to rip.
    NoValidModules,
    /// Rip the modules at these positions of the paths given.
    Rip(Vec<usize>),
}

/// The positions below `n` whose entry in `keep` is set, in order.
pub open spec fn selected(keep: Seq<bool>, n: int) -> Seq<usize>
    decreases n,
{
    if n <= 0 {
        Seq::empty()
    } else if keep[n - 1] {
        selected(keep, n - 1).push((n - 1) as usize)
    } else {
        selected(keep, n - 1)
    }
}

/// Which paths are ripped: those that exist and, under strict loading,
/// pass the strict filter.
pub open spec fn kept(exists: Seq<bool>, strict: bool, passes: Seq<bool>) -> Seq<bool> {
    Seq::new(exists.len(), |i: int| exists[i] && (!strict || passes[i]))
}

/// Whether some existing path is a folder.
pub open spec fn has_folder(exists: Seq<bool>, is_dir: Seq<bool>) -> bool {
    exists|i: int| 0 <= i < exists.len() && exists[i] && is_dir[i]
}

/// Whether some path exists.
pub open spec fn any_exists(exists: Seq<bool>) -> bool {
    exists|i: int| 0 <= i < exists.len() && exists[i]
}

/// The selection is empty exactly when no position below `n` is set.
proof fn lemma_selected(keep: Seq<bool>, n: int)
    requires
        0 <= n <= keep.len(),
    ensures
        selected(keep, n).len() == 0 <==> forall|i: int| 0 <= i < n ==> !keep[i],
    decreases n,
{
    if n > 0 {
        lemma_selected(keep, n - 1);
    }
}

/// How a run without the window starts: a folder among the existing paths
/// stops it; so does having no existing path; under strict loading, so does
/// having no path that passes the filter; otherwise the kept paths are
/// ripped.
pub fn rip_start(exists: &Vec<bool>, is_dir: &Vec<bool>, strict: bool, passes: &Vec<bool>) -> (r: Start)
    requires
        is_dir@.len() == exists@.len(),
        passes@.len() == exists@.len(),
    ensures
        has_folder(exists@, is_dir@) ==> r is PathContainsFolder,
        !has_folder(exists@, is_dir@) && !any_exists(exists@) ==> r is ShowHelp,
        !has_folder(exists@, is_dir@) && any_exists(exists@) && selected(
            kept(exists@, strict, passes@),
            exists@.len() as int,
        ).len() == 0 ==> r is NoValidModules,
        !has_folder(exists@, is_dir@) && selected(kept(exists@, strict, passes@), exists@.len() as int).len()
            > 0 ==> (r matches Start::Rip(v) && v@ == selected(
            kept(exists@, strict, passes@),
            exists@.len() as int,
        )),
        r matches Start::Rip(v) ==> !has_folder(exists@, is_dir@) && v@ == selected(
            kept(exists@, strict, passes@),
            exists@.len() as int,
        ) && v@.len() > 0,
{
    let n = exists.len();
    let mut any: bool = false;
    let mut i: usize = 0;
    while i < n
        invariant
            n == exists@.len(),
            is_dir@.len() == n,
            i <= n,
            any == exists|k: int| 0 <= k < i && exists@[k],
            forall|k: int| 0 <= k < i ==> !(exists@[k] && is_dir@[k]),
        decreases n - i,
    {
        if exists[i] {
            if is_dir[i] {
                return Start::PathContainsFolder;
            }
            any = true;
        }
        i += 1;
    }
    if !any {
        proof {
            lemma_selected(kept(exists@, strict, passes@), n as int);
        }
        return Start::ShowHelp;
    }
    let ghost keep = kept(exists@, strict, passes@);
    let mut out: Vec<usize> = Vec::new();
    let mut j: usize = 0;
    while j < n
        invariant
            n == exists@.len(),
            passes@.len() == n,
            keep == kept(exists@, strict, passes@),
            j <= n,
            out@ == selected(keep, j as int),
        decreases n - j,
    {
        if exists[j] && (!strict || passes[j]) {
            out.push(j);
        }
        j += 1;
    }
    proof {
        lemma_selected(keep, n as int);
    }
    if out.len() == 0 {
        return Start::NoValidModules;
    }
    Start::Rip(out)
}

/// How the end of a run is reported.
#[derive(Debug, Clone, Copy, PartialEq, Eq, Structural)]
pub enum Outcome {
    /// Every module was ripped.
    Success,
    /// The one module given failed; its error is shown.
    FailedSingle,
    /// Several modules failed; their errors are written to a log.
    Partial,
    /// Nothing is shown.
    Quiet,
}

/// How the end of a run with `errors` failed modules is reported: with
/// quiet output only several failures are.
pub fn rip_outcome(errors: usize, quiet: bool) -> (r: Outcome)
    ensures
        r == (if errors > 1 {
            Outcome::Partial
        } else if quiet {
            Outcome::Quiet
        } else if errors == 1 {
            Outcome::FailedSingle
        } else {
            Outcome::Success
        }),
{
    if errors < 1 && !quiet {
        Outcome::Success
    } else if errors == 1 && !quiet {
        Outcome::FailedSingle
    } else if errors > 1 {
        Outcome::Partial
    } else {
        Outcome::Quiet
    }
}

/// Where a run without the window puts the samples: the working directory
/// (`.` when it cannot be read) when so configured, else the configured
/// destination.
pub fn rip_destination(use_cwd: bool, cwd: Option<String>, configured: String) -> (r: String)
    ensures
        use_cwd ==> r@ == match cwd {
            Some(c) => c@,
            None => "."@,
        },
        !use_cwd ==> r@ == configured@,
{
    if use_cwd {
        match cwd {
            Some(c) => c,
            None => String::from_str("."),
        }
    } else {
        configured
    }
}

/// Where the error log of a run goes: the configured logging folder, else
/// the destination.
pub fn log_path(logging_path: &Option<String>, destination: &String) -> (r: String)
    ensures
        r@ == match logging_path {
            Some(p) => p@,
            None => destination@,
        },
{
    match logging_path {
        Some(p) => p.clone(),
        None => destination.clone(),
    }
}

} // verus!
