//! Reading the command line.
use crate::text::str_eq;
use vstd::prelude::*;

verus! {

/// What the command line asks for.
#[derive(Debug)]
pub enum Mode {
    /// Nothing in particular: start normally.
    Launch,
    /// Print the version.
    Version,
    /// Print the help text.
    Help,
    /// An option that is not known (and is not an existing path).
    Unrecognised(String),
    /// Files dropped on the program (on Windows): rip them.
    DragNDrop(Vec<String>),
}

/// What the command line asks for, as the contracts see it.
pub enum ModeView {
    Launch,
    Version,
    Help,
    Unrecognised(Seq<char>),
    DragNDrop(Seq<Seq<char>>),
}

impl View for Mode {
    type V = ModeView;

    open spec fn view(&self) -> ModeView {
        match self {
            Mode::Launch => ModeView::Launch,
            Mode::Version => ModeView::Version,
            Mode::Help => ModeView::Help,
            Mode::Unrecognised(s) => ModeView::Unrecognised(s@),
            Mode::DragNDrop(v) => ModeView::DragNDrop(texts(v@)),
        }
    }
}

/// The texts of a list of strings.
pub open spec fn texts(v: Seq<String>) -> Seq<Seq<char>> {
    v.map_values(|s: String| s@)
}

/// Whether one of `args` is one of `flags`.
pub open spec fn has_flag(args: Seq<Seq<char>>, flags: Seq<Seq<char>>) -> bool {
    exists|i: int, j: int| 0 <= i < args.len() && 0 <= j < flags.len() && args[i] == flags[j]
}

/// The flags that ask for help.
pub open spec fn help_flags() -> Seq<Seq<char>> {
    seq!["--help"@, "-h"@]
}

/// The flags that ask for the version.
pub open spec fn version_flags() -> Seq<Seq<char>> {
    seq!["--version"@, "-V"@, "-v"@]
}

/// Whether an argument looks like an option: it starts with `-`.
pub open spec fn is_option(a: Seq<char>) -> bool {
    a.len() > 0 && a[0] == '-'
}

/// The position of the first argument from `i` on that looks like an option
/// and is not an existing path (`exists[k]` says whether argument `k` is).
pub open spec fn first_unrecognised(args: Seq<Seq<char>>, exists: Seq<bool>, i: int) -> Option<int>
    decreases args.len() - i,
{
    if i >= args.len() || i < 0 {
        None
    } else if is_option(args[i]) && !exists[i] {
        Some(i)
    } else {
        first_unrecognised(args, exists, i + 1)
    }
}

/// What the command line asks for: help before the version, the version
/// before an unknown option; then, where files dropped on the program come
/// as arguments (`windows`), the arguments are files to rip.
pub open spec fn parse_spec(args: Seq<Seq<char>>, exists: Seq<bool>, windows: bool) -> ModeView {
    if has_flag(args, help_flags()) {
        ModeView::Help
    } else if has_flag(args, version_flags()) {
        ModeView::Version
    } else {
        match first_unrecognised(args, exists, 0) {
            Some(i) => ModeView::Unrecognised(args[i]),
            None => if windows && args.len() > 0 {
                ModeView::DragNDrop(args)
            } else {
                ModeView::Launch
            },
        }
    }
}

/// Whether one of `args` is one of `flags`.
fn contains(args: &[String], flags: &[&str]) -> (r: bool)
    ensures
        r == has_flag(texts(args@), flags@.map_values(|f: &str| f@)),
{
    let ghost a = texts(args@);
    let ghost fl = flags@.map_values(|f: &str| f@);
    let mut i: usize = 0;
    while i < args.len()
        invariant
            a == texts(args@),
            fl == flags@.map_values(|f: &str| f@),
            i <= args@.len(),
            forall|x: int, y: int| 0 <= x < i && 0 <= y < fl.len() ==> a[x] != fl[y],
        decreases args@.len() - i,
    {
        let mut j: usize = 0;
        while j < flags.len()
            invariant
                a == texts(args@),
                fl == flags@.map_values(|f: &str| f@),
                i < args@.len(),
                j <= flags@.len(),
                forall|x: int, y: int| 0 <= x < i && 0 <= y < fl.len() ==> a[x] != fl[y],
                forall|y: int| 0 <= y < j ==> a[i as int] != fl[y],
            decreases flags@.len() - j,
        {
            if str_eq(args[i].as_str(), flags[j]) {
                assert(a[i as int] == fl[j as int]);
                return true;
            }
            j += 1;
        }
        i += 1;
    }
    false
}

/// Whether an argument looks like an option: it starts with `-`.
fn is_option_exec(a: &String) -> (r: bool)
    ensures
        r == is_option(a@),
{
    let s = a.as_str();
    let n = vstd::string::StrSliceExecFns::unicode_len(s);
    n > 0 && vstd::string::StrSliceExecFns::get_char(s, 0) == '-'
}

/// What the command line asks for, given for each argument whether it is an
/// existing path, and whether dropped files come as arguments (as on
/// Windows); see `parse_spec`.
pub fn parse_with(args: &Vec<String>, exists: &Vec<bool>, windows: bool) -> (r: Mode)
    requires
        exists@.len() == args@.len(),
    ensures
        r@ == parse_spec(texts(args@), exists@, windows),
{
    let help: [&str; 2] = ["--help", "-h"];
    assert(help@.map_values(|f: &str| f@) =~= help_flags());
    if contains(args.as_slice(), &help) {
        return Mode::Help;
    }
    let version: [&str; 3] = ["--version", "-V", "-v"];
    assert(version@.map_values(|f: &str| f@) =~= version_flags());
    if contains(args.as_slice(), &version) {
        return Mode::Version;
    }
    let ghost a = texts(args@);
    let mut i: usize = 0;
    while i < args.len()
        invariant
            a == texts(args@),
            exists@.len() == args@.len(),
            i <= args@.len(),
            !has_flag(a, help_flags()),
            !has_flag(a, version_flags()),
            first_unrecognised(a, exists@, i as int) == first_unrecognised(a, exists@, 0),
        decreases args@.len() - i,
    {
        if is_option_exec(&args[i]) && !exists[i] {
            return Mode::Unrecognised(args[i].clone());
        }
        i += 1;
    }
    if windows && args.len() > 0 {
        let mut all: Vec<String> = Vec::new();
        let mut j: usize = 0;
        while j < args.len()
            invariant
                j <= args@.len(),
                texts(all@) == texts(args@).take(j as int),
            decreases args@.len() - j,
        {
            let c = args[j].clone();
            let ghost before = all@;
            all.push(c);
            assert(texts(all@) =~= texts(before).push(args@[j as int]@));
            assert(texts(all@) =~= texts(args@).take(j + 1));
            j += 1;
        }
        assert(texts(args@).take(args@.len() as int) =~= texts(args@));
        return Mode::DragNDrop(all);
    }
    Mode::Launch
}

/// What the command line asks for, as on platforms other than Windows;
/// see `parse_on`.
pub fn parse(args: Vec<String>) -> (r: Mode)
    ensures
        exists|ex: Seq<bool>| ex.len() == args@.len() && r@ == #[trigger] parse_spec(texts(args@), ex, false),
{
    parse_on(args, false)
}

/// What the command line asks for; `windows` says whether files dropped on
/// the program come as arguments. Whether an option-like argument is an
/// existing path is asked of the file system, so the contract holds for
/// some answer to each question.
pub fn parse_on(args: Vec<String>, windows: bool) -> (r: Mode)
    ensures
        exists|ex: Seq<bool>| ex.len() == args@.len() && r@ == #[trigger] parse_spec(texts(args@), ex, windows),
{
    let mut exists: Vec<bool> = Vec::new();
    let mut i: usize = 0;
    while i < args.len()
        invariant
            i <= args@.len(),
            exists@.len() == i,
        decreases args@.len() - i,
    {
        if is_option_exec(&args[i]) {
            exists.push(crate::common::path_exists(args[i].as_str()));
        } else {
            exists.push(false);
        }
        i += 1;
    }
    let r = parse_with(&args, &exists, windows);
    assert(exists@.len() == args@.len() && r@ == parse_spec(texts(args@), exists@, windows));
    r
}

} // verus!
