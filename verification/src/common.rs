//! Paths of modules and of the folders their samples go to.
use crate::error::{err_view, ErrorKind, ErrorView, XmoditsError};
use vstd::prelude::*;
use vstd::string::StringExecFns;

verus! {

/// The last component of a path, as `std::path::Path::file_name` gives it
/// (`None` for a path that ends in `..` or is a root).
pub uninterp spec fn path_file_name(p: Seq<char>) -> Option<Seq<char>>;

/// The extension of a path's file name, as `std::path::Path::extension`
/// gives it.
pub uninterp spec fn path_extension(p: Seq<char>) -> Option<Seq<char>>;

/// A path with another appended, as `std::path::Path::join` gives it.
pub uninterp spec fn path_joined(base: Seq<char>, tail: Seq<char>) -> Seq<char>;

/// Calls `std::path::Path::file_name` on the path `p`; its result is named
/// `path_file_name`. A component of a `&str` path is valid UTF-8, so the
/// conversion back to a `String` loses nothing.
#[verifier::external_body]
fn file_name_of(p: &str) -> (r: Option<String>)
    ensures
        match path_file_name(p@) {
            Some(n) => r is Some && r->0@ == n,
            None => r is None,
        },
{
    match std::path::Path::new(p).file_name() {
        Some(f) => Some(f.to_string_lossy().to_string()),
        None => None,
    }
}

/// Calls `std::path::Path::extension` on the path `p`; its result is named
/// `path_extension`.
#[verifier::external_body]
fn extension_of(p: &str) -> (r: Option<String>)
    ensures
        match path_extension(p@) {
            Some(n) => r is Some && r->0@ == n,
            None => r is None,
        },
{
    match std::path::Path::new(p).extension() {
        Some(e) => Some(e.to_string_lossy().to_string()),
        None => None,
    }
}

/// Calls `std::path::Path::join`; its result is named `path_joined`.
#[verifier::external_body]
fn join_paths(base: &str, tail: &str) -> (r: String)
    ensures
        r@ == path_joined(base@, tail@),
{
    std::path::Path::new(base).join(tail).to_string_lossy().to_string()
}

/// A text in lower case, as `str::to_lowercase` gives it.
pub uninterp spec fn lowercased(s: Seq<char>) -> Seq<char>;

/// Calls `str::to_lowercase`; its result is named `lowercased`.
#[verifier::external_body]
fn to_lowercase(s: &str) -> (r: String)
    ensures
        r@ == lowercased(s@),
{
    s.to_lowercase()
}

/// Calls `std::path::Path::exists`, which asks the file system; nothing is
/// stated of the answer.
#[verifier::external_body]
pub(crate) fn path_exists(p: &str) -> (r: bool) {
    std::path::Path::new(p).exists()
}

/// Calls `std::path::Path::is_dir`, which asks the file system; nothing is
/// stated of the answer.
#[verifier::external_body]
pub(crate) fn path_is_dir(p: &str) -> (r: bool) {
    std::path::Path::new(p).is_dir()
}

/// A text with every `.` replaced by `_`.
pub open spec fn dots_to_underscores(s: Seq<char>) -> Seq<char> {
    s.map_values(|c: char| if c == '.' { '_' } else { c })
}

/// Replaces every `.` of `s` by `_`.
fn underscore_dots(s: &str) -> (r: String)
    ensures
        r@ == dots_to_underscores(s@),
{
    let chars = crate::text::chars_of(s);
    let mut out = String::new();
    let mut i: usize = 0;
    while i < chars.len()
        invariant
            chars@ == s@,
            i <= chars@.len(),
            out@ == dots_to_underscores(s@.take(i as int)),
        decreases chars@.len() - i,
    {
        let c = chars[i];
        let ghost before = out@;
        if c == '.' {
            crate::bytes::push_char(&mut out, '_');
        } else {
            crate::bytes::push_char(&mut out, c);
        }
        assert(out@ =~= dots_to_underscores(s@.take(i + 1))) by {
            assert(s@.take(i + 1) =~= s@.take(i as int).push(c));
        }
        i += 1;
    }
    assert(s@.take(chars@.len() as int) =~= s@);
    out
}

/// The name a module's samples are grouped under: its file name, with each
/// `.` replaced by `_`.
pub fn mod_name(mod_path: &str) -> (r: String)
    requires
        path_file_name(mod_path@) is Some,
    ensures
        r@ == dots_to_underscores(path_file_name(mod_path@)->0),
{
    let name = file_name_of(mod_path).unwrap();
    underscore_dots(name.as_str())
}

/// The file name of a path, or the empty text when it has none.
pub fn filename(path: &str) -> (r: String)
    ensures
        r@ == match path_file_name(path@) {
            Some(n) => n,
            None => Seq::<char>::empty(),
        },
{
    match file_name_of(path) {
        Some(n) => n,
        None => String::new(),
    }
}

/// The folder the samples of the module at `path` go to: a folder named
/// after the module inside `destination` when `with_folder`, else
/// `destination` itself.
pub open spec fn folder_spec(destination: Seq<char>, path: Seq<char>, with_folder: bool) -> Seq<char> {
    if with_folder {
        path_joined(destination, dots_to_underscores(path_file_name(path)->0))
    } else {
        destination
    }
}

/// The folder the samples of the module at `path` go to; see `folder_spec`.
pub fn folder(destination: &str, path: &str, with_folder: bool) -> (r: String)
    requires
        with_folder ==> path_file_name(path@) is Some,
    ensures
        r@ == folder_spec(destination@, path@, with_folder),
{
    if with_folder {
        let modname: String = mod_name(path);
        join_paths(destination, modname.as_str())
    } else {
        String::from_str(destination)
    }
}

/// The error for a destination folder that is already there.
pub open spec fn folder_exists_view(folder: Seq<char>) -> ErrorView {
    err_view(ErrorKind::FileError, "Folder already exists: "@ + folder)
}

/// Decides where the samples of a module go, given whether `folder` exists:
/// an existing folder is refused.
pub fn dump_target(folder: String, exists: bool) -> (r: Result<String, XmoditsError>)
    ensures
        exists ==> r is Err && r->Err_0@ == folder_exists_view(folder@),
        !exists ==> r is Ok && r->Ok_0@ == folder@,
{
    if exists {
        let mut msg = String::from_str("Folder already exists: ");
        msg.append(folder.as_str());
        return Err(XmoditsError::FileError(msg));
    }
    Ok(folder)
}

/// The folder the samples of the module at `mod_path` are ripped into: a new
/// folder named after the module inside `dest_dir`. Whether it exists is
/// asked of the file system, so either outcome is possible; an existing one
/// is refused.
pub fn dump_samples(mod_path: &str, dest_dir: &str) -> (r: Result<String, XmoditsError>)
    requires
        path_file_name(mod_path@) is Some,
    ensures
        r is Ok ==> r->Ok_0@ == folder_spec(dest_dir@, mod_path@, true),
        r is Err ==> r->Err_0@ == folder_exists_view(folder_spec(dest_dir@, mod_path@, true)),
{
    let folder = folder(dest_dir, mod_path, true);
    let exists = path_exists(folder.as_str());
    dump_target(folder, exists)
}

/// `dump_samples` for any path: `None` when the path has no file name to
/// name the folder after.
pub fn dump_destination(mod_path: &str, dest_dir: &str) -> (r: Option<Result<String, XmoditsError>>)
    ensures
        path_file_name(mod_path@) is None <==> r is None,
        r matches Some(Ok(f)) ==> f@ == folder_spec(dest_dir@, mod_path@, true),
        r matches Some(Err(e)) ==> e@ == folder_exists_view(folder_spec(dest_dir@, mod_path@, true)),
{
    match file_name_of(mod_path) {
        None => None,
        Some(_) => Some(dump_samples(mod_path, dest_dir)),
    }
}

/// Decides whether ripping into `dest_dir` may start, given whether it is a
/// directory: when each module gets a folder of its own, an existing
/// directory is refused.
pub fn advanced_target(dest_dir: &str, dest_is_dir: bool, with_folder: bool) -> (r: Result<(), XmoditsError>)
    ensures
        (dest_is_dir && with_folder) ==> r is Err && r->Err_0@ == folder_exists_view(dest_dir@),
        !(dest_is_dir && with_folder) ==> r is Ok,
{
    if dest_is_dir && with_folder {
        let mut msg = String::from_str("Folder already exists: ");
        msg.append(dest_dir);
        return Err(XmoditsError::FileError(msg));
    }
    Ok(())
}

/// The first check of an advanced rip: whether `dest_dir` is a directory is
/// asked of the file system; when each module gets a folder of its own, an
/// existing directory is refused.
pub fn dump_samples_advanced(dest_dir: &str, with_folder: bool) -> (r: Result<(), XmoditsError>)
    ensures
        !with_folder ==> r is Ok,
        r is Err ==> r->Err_0@ == folder_exists_view(dest_dir@),
{
    let is_dir = path_is_dir(dest_dir);
    advanced_target(dest_dir, is_dir, with_folder)
}

/// The extension a module is loaded by: the hint when one is given, else
/// the extension of its path in lower case.
pub fn load_ext(path: &str, hint: &Option<String>) -> (r: String)
    ensures
        r@ == match hint {
            Some(h) => h@,
            None => lowercased(
                match path_extension(path@) {
                    Some(e) => e,
                    None => Seq::<char>::empty(),
                },
            ),
        },
{
    match hint {
        Some(h) => h.clone(),
        None => {
            let ext = file_extension(path);
            to_lowercase(ext.as_str())
        },
    }
}

/// The extension of a path's file name, or the empty text when it has none.
pub fn file_extension(p: &str) -> (r: String)
    ensures
        r@ == match path_extension(p@) {
            Some(e) => e,
            None => Seq::<char>::empty(),
        },
{
    match extension_of(p) {
        Some(e) => e,
        None => String::new(),
    }
}

} // verus!

verus! {

/// The folder a path is in, as `std::path::Path::parent` gives it (the same
/// as the second of its ancestors).
pub uninterp spec fn path_parent(p: Seq<char>) -> Option<Seq<char>>;

/// Calls `std::path::Path::parent`; its result is named `path_parent`.
#[verifier::external_body]
fn parent_of(p: &str) -> (r: Option<String>)
    ensures
        match path_parent(p@) {
            Some(n) => r is Some && r->0@ == n,
            None => r is None,
        },
{
    match std::path::Path::new(p).parent() {
        Some(f) => Some(f.to_string_lossy().to_string()),
        None => None,
    }
}

/// The message for a folder that could not be created: when it was not
/// found, a hint to check the folder it goes in; else the error's own text.
pub open spec fn create_folder_message(folder: Seq<char>, not_found: bool, detail: Seq<char>) -> Seq<char> {
    "Could not create folder '"@ + folder + "'"@ + if not_found {
        ".\nMake sure directory '"@ + match path_parent(folder) {
            Some(p) => p,
            None => Seq::<char>::empty(),
        } + "' exists."@
    } else {
        " "@ + detail
    }
}

/// The error for a folder that could not be created; `not_found` says
/// whether the file system reported that a path was not found, and
/// `detail` is the text of its error.
pub fn helpful_io_error(folder: &str, not_found: bool, detail: &str) -> (r: XmoditsError)
    ensures
        r@ == err_view(ErrorKind::FileError, create_folder_message(folder@, not_found, detail@)),
{
    let mut msg = String::from_str("Could not create folder '");
    msg.append(folder);
    msg.append("'");
    if not_found {
        msg.append(".\nMake sure directory '");
        match parent_of(folder) {
            Some(p) => msg.append(p.as_str()),
            None => {},
        }
        msg.append("' exists.");
    } else {
        msg.append(" ");
        msg.append(detail);
    }
    assert(msg@ =~= create_folder_message(folder@, not_found, detail@));
    XmoditsError::FileError(msg)
}

/// The outcome of ripping several modules: success when none failed, the
/// one error when one did, all of them when several did.
pub fn combine_errors(errors: Vec<XmoditsError>) -> (r: Result<(), XmoditsError>)
    ensures
        errors@.len() == 0 ==> r is Ok,
        errors@.len() == 1 ==> r == Err::<(), XmoditsError>(errors@[0]),
        errors@.len() > 1 ==> (r matches Err(XmoditsError::MultipleErrors(v)) && v@ == errors@),
{
    let mut errors = errors;
    if errors.len() < 1 {
        Ok(())
    } else if errors.len() == 1 {
        Err(errors.pop().unwrap())
    } else {
        Err(XmoditsError::MultipleErrors(errors))
    }
}

} // verus!

verus! {

/// A character of a sample name as it goes into a file name: path
/// separators become `_`.
pub open spec fn file_safe(c: char) -> char {
    if c == '/' || c == '\\' {
        '_'
    } else {
        c
    }
}

/// A text without its leading spaces.
pub open spec fn strip_front(s: Seq<char>) -> Seq<char>
    decreases s.len(),
{
    if s.len() > 0 && s[0] == ' ' {
        strip_front(s.drop_first())
    } else {
        s
    }
}

/// A text without its trailing spaces.
pub open spec fn strip_back(s: Seq<char>) -> Seq<char>
    decreases s.len(),
{
    if s.len() > 0 && s.last() == ' ' {
        strip_back(s.drop_last())
    } else {
        s
    }
}

/// A sample index of at least two digits, padded with a leading zero.
pub open spec fn padded_index(n: nat) -> Seq<char> {
    if n < 10 {
        seq!['0'] + crate::compression::decimal(n)
    } else {
        crate::compression::decimal(n)
    }
}

/// The WAV file name of a sample: its one-based index (at least two
/// digits), then " - " and its name without surrounding spaces and with
/// path separators replaced, when that name is not empty.
pub open spec fn sample_file_name_spec(index: nat, name: Seq<char>) -> Seq<char> {
    let n = strip_back(strip_front(name)).map_values(|c: char| file_safe(c));
    if n.len() == 0 {
        padded_index(index) + ".wav"@
    } else {
        padded_index(index) + " - "@ + n + ".wav"@
    }
}

/// The characters of `v` from `lo` below `hi`, with path separators
/// replaced.
fn safe_range(v: &Vec<char>, lo: usize, hi: usize) -> (r: String)
    requires
        lo <= hi <= v@.len(),
    ensures
        r@ == v@.subrange(lo as int, hi as int).map_values(|c: char| file_safe(c)),
{
    let mut out = String::new();
    let mut i: usize = lo;
    while i < hi
        invariant
            lo <= i <= hi <= v@.len(),
            out@ == v@.subrange(lo as int, i as int).map_values(|c: char| file_safe(c)),
        decreases hi - i,
    {
        let c = v[i];
        if c == '/' || c == '\\' {
            crate::bytes::push_char(&mut out, '_');
        } else {
            crate::bytes::push_char(&mut out, c);
        }
        assert(out@ =~= v@.subrange(lo as int, i + 1).map_values(|c: char| file_safe(c)));
        i += 1;
    }
    out
}

/// Stripping leading spaces leaves the text from its first non-space on.
proof fn lemma_strip_front(s: Seq<char>, lo: int)
    requires
        0 <= lo <= s.len(),
        forall|k: int| 0 <= k < lo ==> s[k] == ' ',
        lo == s.len() || s[lo] != ' ',
    ensures
        strip_front(s) == s.subrange(lo, s.len() as int),
    decreases lo,
{
    if lo == 0 {
        assert(s.subrange(0, s.len() as int) =~= s);
    } else {
        assert(s.drop_first().subrange(lo - 1, s.len() - 1) =~= s.subrange(lo, s.len() as int));
        lemma_strip_front(s.drop_first(), lo - 1);
    }
}

/// Stripping trailing spaces leaves the text up to its last non-space.
proof fn lemma_strip_back(s: Seq<char>, hi: int)
    requires
        0 <= hi <= s.len(),
        forall|k: int| hi <= k < s.len() ==> s[k] == ' ',
        hi == 0 || s[hi - 1] != ' ',
    ensures
        strip_back(s) == s.subrange(0, hi),
    decreases s.len() - hi,
{
    if hi == s.len() {
        assert(s.subrange(0, hi) =~= s);
    } else {
        lemma_strip_back(s.drop_last(), hi);
        assert(s.drop_last().subrange(0, hi) =~= s.subrange(0, hi));
    }
}

/// The file name a sample is written to; see `sample_file_name_spec`.
pub fn sample_file_name(smp: &crate::sample::TrackerSample) -> (r: String)
    requires
        smp.raw_index < usize::MAX,
    ensures
        r@ == sample_file_name_spec((smp.raw_index + 1) as nat, smp.name@),
{
    let chars = crate::text::chars_of(smp.name.as_str());
    let n = chars.len();
    let mut lo: usize = 0;
    while lo < n && chars[lo] == ' '
        invariant
            n == chars@.len(),
            lo <= n,
            forall|k: int| 0 <= k < lo ==> chars@[k] == ' ',
        decreases n - lo,
    {
        lo += 1;
    }
    let mut hi: usize = n;
    while hi > lo && chars[hi - 1] == ' '
        invariant
            n == chars@.len(),
            lo <= hi <= n,
            forall|k: int| hi <= k < n ==> chars@[k] == ' ',
        decreases hi - lo,
    {
        hi -= 1;
    }
    proof {
        let s = chars@;
        lemma_strip_front(s, lo as int);
        let t = s.subrange(lo as int, n as int);
        let h = hi - lo;
        assert forall|k: int| h <= k < t.len() implies t[k] == ' ' by {
            assert(t[k] == s[lo + k]);
        }
        if h > 0 {
            assert(t[h - 1] == s[hi - 1]);
        }
        lemma_strip_back(t, h as int);
        assert(t.subrange(0, h as int) =~= s.subrange(lo as int, hi as int));
    }
    let name = safe_range(&chars, lo, hi);
    let index = smp.raw_index();
    let mut out = String::new();
    if index < 10 {
        out.append("0");
    }
    let digits = crate::text::decimal_text(index as u64);
    out.append(digits.as_str());
    let ghost pad = out@;
    proof {
        reveal_strlit("0");
        assert(pad =~= padded_index(index as nat));
    }
    if name.unicode_len() > 0 {
        out.append(" - ");
        out.append(name.as_str());
    }
    out.append(".wav");
    proof {
        assert(out@ =~= sample_file_name_spec((smp.raw_index + 1) as nat, smp.name@));
    }
    out
}

} // verus!

verus! {

/// The decimal digits of a number are digits.
proof fn lemma_decimal_digits(n: nat)
    ensures
        crate::compression::decimal(n).len() >= 1,
        n >= 10 ==> crate::compression::decimal(n).len() >= 2,
        forall|i: int|
            0 <= i < crate::compression::decimal(n).len() ==> '0' <= #[trigger] crate::compression::decimal(n)[i]
                <= '9',
    decreases n,
{
    if n >= 10 {
        lemma_decimal_digits(n / 10);
    }
}

/// A sample's file name is a single path component naming a WAV file: it
/// holds no path separator, starts with at least two digits (the padded
/// index) and ends in ".wav".
pub proof fn law_sample_file_name_is_one_wav_component(index: nat, name: Seq<char>)
    ensures
        sample_file_name_spec(index, name).len() >= 6,
        sample_file_name_spec(index, name).subrange(
            sample_file_name_spec(index, name).len() - 4,
            sample_file_name_spec(index, name).len() as int,
        ) == ".wav"@,
        forall|i: int|
            0 <= i < sample_file_name_spec(index, name).len() ==> #[trigger] sample_file_name_spec(index, name)[i]
                != '/' && sample_file_name_spec(index, name)[i] != '\\',
        '0' <= sample_file_name_spec(index, name)[0] <= '9',
        '0' <= sample_file_name_spec(index, name)[1] <= '9',
{
    reveal_strlit(".wav");
    reveal_strlit(" - ");
    lemma_decimal_digits(index);
    let d = padded_index(index);
    assert(d.len() >= 2);
    assert(forall|i: int| 0 <= i < d.len() ==> '0' <= #[trigger] d[i] <= '9');
    let n = strip_back(strip_front(name)).map_values(|c: char| file_safe(c));
    assert(forall|i: int| 0 <= i < n.len() ==> #[trigger] n[i] != '/' && n[i] != '\\');
    let r = sample_file_name_spec(index, name);
    if n.len() == 0 {
        assert(r == d + ".wav"@);
    } else {
        assert(r == d + " - "@ + n + ".wav"@);
    }
    assert(r.subrange(r.len() - 4, r.len() as int) =~= ".wav"@);
}

} // verus!
