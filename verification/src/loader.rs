//! Choosing the format a module is read as.
use crate::error::{err_view, ErrorKind, ErrorView, XmoditsError};
use crate::fmt::amig_mod::{mod_load, mod_load_unchecked, mod_validate, MODFile, ModModel};
use crate::fmt::it::{it_load, it_validate, ITFile, ItModel};
use crate::fmt::s3m::{s3m_load, s3m_load_unchecked, s3m_validate, S3MFile, S3mModel};
use crate::fmt::umx::{umx_load, umx_load_unchecked, umx_validate, UMXFile};
use crate::fmt::xm::{xm_load, xm_load_unchecked, xm_validate, XMFile, XmModel};
use crate::interface::{ModuleModel, TrackerModule};
use crate::text::str_eq;
use vstd::prelude::*;
use vstd::string::StringExecFns;

verus! {

/// A format the loader knows, by the file extension it goes with.
#[derive(PartialEq, Eq, Structural, Clone, Copy, Debug)]
pub enum Format {
    IT,
    XM,
    S3M,
    UMX,
    MPTM,
    MOD,
}

/// The formats in the order the loader tries them. MOD has the fewest
/// checks, so it comes last.
pub open spec fn loader_order() -> Seq<Format> {
    seq![Format::IT, Format::XM, Format::S3M, Format::UMX, Format::MPTM, Format::MOD]
}

/// The file extension of a format.
pub open spec fn format_ext(f: Format) -> Seq<char> {
    match f {
        Format::IT => "it"@,
        Format::XM => "xm"@,
        Format::S3M => "s3m"@,
        Format::UMX => "umx"@,
        Format::MPTM => "mptm"@,
        Format::MOD => "mod"@,
    }
}

/// The format an extension names, if any.
pub open spec fn format_of(ext: Seq<char>) -> Option<Format> {
    if ext == "it"@ {
        Some(Format::IT)
    } else if ext == "xm"@ {
        Some(Format::XM)
    } else if ext == "s3m"@ {
        Some(Format::S3M)
    } else if ext == "umx"@ {
        Some(Format::UMX)
    } else if ext == "mptm"@ {
        Some(Format::MPTM)
    } else if ext == "mod"@ {
        Some(Format::MOD)
    } else {
        None
    }
}

/// The checks of a format.
pub open spec fn format_validate(f: Format, s: Seq<u8>) -> Result<(), ErrorView> {
    match f {
        Format::IT | Format::MPTM => it_validate(s),
        Format::XM => xm_validate(s),
        Format::S3M => s3m_validate(s),
        Format::UMX => umx_validate(s),
        Format::MOD => mod_validate(s),
    }
}

/// Reading a module in a format, once its checks have passed.
pub open spec fn format_load(f: Format, s: Seq<u8>) -> Result<ModuleModel, ErrorView> {
    match f {
        Format::IT | Format::MPTM => match it_load(s) {
            Ok(m) => Ok(ModuleModel::IT(m)),
            Err(e) => Err(e),
        },
        Format::XM => match xm_load_unchecked(s) {
            Ok(m) => Ok(ModuleModel::XM(m)),
            Err(e) => Err(e),
        },
        Format::S3M => match s3m_load_unchecked(s) {
            Ok(m) => Ok(ModuleModel::S3M(m)),
            Err(e) => Err(e),
        },
        Format::UMX => umx_load_unchecked(s),
        Format::MOD => match mod_load_unchecked(s) {
            Ok(m) => Ok(ModuleModel::MOD(m)),
            Err(e) => Err(e),
        },
    }
}

/// Whether a format is tried when the one the extension names fails its
/// checks: every other format but MPTM (the same as IT) and MOD (it has
/// almost no checks).
pub open spec fn is_fallback(g: Format, f: Format) -> bool {
    g != f && g != Format::MPTM && g != Format::MOD
}

/// The first format from position `i` of the loader's order on that is a
/// fallback for `f` and whose checks `s` passes.
pub open spec fn fallback_from(s: Seq<u8>, f: Format, i: int) -> Option<Format>
    decreases 6 - i,
{
    if i >= 6 || i < 0 {
        None
    } else if is_fallback(loader_order()[i], f) && format_validate(loader_order()[i], s) is Ok {
        Some(loader_order()[i])
    } else {
        fallback_from(s, f, i + 1)
    }
}

/// The message for an extension that names no format.
pub open spec fn unknown_ext_message(ext: Seq<char>) -> Seq<char> {
    "'"@ + ext + "' is not a supported format."@
}

/// Loading a module from its bytes and the extension it came with: the
/// format the extension names, if its checks pass; else the first fallback
/// whose checks pass; else the error of the named format's checks.
pub open spec fn load_ext_spec(s: Seq<u8>, ext: Seq<char>) -> Result<ModuleModel, ErrorView> {
    match format_of(ext) {
        None => Err(err_view(ErrorKind::UnsupportedFormat, unknown_ext_message(ext))),
        Some(f) => match format_validate(f, s) {
            Ok(()) => format_load(f, s),
            Err(named) => match fallback_from(s, f, 0) {
                Some(g) => format_load(g, s),
                None => Err(named),
            },
        },
    }
}

/// The format an extension names, if any.
pub fn format_from_ext(ext: &str) -> (r: Option<Format>)
    ensures
        r == format_of(ext@),
{
    if str_eq(ext, "it") {
        Some(Format::IT)
    } else if str_eq(ext, "xm") {
        Some(Format::XM)
    } else if str_eq(ext, "s3m") {
        Some(Format::S3M)
    } else if str_eq(ext, "umx") {
        Some(Format::UMX)
    } else if str_eq(ext, "mptm") {
        Some(Format::MPTM)
    } else if str_eq(ext, "mod") {
        Some(Format::MOD)
    } else {
        None
    }
}

/// The formats in the order the loader tries them.
pub fn loaders() -> (r: [Format; 6])
    ensures
        r@ == loader_order(),
{
    let r = [Format::IT, Format::XM, Format::S3M, Format::UMX, Format::MPTM, Format::MOD];
    assert(r@ =~= loader_order());
    r
}

/// Runs the checks of a format.
pub fn validate(f: Format, buf: &[u8]) -> (r: Result<(), XmoditsError>)
    ensures
        match format_validate(f, buf@) {
            Ok(()) => r is Ok,
            Err(e) => r is Err && r->Err_0@ == e,
        },
{
    match f {
        Format::IT | Format::MPTM => ITFile::validate(buf),
        Format::XM => XMFile::validate(buf),
        Format::S3M => S3MFile::validate(buf),
        Format::UMX => UMXFile::validate(buf),
        Format::MOD => MODFile::validate(buf),
    }
}

/// Reads a module in a format, once its checks have passed.
pub fn load(f: Format, buf: Vec<u8>) -> (r: Result<TrackerModule, XmoditsError>)
    ensures
        match format_load(f, buf@) {
            Ok(m) => r is Ok && r->Ok_0@ == m && r->Ok_0.wf(),
            Err(e) => r is Err && r->Err_0@ == e,
        },
{
    match f {
        Format::IT | Format::MPTM => match ITFile::load_from_buf(buf) {
            Ok(m) => Ok(TrackerModule::IT(m)),
            Err(e) => Err(e),
        },
        Format::XM => match XMFile::load_from_buf_unchecked(buf) {
            Ok(m) => Ok(TrackerModule::XM(m)),
            Err(e) => Err(e),
        },
        Format::S3M => match S3MFile::load_from_buf_unchecked(buf) {
            Ok(m) => Ok(TrackerModule::S3M(m)),
            Err(e) => Err(e),
        },
        Format::UMX => UMXFile::load_from_buf_unchecked(buf),
        Format::MOD => match MODFile::load_from_buf_unchecked(buf) {
            Ok(m) => Ok(TrackerModule::MOD(m)),
            Err(e) => Err(e),
        },
    }
}

/// Loads a module from its bytes, given the extension it came with.
///
/// The format the extension names is tried first; if its checks fail, the
/// other formats are tried in the loader's order (but MPTM and MOD), and the
/// first whose checks pass reads the module. If none does, the error of the
/// named format's checks is returned.
pub fn load_from_buf_ext(buf: Vec<u8>, ext: &str) -> (r: Result<TrackerModule, XmoditsError>)
    ensures
        match load_ext_spec(buf@, ext@) {
            Ok(m) => r is Ok && r->Ok_0@ == m && r->Ok_0.wf(),
            Err(e) => r is Err && r->Err_0@ == e,
        },
{
    let f = match format_from_ext(ext) {
        Some(f) => f,
        None => {
            let mut msg = String::from_str("'");
            msg.append(ext);
            msg.append("' is not a supported format.");
            return Err(XmoditsError::UnsupportedFormat(msg));
        },
    };
    let named_err = match validate(f, buf.as_slice()) {
        Ok(()) => return load(f, buf),
        Err(e) => e,
    };
    let order = loaders();
    let mut i: usize = 0;
    while i < 6
        invariant
            order@ == loader_order(),
            i <= 6,
            format_of(ext@) == Some(f),
            format_validate(f, buf@) is Err,
            named_err@ == format_validate(f, buf@)->Err_0,
            fallback_from(buf@, f, i as int) == fallback_from(buf@, f, 0),
        decreases 6 - i,
    {
        let g = order[i];
        if g != f && g != Format::MPTM && g != Format::MOD && validate(g, buf.as_slice()).is_ok() {
            return load(g, buf);
        }
        i += 1;
    }
    Err(named_err)
}

} // verus!

verus! {

/// Every format is named by its own extension.
pub proof fn law_extensions_name_their_format(f: Format)
    ensures
        format_of(format_ext(f)) == Some(f),
{
    reveal_strlit("it");
    reveal_strlit("xm");
    reveal_strlit("s3m");
    reveal_strlit("umx");
    reveal_strlit("mptm");
    reveal_strlit("mod");
    // the extensions differ in their first character or in their length
    assert("xm"@[0] != "it"@[0]);
    assert("s3m"@.len() != "it"@.len() && "s3m"@.len() != "xm"@.len());
    assert("umx"@.len() != "it"@.len() && "umx"@.len() != "xm"@.len() && "umx"@[0] != "s3m"@[0]);
    assert("mptm"@.len() != "it"@.len() && "mptm"@.len() != "xm"@.len() && "mptm"@.len() != "s3m"@.len()
        && "mptm"@.len() != "umx"@.len());
    assert("mod"@.len() != "it"@.len() && "mod"@.len() != "xm"@.len() && "mod"@[0] != "s3m"@[0]
        && "mod"@[0] != "umx"@[0] && "mod"@.len() != "mptm"@.len());
}

/// What `fallback_from` finds from position `i` on: a fallback whose checks
/// pass, with none before it; or, when it finds none, no fallback from `i`
/// on passes its checks.
proof fn lemma_fallback_from(s: Seq<u8>, f: Format, i: int)
    requires
        0 <= i <= 6,
    ensures
        match fallback_from(s, f, i) {
            Some(g) => exists|k: int|
                i <= k < 6 && loader_order()[k] == g && is_fallback(g, f) && format_validate(g, s) is Ok
                    && forall|j: int| i <= j < k ==> !(is_fallback(#[trigger] loader_order()[j], f)
                        && format_validate(loader_order()[j], s) is Ok),
            None => forall|j: int| i <= j < 6 ==> !(is_fallback(#[trigger] loader_order()[j], f)
                && format_validate(loader_order()[j], s) is Ok),
        },
    decreases 6 - i,
{
    if i < 6 {
        lemma_fallback_from(s, f, i + 1);
        if is_fallback(loader_order()[i], f) && format_validate(loader_order()[i], s) is Ok {
            assert(loader_order()[i] == loader_order()[i]);
        } else {
            match fallback_from(s, f, i + 1) {
                Some(g) => {
                    let k = choose|k: int|
                        i + 1 <= k < 6 && loader_order()[k] == g && is_fallback(g, f)
                            && format_validate(g, s) is Ok && forall|j: int|
                            i + 1 <= j < k ==> !(is_fallback(#[trigger] loader_order()[j], f)
                                && format_validate(loader_order()[j], s) is Ok);
                    assert forall|j: int| i <= j < k implies !(is_fallback(#[trigger] loader_order()[j], f)
                        && format_validate(loader_order()[j], s) is Ok) by {
                        if j == i {
                        }
                    }
                },
                None => {},
            }
        }
    }
}

/// Loading by extension: when the checks of the format the extension names
/// pass, the module is read in that format.
pub proof fn law_named_format_first(s: Seq<u8>, ext: Seq<char>, f: Format)
    requires
        format_of(ext) == Some(f),
        format_validate(f, s) is Ok,
    ensures
        load_ext_spec(s, ext) == format_load(f, s),
{
}

/// Loading by extension when the named format's checks fail: the module is
/// read in the first format of the loader's order, other than the named one,
/// MPTM and MOD, whose checks pass; when there is none, the named format's
/// error is returned.
pub proof fn law_fallback_order(s: Seq<u8>, ext: Seq<char>, f: Format)
    requires
        format_of(ext) == Some(f),
        format_validate(f, s) is Err,
    ensures
        match fallback_from(s, f, 0) {
            Some(g) => {
                &&& g != f && g != Format::MPTM && g != Format::MOD
                &&& format_validate(g, s) is Ok
                &&& load_ext_spec(s, ext) == format_load(g, s)
                &&& exists|k: int|
                    0 <= k < 6 && loader_order()[k] == g && forall|j: int|
                        0 <= j < k ==> !(is_fallback(#[trigger] loader_order()[j], f)
                            && format_validate(loader_order()[j], s) is Ok)
            },
            None => {
                &&& load_ext_spec(s, ext) == Err::<ModuleModel, ErrorView>(format_validate(f, s)->Err_0)
                &&& forall|g: Format| is_fallback(g, f) ==> format_validate(g, s) is Err
            },
        },
{
    lemma_fallback_from(s, f, 0);
    if fallback_from(s, f, 0) is None {
        assert forall|g: Format| is_fallback(g, f) implies format_validate(g, s) is Err by {
            let k: int = match g {
                Format::IT => 0,
                Format::XM => 1,
                Format::S3M => 2,
                Format::UMX => 3,
                Format::MPTM => 4,
                Format::MOD => 5,
            };
            assert(loader_order()[k] == g);
        }
    }
}

/// An extension that names no format is refused, whatever the bytes.
pub proof fn law_unknown_extension(s: Seq<u8>, ext: Seq<char>)
    requires
        format_of(ext) is None,
    ensures
        load_ext_spec(s, ext) == Err::<ModuleModel, ErrorView>(
            err_view(ErrorKind::UnsupportedFormat, unknown_ext_message(ext)),
        ),
{
}

} // verus!

verus! {

/// A module loaded by extension was read in a format whose checks its bytes
/// pass.
pub proof fn law_loaded_format_passes_checks(s: Seq<u8>, ext: Seq<char>)
    ensures
        load_ext_spec(s, ext) is Ok ==> exists|g: Format|
            format_validate(g, s) is Ok && load_ext_spec(s, ext) == #[trigger] format_load(g, s),
{
    match format_of(ext) {
        None => {},
        Some(f) => {
            if format_validate(f, s) is Ok {
                assert(load_ext_spec(s, ext) == format_load(f, s));
            } else {
                law_fallback_order(s, ext, f);
                match fallback_from(s, f, 0) {
                    Some(g) => {
                        assert(load_ext_spec(s, ext) == format_load(g, s));
                    },
                    None => {},
                }
            }
        },
    }
}

} // verus!

verus! {

/// The largest module file read: 64 MiB.
pub const MAX_FILESIZE_MB: u64 = 67108864;

/// Checks the size of a module file before it is read: no tracker module
/// comes close to 64 MiB, so a larger file is refused.
pub fn check_file_size(len: u64) -> (r: Result<(), XmoditsError>)
    ensures
        len > MAX_FILESIZE_MB ==> r is Err && r->Err_0@ == err_view(
            ErrorKind::FileError,
            "File provided is larger than 64MB. No tracker module should ever be close to that"@,
        ),
        len <= MAX_FILESIZE_MB ==> r is Ok,
{
    if len > MAX_FILESIZE_MB {
        return Err(
            XmoditsError::file(
                "File provided is larger than 64MB. No tracker module should ever be close to that",
            ),
        );
    }
    Ok(())
}

} // verus!

verus! {

/// Loading a module checks its header first: a module whose checks fail is
/// refused with their error, and one whose checks pass is read as loading
/// without the checks reads it.
pub proof fn law_loading_checks_first(s: Seq<u8>)
    ensures
        it_validate(s) is Err ==> it_load(s) == Err::<ItModel, ErrorView>(it_validate(s)->Err_0),
        xm_validate(s) is Err ==> xm_load(s) == Err::<XmModel, ErrorView>(xm_validate(s)->Err_0),
        s3m_validate(s) is Err ==> s3m_load(s) == Err::<S3mModel, ErrorView>(s3m_validate(s)->Err_0),
        mod_validate(s) is Err ==> mod_load(s) == Err::<ModModel, ErrorView>(mod_validate(s)->Err_0),
        umx_validate(s) is Err ==> umx_load(s) == Err::<ModuleModel, ErrorView>(umx_validate(s)->Err_0),
        xm_validate(s) is Ok ==> xm_load(s) == xm_load_unchecked(s),
        s3m_validate(s) is Ok ==> s3m_load(s) == s3m_load_unchecked(s),
        mod_validate(s) is Ok ==> mod_load(s) == mod_load_unchecked(s),
        umx_validate(s) is Ok ==> umx_load(s) == umx_load_unchecked(s),
{
}

} // verus!
