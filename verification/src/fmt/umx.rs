//! Unreal packages (UMX) that hold one music module.
use crate::bytes::{le32, read_string, read_u32_le, read_u8, text_at, u32le_at, u8_at};
use crate::error::{err_view, oob_view, ErrorKind, ErrorView, XmoditsError};
use crate::fmt::it::{it_load, it_validate, ITFile};
use crate::fmt::s3m::{s3m_load, s3m_validate, S3MFile};
use crate::fmt::xm::{xm_load, xm_validate, XMFile};
use crate::interface::{ModuleModel, TrackerModule};
use vstd::prelude::*;
use vstd::string::StringExecFns;

verus! {

const UM_MAGIC_NUMBER: u32 = 0x9E2A83C1;

/// Whether any entry of the package's name table, from entry `i` of `n` on
/// (entry `i` at `offset`), reads "Music". Each entry is a length byte, the
/// field of that length read from the length byte on, a NUL and four flag
/// bytes. An entry that runs past the end is an error.
pub open spec fn umx_names(s: Seq<u8>, n: int, i: int, offset: int) -> Result<bool, ErrorView>
    decreases n - i,
{
    if i >= n {
        Ok(false)
    } else {
        match u8_at(s, offset) {
            None => Err(oob_view()),
            Some(l) => match text_at(s, offset, l as int) {
                None => Err(oob_view()),
                Some(name) => if offset + l + 5 > usize::MAX {
                    Err(oob_view())
                } else {
                    match umx_names(s, n, i + 1, offset + l + 5) {
                        Err(e) => Err(e),
                        Ok(b) => Ok(name == "Music"@ || b),
                    }
                },
            },
        }
    }
}

/// The checks an Unreal package must pass.
pub open spec fn umx_validate(s: Seq<u8>) -> Result<(), ErrorView> {
    if s.len() < 69 || le32(s, 0) != 0x9E2A83C1 {
        Err(err_view(ErrorKind::InvalidModule, "Not a valid Unreal package"@))
    } else if le32(s, 4) < 61 {
        Err(err_view(ErrorKind::UnsupportedFormat, "UMX versions below 61 are unsupported."@))
    } else if le32(s, 0x14) > 1 {
        Err(err_view(ErrorKind::UnsupportedFormat, "Unreal package contains more than 1 entry."@))
    } else {
        match umx_names(s, le32(s, 0x0c), 0, le32(s, 0x10)) {
            Err(e) => Err(e),
            Ok(false) => Err(err_view(ErrorKind::InvalidModule, "Unreal Package does not contain any music"@)),
            Ok(true) => Ok(()),
        }
    }
}

/// The compact index read after `offset` and the number of bytes it adds to
/// the offset. Only one-byte indices (bit 6 clear) can be read; any other
/// reads past its arithmetic, and is an error.
pub open spec fn compact_index(s: Seq<u8>, offset: int) -> Result<(int, int), ErrorView> {
    match u8_at(s, offset + 1) {
        None => Err(oob_view()),
        Some(x) => if x & 0x40u8 == 0 {
            Ok(((x & 0x3fu8) as int, 0))
        } else {
            Err(oob_view())
        },
    }
}

/// Whether the export table entry at `eo` can be walked: its class, super,
/// object name, serial size and serial offset indices.
pub open spec fn umx_export_ok(s: Seq<u8>, eo: int) -> bool {
    &&& compact_index(s, eo) is Ok
    &&& compact_index(s, eo + 4) is Ok
    &&& compact_index(s, eo + 8) is Ok
}

/// The module found in the package: the first of Impulse Tracker, Extended
/// Module and Scream Tracker 3 whose checks the whole package passes.
pub open spec fn umx_embedded(s: Seq<u8>) -> Result<ModuleModel, ErrorView> {
    if it_validate(s) is Ok {
        match it_load(s) {
            Ok(m) => Ok(ModuleModel::IT(m)),
            Err(e) => Err(e),
        }
    } else if xm_validate(s) is Ok {
        match xm_load(s) {
            Ok(m) => Ok(ModuleModel::XM(m)),
            Err(e) => Err(e),
        }
    } else if s3m_validate(s) is Ok {
        match s3m_load(s) {
            Ok(m) => Ok(ModuleModel::S3M(m)),
            Err(e) => Err(e),
        }
    } else {
        Err(err_view(ErrorKind::UnsupportedFormat, "UMX doesn't contain a supported format"@))
    }
}

/// Reading the module of an Unreal package, without the package checks.
pub open spec fn umx_load_unchecked(s: Seq<u8>) -> Result<ModuleModel, ErrorView> {
    match u32le_at(s, 0x18) {
        None => Err(oob_view()),
        Some(eo) => if umx_export_ok(s, eo as int) {
            umx_embedded(s)
        } else {
            Err(oob_view())
        },
    }
}

/// Reading the module of an Unreal package.
pub open spec fn umx_load(s: Seq<u8>) -> Result<ModuleModel, ErrorView> {
    match umx_validate(s) {
        Err(e) => Err(e),
        Ok(()) => umx_load_unchecked(s),
    }
}

/// An Unreal package. It is never loaded as such: loading one gives the
/// module it holds.
pub struct UMXFile {
    _private: (),
}

/// Reads the compact index after `offset`; see `compact_index`.
fn read_compact_index(buf: &[u8], offset: usize) -> (r: Result<(i32, usize), XmoditsError>)
    ensures
        match compact_index(buf@, offset as int) {
            Ok((v, n)) => r is Ok && r->Ok_0.0 == v && r->Ok_0.1 == n,
            Err(e) => r is Err && r->Err_0@ == e,
        },
{
    let _l = buf.len();
    let pos: usize = match offset.checked_add(1) {
        Some(p) => p,
        None => return Err(XmoditsError::OutOfBounds),
    };
    let x: u8 = match read_u8(buf, pos) {
        Some(x) => x,
        None => {
            assert(u8_at(buf@, offset + 1) is None);
            return Err(XmoditsError::OutOfBounds);
        },
    };
    if x & 0x40 == 0 {
        let v: u8 = x & 0x3f;
        Ok((v as i32, 0))
    } else {
        // a longer index shifts by a negative amount
        Err(XmoditsError::OutOfBounds)
    }
}

impl UMXFile {
    /// Checks an Unreal package: its magic number, version, export count,
    /// and that its name table names "Music".
    pub fn validate(buf: &[u8]) -> (r: Result<(), XmoditsError>)
        ensures
            match umx_validate(buf@) {
                Ok(()) => r is Ok,
                Err(e) => r is Err && r->Err_0@ == e,
            },
    {
        if buf.len() < 69 || read_u32_le(buf, 0x0000).unwrap() != UM_MAGIC_NUMBER {
            return Err(XmoditsError::invalid("Not a valid Unreal package"));
        }
        let version: u32 = read_u32_le(buf, 0x0004).unwrap();
        if version < 61 {
            return Err(XmoditsError::unsupported("UMX versions below 61 are unsupported."));
        }
        let export_count: u32 = read_u32_le(buf, 0x0014).unwrap();
        if export_count > 1 {
            return Err(XmoditsError::unsupported("Unreal package contains more than 1 entry."));
        }
        let name_count: u32 = read_u32_le(buf, 0x000C).unwrap();
        let name_offset: u32 = read_u32_le(buf, 0x0010).unwrap();
        let music = String::from_str("Music");
        let ghost goal = umx_names(buf@, name_count as int, 0, name_offset as int);
        let mut found: bool = false;
        let mut offset: usize = name_offset as usize;
        let mut i: u32 = 0;
        assert(umx_validate(buf@) == match goal {
            Err(e) => Err(e),
            Ok(false) => Err(err_view(ErrorKind::InvalidModule, "Unreal Package does not contain any music"@)),
            Ok(true) => Ok(()),
        });
        while i < name_count
            invariant
                i <= name_count,
                umx_validate(buf@) == match goal {
                    Err(e) => Err(e),
                    Ok(false) => Err(err_view(ErrorKind::InvalidModule, "Unreal Package does not contain any music"@)),
                    Ok(true) => Ok(()),
                },
                music@ == "Music"@,
                goal == umx_names(buf@, name_count as int, 0, name_offset as int),
                goal == match umx_names(buf@, name_count as int, i as int, offset as int) {
                    Err(e) => Err(e),
                    Ok(b) => Ok(found || b),
                },
            decreases name_count - i,
        {
            let length: u8 = match read_u8(buf, offset) {
                Some(l) => l,
                None => return Err(XmoditsError::OutOfBounds),
            };
            let name: String = match read_string(buf, offset, length as usize) {
                Some(n) => n,
                None => return Err(XmoditsError::OutOfBounds),
            };
            if name == music {
                found = true;
            }
            // skip the name, its NUL and its flags
            offset = match offset.checked_add(length as usize) {
                Some(o) => match o.checked_add(5) {
                    Some(o2) => o2,
                    None => return Err(XmoditsError::OutOfBounds),
                },
                None => return Err(XmoditsError::OutOfBounds),
            };
            i += 1;
        }
        if !found {
            return Err(XmoditsError::invalid("Unreal Package does not contain any music"));
        }
        Ok(())
    }

    /// Checks the package, then loads the module it holds.
    pub fn load_from_buf(buf: Vec<u8>) -> (r: Result<TrackerModule, XmoditsError>)
        ensures
            match umx_load(buf@) {
                Ok(m) => r is Ok && r->Ok_0@ == m && r->Ok_0.wf(),
                Err(e) => r is Err && r->Err_0@ == e,
            },
    {
        match Self::validate(buf.as_slice()) {
            Ok(()) => {},
            Err(e) => return Err(e),
        }
        Self::load_from_buf_unchecked(buf)
    }

    /// Walks the package's export entry, then loads the module it holds:
    /// the first format whose checks the package passes.
    pub fn load_from_buf_unchecked(buf: Vec<u8>) -> (r: Result<TrackerModule, XmoditsError>)
        ensures
            match umx_load_unchecked(buf@) {
                Ok(m) => r is Ok && r->Ok_0@ == m && r->Ok_0.wf(),
                Err(e) => r is Err && r->Err_0@ == e,
            },
    {
        let export_offset: usize = match read_u32_le(buf.as_slice(), 0x0018) {
            Some(v) => v as usize,
            None => return Err(XmoditsError::OutOfBounds),
        };
        let mut offset: usize = export_offset;
        // class index
        offset = match read_compact_index(buf.as_slice(), offset) {
            Ok((_, n)) => offset + n,
            Err(e) => return Err(e),
        };
        // super index
        offset = match read_compact_index(buf.as_slice(), offset) {
            Ok((_, n)) => offset + n,
            Err(e) => return Err(e),
        };
        offset = match offset.checked_add(4) {
            Some(o) => o,
            None => return Err(XmoditsError::OutOfBounds),
        };
        // object name
        offset = match read_compact_index(buf.as_slice(), offset) {
            Ok((_, n)) => offset + n,
            Err(e) => return Err(e),
        };
        // object flags
        offset = match offset.checked_add(4) {
            Some(o) => o,
            None => return Err(XmoditsError::OutOfBounds),
        };
        // serial size
        offset = match read_compact_index(buf.as_slice(), offset) {
            Ok((_, n)) => offset + n,
            Err(e) => return Err(e),
        };
        // serial offset
        let (_serial_offset, inc) = match read_compact_index(buf.as_slice(), offset) {
            Ok(x) => x,
            Err(e) => return Err(e),
        };
        offset = offset + inc;
        let _offset: usize = match offset.checked_add(2) {
            Some(o) => o,
            None => return Err(XmoditsError::OutOfBounds),
        };
        // the module is found by the checks it passes
        if ITFile::validate(buf.as_slice()).is_ok() {
            return match ITFile::load_from_buf(buf) {
                Ok(m) => Ok(TrackerModule::IT(m)),
                Err(e) => Err(e),
            };
        }
        if XMFile::validate(buf.as_slice()).is_ok() {
            return match XMFile::load_from_buf(buf) {
                Ok(m) => Ok(TrackerModule::XM(m)),
                Err(e) => Err(e),
            };
        }
        if S3MFile::validate(buf.as_slice()).is_ok() {
            return match S3MFile::load_from_buf(buf) {
                Ok(m) => Ok(TrackerModule::S3M(m)),
                Err(e) => Err(e),
            };
        }
        Err(XmoditsError::unsupported("UMX doesn't contain a supported format"))
    }
}

} // verus!

verus! {

/// The module an Unreal package yields is an Impulse Tracker, Extended
/// Module or Scream Tracker 3 module whose checks the package's bytes pass
/// (never an Amiga module).
pub proof fn law_umx_module_passes_its_checks(s: Seq<u8>)
    ensures
        umx_load_unchecked(s) matches Ok(ModuleModel::IT(_)) ==> it_validate(s) is Ok,
        umx_load_unchecked(s) matches Ok(ModuleModel::XM(_)) ==> xm_validate(s) is Ok,
        umx_load_unchecked(s) matches Ok(ModuleModel::S3M(_)) ==> s3m_validate(s) is Ok,
        !(umx_load_unchecked(s) matches Ok(ModuleModel::MOD(_))),
{
}

} // verus!
