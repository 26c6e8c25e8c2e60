//! A loaded module of any supported format, behind one interface.
use crate::error::{err_view, ErrorKind, ErrorView, XmoditsError};
use vstd::string::StringExecFns;
use crate::fmt::amig_mod::{mod_pcm, MODFile, ModModel};
use crate::fmt::it::{it_pcm, ITFile, ItModel};
use crate::fmt::s3m::{s3m_pcm, S3MFile, S3mModel};
use crate::fmt::xm::{xm_pcm, XMFile, XmModel};
use crate::sample::{samples_view, SampleModel, TrackerSample};
use vstd::prelude::*;

verus! {

/// A loaded module as the contracts see it.
pub enum ModuleModel {
    IT(ItModel),
    XM(XmModel),
    S3M(S3mModel),
    MOD(ModModel),
}

/// The samples a module lists.
pub open spec fn model_samples(m: ModuleModel) -> Seq<SampleModel> {
    match m {
        ModuleModel::IT(x) => x.samples,
        ModuleModel::XM(x) => x.samples,
        ModuleModel::S3M(x) => x.samples,
        ModuleModel::MOD(x) => x.samples,
    }
}

/// The name a module gives itself.
pub open spec fn model_name(m: ModuleModel) -> Seq<char> {
    match m {
        ModuleModel::IT(x) => x.title,
        ModuleModel::XM(x) => x.module_name,
        ModuleModel::S3M(x) => x.title,
        ModuleModel::MOD(x) => x.title,
    }
}

/// The name of a module's format.
pub open spec fn model_format(m: ModuleModel) -> Seq<char> {
    match m {
        ModuleModel::IT(_) => "Impulse Tracker"@,
        ModuleModel::XM(_) => "Extended Module"@,
        ModuleModel::S3M(_) => "Scream Tracker"@,
        ModuleModel::MOD(_) => "Amiga ProTracker"@,
    }
}

/// The PCM data of sample `index` of a module.
pub open spec fn model_pcm(m: ModuleModel, index: int) -> Result<Seq<u8>, ErrorView> {
    match m {
        ModuleModel::IT(x) => it_pcm(x, index),
        ModuleModel::XM(x) => xm_pcm(x, index),
        ModuleModel::S3M(x) => s3m_pcm(x, index),
        ModuleModel::MOD(x) => mod_pcm(x, index),
    }
}

/// What becomes of the destination folder before samples are written to it.
#[derive(PartialEq, Eq, Structural, Clone, Copy, Debug)]
pub enum FolderAction {
    /// The folder is there: write into it.
    Use,
    /// The folder is not there: create it, then write into it.
    Create,
}

/// The error for a destination that is not a directory.
pub open spec fn not_a_dir_view(folder: Seq<char>) -> ErrorView {
    err_view(
        ErrorKind::FileError,
        "Destination '"@ + folder + "' either doesn't exist or is not a directory"@,
    )
}

/// Whether the samples of a module with `n` samples can be dumped into
/// `folder`, and what becomes of the folder: a module without samples is
/// refused; a missing folder is created when `create` allows, else refused.
pub open spec fn dump_decision_spec(n: int, folder: Seq<char>, folder_is_dir: bool, create: bool) -> Result<FolderAction, ErrorView> {
    if n == 0 {
        Err(err_view(ErrorKind::EmptyModule, Seq::empty()))
    } else if !folder_is_dir {
        if create {
            Ok(FolderAction::Create)
        } else {
            Err(not_a_dir_view(folder))
        }
    } else {
        Ok(FolderAction::Use)
    }
}

/// A loaded tracker module.
pub enum TrackerModule {
    IT(ITFile),
    XM(XMFile),
    S3M(S3MFile),
    MOD(MODFile),
}

impl View for TrackerModule {
    type V = ModuleModel;

    open spec fn view(&self) -> ModuleModel {
        match self {
            TrackerModule::IT(x) => ModuleModel::IT(x@),
            TrackerModule::XM(x) => ModuleModel::XM(x@),
            TrackerModule::S3M(x) => ModuleModel::S3M(x@),
            TrackerModule::MOD(x) => ModuleModel::MOD(x@),
        }
    }
}

impl TrackerModule {
    /// The module's fields agree with each other.
    pub open spec fn wf(&self) -> bool {
        match self {
            TrackerModule::IT(x) => x.wf(),
            TrackerModule::XM(x) => x.wf(),
            TrackerModule::S3M(_) => true,
            TrackerModule::MOD(x) => x.wf(),
        }
    }

    /// Number of samples the module contains.
    pub fn number_of_samples(&self) -> (r: usize)
        requires
            self.wf(),
        ensures
            r == model_samples(self@).len(),
    {
        match self {
            TrackerModule::IT(x) => x.number_of_samples(),
            TrackerModule::XM(x) => x.number_of_samples(),
            TrackerModule::S3M(x) => x.number_of_samples(),
            TrackerModule::MOD(x) => x.number_of_samples(),
        }
    }

    /// Name of the module.
    pub fn module_name(&self) -> (r: &str)
        ensures
            r@ == model_name(self@),
    {
        match self {
            TrackerModule::IT(x) => x.module_name(),
            TrackerModule::XM(x) => x.module_name(),
            TrackerModule::S3M(x) => x.module_name(),
            TrackerModule::MOD(x) => x.module_name(),
        }
    }

    /// Name of the module's format.
    pub fn format(&self) -> (r: &'static str)
        ensures
            r@ == model_format(self@),
    {
        match self {
            TrackerModule::IT(x) => x.format(),
            TrackerModule::XM(x) => x.format(),
            TrackerModule::S3M(x) => x.format(),
            TrackerModule::MOD(x) => x.format(),
        }
    }

    /// The samples the module lists.
    pub fn list_sample_data(&self) -> (r: &[TrackerSample])
        ensures
            samples_view(r@) == model_samples(self@),
    {
        match self {
            TrackerModule::IT(x) => x.list_sample_data(),
            TrackerModule::XM(x) => x.list_sample_data(),
            TrackerModule::S3M(x) => x.list_sample_data(),
            TrackerModule::MOD(x) => x.list_sample_data(),
        }
    }

    /// The PCM data of sample `index`, ready for a WAV file. The module
    /// itself does not change as seen from outside.
    pub fn pcm(&mut self, index: usize) -> (r: Result<Vec<u8>, XmoditsError>)
        requires
            old(self).wf(),
            index < model_samples(old(self)@).len(),
        ensures
            final(self).wf(),
            final(self)@ == old(self)@,
            match model_pcm(old(self)@, index as int) {
                Ok(s) => r is Ok && r->Ok_0@ == s,
                Err(e) => r is Err && r->Err_0@ == e,
            },
    {
        match self {
            TrackerModule::IT(x) => x.pcm(index),
            TrackerModule::XM(x) => x.pcm(index),
            TrackerModule::S3M(x) => x.pcm(index),
            TrackerModule::MOD(x) => x.pcm(index),
        }
    }

    /// Decides, given whether `folder` is a directory, whether the module's
    /// samples can be dumped into it; see `dump_decision_spec`.
    pub fn dump_decision(&self, folder: &str, folder_is_dir: bool, create_dir_if_absent: bool) -> (r: Result<FolderAction, XmoditsError>)
        requires
            self.wf(),
        ensures
            match dump_decision_spec(model_samples(self@).len() as int, folder@, folder_is_dir, create_dir_if_absent) {
                Ok(a) => r == Ok::<FolderAction, XmoditsError>(a),
                Err(e) => r is Err && r->Err_0@ == e,
            },
    {
        if self.number_of_samples() == 0 {
            return Err(XmoditsError::EmptyModule);
        }
        if !folder_is_dir {
            if create_dir_if_absent {
                return Ok(FolderAction::Create);
            }
            let mut msg = String::from_str("Destination '");
            msg.append(folder);
            msg.append("' either doesn't exist or is not a directory");
            return Err(XmoditsError::FileError(msg));
        }
        Ok(FolderAction::Use)
    }

    /// Decides whether the module's samples can be dumped into `folder`.
    /// Whether it is a directory is asked of the file system, so either
    /// answer is possible; the decision then follows `dump_decision_spec`.
    pub fn dump(&self, folder: &str, create_dir_if_absent: bool) -> (r: Result<FolderAction, XmoditsError>)
        requires
            self.wf(),
        ensures
            exists|is_dir: bool|
                match #[trigger] dump_decision_spec(model_samples(self@).len() as int, folder@, is_dir, create_dir_if_absent) {
                    Ok(a) => r == Ok::<FolderAction, XmoditsError>(a),
                    Err(e) => r is Err && r->Err_0@ == e,
                },
    {
        let is_dir = crate::common::path_is_dir(folder);
        let r = self.dump_decision(folder, is_dir, create_dir_if_absent);
        assert(match dump_decision_spec(model_samples(self@).len() as int, folder@, is_dir, create_dir_if_absent) {
            Ok(a) => r == Ok::<FolderAction, XmoditsError>(a),
            Err(e) => r is Err && r->Err_0@ == e,
        });
        r
    }
}

} // verus!

verus! {

/// The PCM data of a sample has as many bytes as the sample's length says,
/// but for compressed Impulse Tracker samples: those decompress to their
/// length in samples, one byte each for 8-bit samples and two for 16-bit
/// ones.
pub proof fn law_pcm_length(m: ModuleModel, i: int)
    requires
        0 <= i < model_samples(m).len(),
    ensures
        model_pcm(m, i) matches Ok(d) ==> d.len() == {
            let smp = model_samples(m)[i];
            if m is IT && smp.is_compressed {
                if smp.bits == 16 {
                    2 * (smp.len as u32) as int
                } else {
                    (smp.len as u32) as int
                }
            } else {
                smp.len as int
            }
        },
{
    let smp = model_samples(m)[i];
    match m {
        ModuleModel::IT(x) => {
            if smp.is_compressed && smp.ptr <= x.buf.len() {
                crate::compression::law_decompressed_length(
                    x.buf.subrange(smp.ptr as int, x.buf.len() as int),
                    smp.len as u32,
                    smp.bits,
                    x.compat_ver == 0x0215,
                );
            }
        },
        _ => {},
    }
}

} // verus!
