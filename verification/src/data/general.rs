//! The general settings of the application.
use crate::data::name_params::SampleNameParams;
use crate::data::theme::Themes;
use vstd::prelude::*;

verus! {

/// The general settings.
#[derive(Debug, Clone)]
pub struct GeneralConfig {
    pub theme: Themes,
    pub logging_path: Option<String>,
    pub non_gui_quiet_output: bool,
    pub non_gui_use_cwd: bool,
    pub hide_gif: bool,
    pub idle_gif: Option<String>,
    pub ripping_gif: Option<String>,
    pub complete_gif: Option<String>,
    pub suppress_warnings: bool,
    pub sample_name_params: SampleNameParams,
}

impl Default for GeneralConfig {
    fn default() -> (r: Self)
        ensures
            r.logging_path is None,
            !r.non_gui_quiet_output,
            !r.non_gui_use_cwd,
            r.hide_gif,
            r.idle_gif is None,
            r.ripping_gif is None,
            r.complete_gif is None,
            !r.suppress_warnings,
            r.theme == Themes::Catppuccin,
            r.sample_name_params.module_name@ == "music"@,
            r.sample_name_params.sample_filename matches Some(f) && f@ == "Kick_1.wav"@,
            r.sample_name_params.sample_name@ == "Kick.wav"@,
            r.sample_name_params.module_source@ == "~/Downloads/music.it"@,
            r.sample_name_params.raw_index == 7,
            r.sample_name_params.seq_index == 0,
    {
        GeneralConfig {
            logging_path: None,
            non_gui_quiet_output: false,
            non_gui_use_cwd: false,
            hide_gif: true,
            idle_gif: None,
            ripping_gif: None,
            complete_gif: None,
            suppress_warnings: false,
            theme: Themes::Catppuccin,
            sample_name_params: SampleNameParams::default(),
        }
    }
}

} // verus!
