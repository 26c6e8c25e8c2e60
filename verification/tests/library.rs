use xmodits::cli::{parse, parse_on, parse_with, Mode};
use xmodits::common::{
    sample_file_name, advanced_target, combine_errors, dump_target, file_extension, filename, folder, helpful_io_error, load_ext,
    mod_name,
};
use xmodits::crash::{Dump, Panic, SavedPanic};
use xmodits::data::filters::{Filter, Modifier, Name, Size, Condition};
use xmodits::data::general::GeneralConfig;
use xmodits::data::info::Info;
use xmodits::data::name_params::SampleNameParams;
use xmodits::data::theme::Themes;
use xmodits::data::time::Time;
use xmodits::deltadecode::{delta_decode_u16, delta_decode_u16_checked, delta_decode_u8, delta_decode_u8_checked};
use xmodits::error::XmoditsError;
use xmodits::gui::event::{filter, Event, Input, Key};
use xmodits::gui::simple::{log_path, rip_destination, rip_outcome, rip_start, Outcome, Start};
use xmodits::gui::settings::Workers;
use xmodits::gui::{app, icon, style, window};
use xmodits::sample::{LoopType, TrackerSample};
use xmodits::signed::{make_signed_u16, make_signed_u8};
use xmodits::text::{contains, decimal_text, ends_with, starts_with, str_eq};
use xmodits::wav::wav_header;

fn strings(v: &[&str]) -> Vec<String> {
    v.iter().map(|s| s.to_string()).collect()
}

#[test]
fn text_comparisons() {
    assert!(str_eq("abc", "abc"));
    assert!(!str_eq("abc", "abd"));
    assert!(!str_eq("abc", "ab"));
    assert!(starts_with("test2", "test"));
    assert!(!starts_with("te", "test"));
    assert!(ends_with("kick.wav", ".wav"));
    assert!(!ends_with("kick.wav", ".it"));
    assert!(contains("a test here", "test"));
    assert!(contains("abc", ""));
    assert!(!contains("abc", "abcd"));
    assert_eq!(decimal_text(0), "0");
    assert_eq!(decimal_text(1234), "1234");
}

#[test]
fn module_names_and_folders() {
    assert_eq!(mod_name("/music/song.it"), "song_it");
    assert_eq!(mod_name("a.b.c.xm"), "a_b_c_xm");
    assert_eq!(filename("/music/song.it"), "song.it");
    assert_eq!(filename("/"), "");
    assert_eq!(file_extension("/music/song.IT"), "IT");
    assert_eq!(file_extension("/music/song"), "");
    assert_eq!(folder("/out", "/music/song.it", true), "/out/song_it");
    assert_eq!(folder("/out", "/music/song.it", false), "/out");
    assert_eq!(load_ext("/music/SONG.IT", &None), "it");
    assert_eq!(load_ext("/music/SONG.IT", &Some("xm".to_string())), "xm");
}

#[test]
fn dump_targets() {
    assert_eq!(dump_target("/out/song_it".to_string(), false).unwrap(), "/out/song_it");
    match dump_target("/out/song_it".to_string(), true) {
        Err(XmoditsError::FileError(m)) => assert_eq!(m, "Folder already exists: /out/song_it"),
        _ => panic!("expected an existing folder"),
    }
    assert!(advanced_target("/out", true, false).is_ok());
    assert!(advanced_target("/out", false, true).is_ok());
    match advanced_target("/out", true, true) {
        Err(XmoditsError::FileError(m)) => assert_eq!(m, "Folder already exists: /out"),
        _ => panic!("expected an existing folder"),
    }
}

#[test]
fn io_error_messages() {
    match helpful_io_error("/a/b", true, "ignored") {
        XmoditsError::FileError(m) => assert_eq!(m, "Could not create folder '/a/b'.\nMake sure directory '/a' exists."),
        _ => panic!("expected a file error"),
    }
    match helpful_io_error("/a/b", false, "denied") {
        XmoditsError::FileError(m) => assert_eq!(m, "Could not create folder '/a/b' denied"),
        _ => panic!("expected a file error"),
    }
}

#[test]
fn combining_errors() {
    assert!(combine_errors(vec![]).is_ok());
    assert!(matches!(combine_errors(vec![XmoditsError::EmptyModule]), Err(XmoditsError::EmptyModule)));
    match combine_errors(vec![XmoditsError::EmptyModule, XmoditsError::OutOfBounds]) {
        Err(XmoditsError::MultipleErrors(v)) => assert_eq!(v.len(), 2),
        _ => panic!("expected several errors"),
    }
}

#[test]
fn command_line() {
    assert!(matches!(parse_with(&strings(&["--help"]), &vec![false], false), Mode::Help));
    assert!(matches!(parse_with(&strings(&["-V", "-h"]), &vec![false, false], false), Mode::Help));
    assert!(matches!(parse_with(&strings(&["-v"]), &vec![false], false), Mode::Version));
    assert!(matches!(parse_with(&strings(&["--version"]), &vec![false], false), Mode::Version));
    match parse_with(&strings(&["song.it", "-x"]), &vec![false, false], false) {
        Mode::Unrecognised(s) => assert_eq!(s, "-x"),
        _ => panic!("expected an unknown option"),
    }
    assert!(matches!(parse_with(&strings(&["-x"]), &vec![true], false), Mode::Launch));
    assert!(matches!(parse_with(&strings(&["song.it"]), &vec![false], false), Mode::Launch));
    assert!(matches!(parse(vec![]), Mode::Launch));
    match parse_with(&strings(&["a.it", "b.xm"]), &vec![false, false], true) {
        Mode::DragNDrop(v) => assert_eq!(v, strings(&["a.it", "b.xm"])),
        _ => panic!("expected dropped files"),
    }
    assert!(matches!(parse_with(&strings(&[]), &vec![], true), Mode::Launch));
    assert!(matches!(parse_with(&strings(&["-h", "a.it"]), &vec![false, false], true), Mode::Help));
    assert!(matches!(parse_on(vec![], true), Mode::Launch));
    match parse(strings(&["--no-such-option-here"])) {
        Mode::Unrecognised(s) => assert_eq!(s, "--no-such-option-here"),
        _ => panic!("expected an unknown option"),
    }
}

#[test]
fn wav_header_bytes() {
    let h = wav_header(8363, 8, 10);
    assert_eq!(h.len(), 44);
    assert_eq!(&h[0..4], b"RIFF");
    assert_eq!(&h[4..8], &46u32.to_le_bytes());
    assert_eq!(&h[8..16], b"WAVEfmt ");
    assert_eq!(&h[16..20], &16u32.to_le_bytes());
    assert_eq!(&h[20..24], &[1, 0, 1, 0]);
    assert_eq!(&h[24..28], &8363u32.to_le_bytes());
    assert_eq!(&h[28..32], &8363u32.to_le_bytes());
    assert_eq!(&h[32..36], &[1, 0, 8, 0]);
    assert_eq!(&h[36..40], b"data");
    assert_eq!(&h[40..44], &10u32.to_le_bytes());
}

#[test]
fn delta_decoding() {
    let mut b = vec![1u8, 1, 1, 0xff];
    delta_decode_u8(&mut b);
    assert_eq!(b, vec![129, 130, 131, 130]);
    let mut w = vec![0xff, 0xff, 2, 0, 9];
    delta_decode_u16(&mut w);
    assert_eq!(w, vec![0xff, 0xff, 1, 0, 9]);
}

#[test]
fn checked_delta_decodes_once() {
    let mut buf = vec![9u8, 1, 1, 1, 9];
    let mut smp = TrackerSample { ptr: 1, len: 3, ..Default::default() };
    let first = delta_decode_u8_checked(&mut buf, &mut smp);
    assert_eq!(first, vec![129, 130, 131]);
    assert!(smp.is_readable);
    let second = delta_decode_u8_checked(&mut buf, &mut smp);
    assert_eq!(first, second);
    assert_eq!(buf, vec![9, 129, 130, 131, 9]);
    let mut buf16 = vec![1u8, 0, 1, 0];
    let mut smp16 = TrackerSample { ptr: 0, len: 4, ..Default::default() };
    assert_eq!(delta_decode_u16_checked(&mut buf16, &mut smp16), vec![1, 0, 2, 0]);
    assert_eq!(delta_decode_u16_checked(&mut buf16, &mut smp16), vec![1, 0, 2, 0]);
}

#[test]
fn sign_conversion() {
    assert_eq!(make_signed_u8(&[0, 127, 128, 255]), vec![128, 255, 0, 127]);
    assert_eq!(make_signed_u16(&[0, 0, 0xff, 0x7f, 5]), vec![0, 0x80, 0xff, 0xff, 5]);
    assert_eq!(make_signed_u8(&make_signed_u8(&[3, 200])), vec![3, 200]);
}

#[test]
fn default_sample() {
    let s = TrackerSample::default();
    assert_eq!(s.len, 0);
    assert!(matches!(s.loop_type, LoopType::Off));
    assert!(matches!(LoopType::default(), LoopType::Off));
}

#[test]
fn name_filter() {
    let f = Name { contains: vec![], starts_with: vec![], ends_with: vec![], extensions: vec![] };
    assert!(f.matches("/any/path.xyz"));
    let f = Name {
        contains: strings(&["my song.it here"]),
        starts_with: strings(&["song.it!"]),
        ends_with: strings(&["the song.it"]),
        extensions: strings(&["it"]),
    };
    assert!(f.matches("/music/song.it"));
    assert!(!f.matches("/music/song.xm"));
    let d = Name::default();
    assert_eq!(d.contains.len(), 30);
    assert_eq!(d.contains[29], "test29");
    assert_eq!(d.starts_with, strings(&["test", "test2", "test3"]));
    assert_eq!(d.ends_with[49], "49");
    assert_eq!(d.extensions[0], "0");
}

#[test]
fn size_filter() {
    let s = Size { min: 2, max: 3, min_modifier: Modifier::KB, max_modifier: Modifier::KB };
    assert!(s.accepts_len(Some(2000)));
    assert!(s.accepts_len(Some(3000)));
    assert!(!s.accepts_len(Some(3001)));
    assert!(!s.accepts_len(None));
    let s = Size { min: 5, max: 0, min_modifier: Modifier::B, max_modifier: Modifier::MB };
    assert!(s.accepts_len(Some(5)));
    assert!(!s.accepts_len(Some(6)));
    let d = Size::default();
    assert_eq!((d.min, d.max), (1, 40));
    assert_eq!(Modifier::MB.bytes(), 1_000_000);
    assert_eq!(Modifier::B.name(), "bytes");
    assert!(matches!(Modifier::default(), Modifier::KB));
    assert!(!Size { min: 1, max: 1, min_modifier: Modifier::B, max_modifier: Modifier::B }.matches("/no/such/file/here"));
    assert!(matches!(Condition::default(), Condition::Created));
    assert_eq!(Condition::Modified.name(), "Modified");
}

#[test]
fn settings_defaults() {
    let g = GeneralConfig::default();
    assert!(g.hide_gif);
    assert!(matches!(g.theme, Themes::Catppuccin));
    assert_eq!(g.sample_name_params.raw_index, 7);
    let p = SampleNameParams::default();
    assert_eq!(p.sample_filename.as_deref(), Some("Kick_1.wav"));
    assert_eq!(p.module_source, "~/Downloads/music.it");
    let n = xmodits::data::sample_naming::SampleNameConfig::default();
    assert_eq!(n.index_padding, 2);
    assert!(n.prefer_filename);
    let r = xmodits::data::ripping_naming::SampleNameConfig::default();
    assert_eq!(r.index_padding, 0);
    assert!(!r.prefer_filename);
}

#[test]
fn themes() {
    assert!(matches!(Themes::default(), Themes::Dark));
    assert_eq!(Themes::LMMS.name(), "LMMS");
    assert_eq!(Themes::all().len(), 6);
    assert_eq!(Themes::Dark.palette().base.background, 0x272727);
    assert_eq!(Themes::Nord.palette().normal.error, 0xbf616a);
    assert_eq!(Themes::Catppuccin.palette().bright.surface, 0xFEFECD);
}

#[test]
fn timer() {
    let mut t = Time::init();
    assert_eq!(t.nanos(), 0);
    t.start();
    assert_eq!(t.nanos(), 0);
    t.stop();
}

#[test]
fn module_info() {
    let i = Info::invalid("bad".to_string(), "/a/b.it".to_string());
    assert_eq!(i.path(), "/a/b.it");
    assert!(i.matches("/a/b.it"));
    assert!(i.matches("/a//b.it"));
    assert!(!i.matches("/a/c.it"));
}

#[test]
fn window_events() {
    assert!(matches!(filter(Input::KeyReleased { key: Key::Delete, shift: true, command: false }, true), Some(Event::Clear)));
    assert!(matches!(filter(Input::KeyReleased { key: Key::Delete, shift: false, command: false }, true), Some(Event::Delete)));
    assert!(filter(Input::KeyReleased { key: Key::Delete, shift: true, command: false }, false).is_none());
    assert!(matches!(filter(Input::KeyReleased { key: Key::S, shift: false, command: true }, false), Some(Event::Save)));
    assert!(filter(Input::KeyReleased { key: Key::S, shift: false, command: false }, true).is_none());
    match filter(Input::FileDropped(3, "/a.it".to_string()), true) {
        Some(Event::FileDropped(3, p)) => assert_eq!(p, "/a.it"),
        _ => panic!("expected a dropped file"),
    }
    assert!(filter(Input::FileDropped(3, "/a.it".to_string()), false).is_none());
    assert!(matches!(filter(Input::Closed(2), false), Some(Event::Closed(2))));
    assert!(filter(Input::Other, true).is_none());
}

#[test]
fn run_without_window() {
    assert!(matches!(rip_start(&vec![true, true], &vec![false, true], false, &vec![true, true]), Start::PathContainsFolder));
    assert!(matches!(rip_start(&vec![false], &vec![true], false, &vec![true]), Start::ShowHelp));
    assert!(matches!(rip_start(&vec![true], &vec![false], true, &vec![false]), Start::NoValidModules));
    match rip_start(&vec![true, false, true], &vec![false, false, false], true, &vec![true, true, false]) {
        Start::Rip(v) => assert_eq!(v, vec![0]),
        _ => panic!("expected a rip"),
    }
    match rip_start(&vec![true, false, true], &vec![false, false, false], false, &vec![false, false, false]) {
        Start::Rip(v) => assert_eq!(v, vec![0, 2]),
        _ => panic!("expected a rip"),
    }
    assert_eq!(rip_outcome(0, false), Outcome::Success);
    assert_eq!(rip_outcome(1, false), Outcome::FailedSingle);
    assert_eq!(rip_outcome(1, true), Outcome::Quiet);
    assert_eq!(rip_outcome(2, true), Outcome::Partial);
    assert_eq!(rip_destination(true, None, "/d".to_string()), ".");
    assert_eq!(rip_destination(true, Some("/cwd".to_string()), "/d".to_string()), "/cwd");
    assert_eq!(rip_destination(false, Some("/cwd".to_string()), "/d".to_string()), "/d");
    assert_eq!(log_path(&None, &"/d".to_string()), "/d");
    assert_eq!(log_path(&Some("/logs".to_string()), &"/d".to_string()), "/logs");
}

#[test]
fn icons_and_styles() {
    assert_eq!(icon::folder(), '\u{f3d1}');
    assert_eq!(icon::calendar(), '\u{e803}');
    assert_eq!(icon::save(), '\u{e802}');
    assert!(matches!(style::Button::default(), style::Button::Primary));
    assert!(matches!(style::Container::default(), style::Container::Invisible));
    assert!(matches!(app::View::default(), app::View::Configure));
    assert!(matches!(window::View::default(), window::View::Configure));
}

#[test]
fn crash_reports() {
    let p = Panic { line: Some(12), file: "src/main.rs".to_string(), message: "boom".to_string() };
    let q = p.clone();
    assert!(p == q);
    let s = SavedPanic { panic: p, saved_to: None };
    assert_eq!(s.line(), Some(12));
    assert_eq!(s.file(), "src/main.rs");
    assert_eq!(s.message(), "boom");
    let d = Dump { location: Some(("src/main.rs".to_string(), 7)), message: None };
    assert_eq!(d.message(), "Unknown Panic");
    assert_eq!(d.file(), "src/main.rs");
    assert_eq!(d.line(), Some(7));
    assert_eq!(d.describe(), "Panic occurred in file:\n'src/main.rs'\nat line: 7.\n\n'Unknown Panic'");
    let d = Dump { location: None, message: Some("oops".to_string()) };
    assert_eq!(d.describe(), "Can't get location information...\n\n'oops'");
}

#[test]
fn error_constructors() {
    assert!(matches!(XmoditsError::from("boom".to_string()), XmoditsError::GenericError(m) if m == "boom"));
    let io = std::io::Error::new(std::io::ErrorKind::Other, "disk");
    assert!(matches!(XmoditsError::from(io), XmoditsError::IoError(_)));
    assert!(matches!(XmoditsError::invalid("a"), XmoditsError::InvalidModule(m) if m == "a"));
    assert!(matches!(XmoditsError::unsupported("b"), XmoditsError::UnsupportedFormat(m) if m == "b"));
    assert!(matches!(XmoditsError::file("c"), XmoditsError::FileError(m) if m == "c"));
    assert!(matches!(XmoditsError::out_of_bounds(), XmoditsError::OutOfBounds));
}

#[test]
fn worker_choices() {
    assert_eq!(Workers::choices().len(), 9);
    assert_eq!(Workers(0).label(), "Automatic");
    assert_eq!(Workers(12).label(), "12");
}

#[test]
fn error_texts() {
    assert_eq!(XmoditsError::invalid("bad header").message(), "Invalid Module: bad header");
    assert_eq!(XmoditsError::unsupported("XPK").message(), "XPK");
    assert_eq!(XmoditsError::file("nope").message(), "nope");
    assert_eq!(XmoditsError::EmptyModule.message(), "Module has no samples");
    assert_eq!(XmoditsError::GenericError("x".to_string()).message(), "Generic Error: x");
    assert_eq!(XmoditsError::SampleExtractionFailure("y".to_string()).message(), "Failed to rip sample: y ");
    assert_eq!(XmoditsError::MultipleErrors(vec![]).message(), "Multiple Errors");
    assert_eq!(
        XmoditsError::OutOfBounds.message(),
        "This module has caused an out of bounds error. This is a bug. Please add this module to your bug report."
    );
    let io = std::io::Error::new(std::io::ErrorKind::Other, "disk full");
    assert_eq!(XmoditsError::IoError(io).message(), "disk full");
}

#[test]
fn sample_file_names() {
    let s = TrackerSample { name: "  Kick/Snare  ".to_string(), raw_index: 2, ..Default::default() };
    assert_eq!(sample_file_name(&s), "03 - Kick_Snare.wav");
    let s = TrackerSample { name: "   ".to_string(), raw_index: 11, ..Default::default() };
    assert_eq!(sample_file_name(&s), "12.wav");
    let s = TrackerSample { name: "Bass".to_string(), raw_index: 99, ..Default::default() };
    assert_eq!(sample_file_name(&s), "100 - Bass.wav");
}
