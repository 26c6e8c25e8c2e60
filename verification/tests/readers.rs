use xmodits::compression::decompress_sample;
use xmodits::data::info::Info;
use xmodits::error::XmoditsError;
use xmodits::fmt::amig_mod::MODFile;
use xmodits::interface::{FolderAction, TrackerModule};
use xmodits::it::scan;
use xmodits::it::tracker::ItFile;
use xmodits::loader::load_from_buf_ext;

fn put_u16(b: &mut Vec<u8>, off: usize, v: u16) {
    b[off..off + 2].copy_from_slice(&v.to_le_bytes());
}

fn put_u32(b: &mut Vec<u8>, off: usize, v: u32) {
    b[off..off + 4].copy_from_slice(&v.to_le_bytes());
}

fn put_bytes(b: &mut Vec<u8>, off: usize, s: &[u8]) {
    b[off..off + s.len()].copy_from_slice(s);
}

fn it_module(flags: u8, len: u32, data: &[u8]) -> Vec<u8> {
    let hdr = 0xC4usize;
    let mut b = vec![0u8; hdr + 0x50];
    put_bytes(&mut b, 0, b"IMPM");
    put_bytes(&mut b, 4, b"Title");
    put_u16(&mut b, 0x24, 1);
    put_u16(&mut b, 0x28, 0x0214);
    put_u16(&mut b, 0x2A, 0x0215);
    put_u32(&mut b, 0xC0, hdr as u32);
    put_bytes(&mut b, hdr, b"IMPS");
    put_bytes(&mut b, hdr + 4, b"kick.wav");
    b[hdr + 0x12] = flags;
    put_bytes(&mut b, hdr + 0x14, b"Kick");
    put_u32(&mut b, hdr + 0x30, len);
    put_u32(&mut b, hdr + 0x3C, 8363);
    put_u32(&mut b, hdr + 0x48, (hdr + 0x50) as u32);
    b.extend_from_slice(data);
    b
}

fn mod_module(data: &[u8]) -> Vec<u8> {
    let mut b = vec![0u8; 0x43c + 1024];
    put_bytes(&mut b, 0, b"Amiga song");
    put_bytes(&mut b, 0x14, b"Lead");
    b[0x14 + 0x16..0x14 + 0x18].copy_from_slice(&((data.len() / 2) as u16).to_be_bytes());
    put_bytes(&mut b, 0x438, b"M.K.");
    b.extend_from_slice(data);
    b
}

#[test]
fn mod_reads_sample() {
    let m = MODFile::load_from_buf(mod_module(&[0, 1, 128, 255])).unwrap();
    assert_eq!(m.module_name(), "Amiga song");
    assert_eq!(m.number_of_samples(), 1);
    assert_eq!(m.format(), "Amiga ProTracker");
    let s = &m.list_sample_data()[0];
    assert_eq!(s.name, "Lead");
    assert_eq!(s.len, 4);
    assert_eq!(s.rate, 8363);
    assert_eq!(m.pcm(0).unwrap(), vec![128, 129, 0, 127]);
}

#[test]
fn mod_rejections() {
    match MODFile::validate(&[0u8; 100]) {
        Err(XmoditsError::InvalidModule(m)) => assert_eq!(m, "Not a valid MOD file"),
        _ => panic!("expected invalid"),
    }
    let mut b = mod_module(&[0, 1]);
    put_bytes(&mut b, 0, b"PP20");
    match MODFile::validate(&b) {
        Err(XmoditsError::UnsupportedFormat(m)) => assert_eq!(m, "XPK compressed MOD files are not supported"),
        _ => panic!("expected unsupported"),
    }
    assert!(matches!(MODFile::load_from_buf(mod_module(&[])), Err(XmoditsError::EmptyModule)));
}

#[test]
fn tracker_reader_exports_wav() {
    let m = ItFile::load_from_buf(it_module(1, 3, &[0, 128, 255])).unwrap();
    assert_eq!(m.number_of_samples(), 1);
    let wav = m.export_data(0).unwrap();
    assert_eq!(wav.len(), 47);
    assert_eq!(&wav[0..4], b"RIFF");
    assert_eq!(&wav[40..44], &3u32.to_le_bytes());
    assert_eq!(&wav[44..], &[128, 0, 127]);
    // an index past the last sample stands for the last one
    assert_eq!(m.export_data(9).unwrap(), wav);
    assert!(matches!(m.export_data(1), Err(XmoditsError::OutOfBounds)));
}

#[test]
fn tracker_reader_16bit_and_errors() {
    let m = ItFile::load_from_buf(it_module(3, 2, &[1, 2, 3, 4])).unwrap();
    let wav = m.export_data(0).unwrap();
    assert_eq!(&wav[34..36], &[16, 0]);
    assert_eq!(&wav[44..], &[1, 2, 3, 4]);
    match ItFile::load_from_buf(vec![0u8; 10]) {
        Err(XmoditsError::GenericError(m)) => assert_eq!(m, "File is not a valid Impulse Tracker Module"),
        _ => panic!("expected invalid"),
    }
    let mut b = it_module(1, 3, &[0, 1, 2]);
    put_u16(&mut b, 0x24, 0);
    match ItFile::load_from_buf(b) {
        Err(XmoditsError::GenericError(m)) => assert_eq!(m, "IT module doesn't contain any samples."),
        _ => panic!("expected no samples"),
    }
    let mut b = it_module(1, 3, &[0, 1, 2]);
    put_bytes(&mut b, 0xC4, b"XXXX");
    put_u16(&mut b, 0x24, 4);
    match ItFile::load_from_buf(b) {
        Err(XmoditsError::GenericError(m)) => assert_eq!(
            m,
            "IT module doesn't contain any samples. Despite showing that it has \"4\" samples"
        ),
        _ => panic!("expected no headers"),
    }
}

#[test]
fn pointer_reader_lists_samples() {
    let m = xmodits::it::ITFile::load_from_buf(it_module(0b0000_0101, 3, &[0, 1, 2])).unwrap();
    assert_eq!(m.module_name(), "Title");
    assert_eq!(m.number_of_samples(), 1);
    assert_eq!(m.compat_ver, 0x0215);
    let s = &m.smp_data[0];
    assert_eq!(s.filename, "kick.wav");
    assert_eq!(s.name, "Kick");
    assert_eq!(s.smp_len, 3);
    assert_eq!(s.smp_bits, 8);
    assert!(s.smp_stereo);
    assert!(!s.smp_comp);
    let mut b = it_module(1, 0, &[]);
    put_u32(&mut b, 0xC4 + 0x30, 0);
    assert_eq!(xmodits::it::ITFile::load_from_buf(b).unwrap().number_of_samples(), 0);
}

#[test]
fn scanning_reader_lists_samples() {
    let m = scan::ITFile::load_from_buf(it_module(0b0000_1010, 3, &[0, 1, 2])).unwrap();
    assert_eq!(m.number_of_samples(), 1);
    assert_eq!(m.version, 0x0214);
    let s = &m.samples_meta[0];
    assert_eq!(s.filename.iter().take(8).collect::<String>(), "kick.wav");
    assert_eq!(s.filename[8], '\0');
    assert_eq!(s.name.iter().take(4).collect::<String>(), "Kick");
    assert_eq!(s.smp_bits, 16);
    assert!(s.smp_comp);
    assert_eq!(s.smp_rate, 8363);
}

#[test]
fn dump_decisions() {
    let m = load_from_buf_ext(it_module(1, 3, &[0, 1, 2]), "it").unwrap();
    assert_eq!(m.dump_decision("/x", true, false).unwrap(), FolderAction::Use);
    assert_eq!(m.dump_decision("/x", false, true).unwrap(), FolderAction::Create);
    match m.dump_decision("/x", false, false) {
        Err(XmoditsError::FileError(e)) => assert_eq!(e, "Destination '/x' either doesn't exist or is not a directory"),
        _ => panic!("expected not a directory"),
    }
    let empty = load_from_buf_ext(it_module(1, 10, &[0]), "it").unwrap();
    assert!(matches!(empty.dump_decision("/x", true, true), Err(XmoditsError::EmptyModule)));
    assert!(matches!(empty.dump("/", true), Err(XmoditsError::EmptyModule)));
    assert_eq!(m.dump("/", false).unwrap(), FolderAction::Use);
}

#[test]
fn info_of_a_module() {
    let m = load_from_buf_ext(it_module(1, 3, &[0, 1, 2]), "it").unwrap();
    match Info::valid(&m, "/a.it".to_string()) {
        Info::Valid { path, name, format, samples, total_sample_size } => {
            assert_eq!(path, "/a.it");
            assert_eq!(name, "Title");
            assert_eq!(format, "Impulse Tracker");
            assert_eq!(samples, 1);
            assert_eq!(total_sample_size, 0);
        }
        _ => panic!("expected a valid module"),
    }
    let big = load_from_buf_ext(it_module(1, 2048, &vec![0u8; 2048]), "it").unwrap();
    match Info::valid(&big, "/b.it".to_string()) {
        Info::Valid { total_sample_size, .. } => assert_eq!(total_sample_size, 2),
        _ => panic!("expected a valid module"),
    }
}

#[test]
fn decompressed_lengths() {
    // 16-bit: one block whose first 17-bit value is a delta of 5
    let out = decompress_sample(&[3, 0, 5, 0, 0], 1, 16, false).unwrap();
    assert_eq!(out, vec![5, 0]);
    let out8 = decompress_sample(&[2, 0, 5, 0], 1, 8, false).unwrap();
    assert_eq!(out8.len(), 1);
}

#[test]
fn modules_loaded_by_extension_pass_their_checks() {
    match load_from_buf_ext(mod_module(&[1, 2]), "mod").unwrap() {
        TrackerModule::MOD(m) => assert_eq!(m.number_of_samples(), 1),
        _ => panic!("expected MOD"),
    }
    // MOD is never a fallback
    match load_from_buf_ext(mod_module(&[1, 2]), "it") {
        Err(XmoditsError::InvalidModule(e)) => assert_eq!(e, "File is not a valid Impulse Tracker module"),
        _ => panic!("expected the IT error"),
    }
}
