use xmodits::compression::decompress_sample;
use xmodits::error::XmoditsError;
use xmodits::fmt::it::ITFile;
use xmodits::fmt::s3m::S3MFile;
use xmodits::fmt::umx::UMXFile;
use xmodits::fmt::xm::XMFile;
use xmodits::interface::TrackerModule;
use xmodits::loader::{check_file_size, format_from_ext, load_from_buf_ext, Format};

fn put_u16(b: &mut Vec<u8>, off: usize, v: u16) {
    b[off..off + 2].copy_from_slice(&v.to_le_bytes());
}

fn put_u32(b: &mut Vec<u8>, off: usize, v: u32) {
    b[off..off + 4].copy_from_slice(&v.to_le_bytes());
}

fn put_bytes(b: &mut Vec<u8>, off: usize, s: &[u8]) {
    b[off..off + s.len()].copy_from_slice(s);
}

/// An IT module with one sample of the given flags and data.
fn it_module(flags: u8, len: u32, data: &[u8]) -> Vec<u8> {
    let hdr = 0xC4usize;
    let mut b = vec![0u8; hdr + 0x50];
    put_bytes(&mut b, 0, b"IMPM");
    put_bytes(&mut b, 4, b"Title");
    put_u16(&mut b, 0x24, 1);
    put_u16(&mut b, 0x28, 0x0214);
    put_u16(&mut b, 0x2A, 0x0214);
    put_u32(&mut b, 0xC0, hdr as u32);
    put_bytes(&mut b, hdr, b"IMPS");
    put_bytes(&mut b, hdr + 4, b"kick.wav");
    b[hdr + 0x12] = flags;
    put_bytes(&mut b, hdr + 0x14, b"Kick");
    put_u32(&mut b, hdr + 0x30, len);
    put_u32(&mut b, hdr + 0x3C, 8363);
    put_u32(&mut b, hdr + 0x48, (hdr + 0x50) as u32);
    b.extend_from_slice(data);
    b
}

/// An XM module with one instrument holding one sample of the given flags
/// and data.
fn xm_module(flags: u8, data: &[u8]) -> Vec<u8> {
    let mut b = vec![0u8; 80];
    put_bytes(&mut b, 0, b"Extended Module: ");
    put_bytes(&mut b, 0x11, b"Song");
    b[0x25] = 0x1a;
    put_bytes(&mut b, 0x26, b"FastTracker v2.00   ");
    put_u16(&mut b, 0x3A, 0x0104);
    put_u32(&mut b, 0x3C, 20);
    put_u16(&mut b, 0x46, 0);
    put_u16(&mut b, 0x48, 1);
    // instrument at 80: header of 29 bytes, one sample
    let ins = b.len();
    b.extend(vec![0u8; 29]);
    put_u32(&mut b, ins, 29);
    put_u16(&mut b, ins + 0x1b, 1);
    // sample header
    let smp = b.len();
    b.extend(vec![0u8; 40]);
    put_u32(&mut b, smp, data.len() as u32);
    b[smp + 0x0d] = 16; // finetune
    b[smp + 0x0e] = flags;
    b[smp + 0x10] = 0xF4; // relative note -12
    put_bytes(&mut b, smp + 0x12, b"Snare");
    b.extend_from_slice(data);
    b
}

/// An S3M module with one PCM instrument.
fn s3m_module(flags: u8, data: &[u8]) -> Vec<u8> {
    let mut b = vec![0u8; 0x60];
    put_bytes(&mut b, 0, b"Tune");
    b[0x1d] = 0x10;
    put_bytes(&mut b, 0x2c, b"SCRM");
    put_u16(&mut b, 0x20, 0); // orders
    put_u16(&mut b, 0x22, 1); // instruments
    // parapointer list at 0x60
    b.extend(vec![0u8; 16]);
    let ins = 0x70usize;
    put_u16(&mut b, 0x60, (ins / 16) as u16);
    b.extend(vec![0u8; 0x50]);
    b[ins] = 1;
    let off = ins + 13;
    let data_at = 0xC0usize;
    put_u16(&mut b, off + 1, (data_at / 16) as u16);
    put_u32(&mut b, off + 3, data.len() as u32 / if flags & 4 != 0 { 2 } else { 1 });
    b[off + 0x12] = flags;
    put_u32(&mut b, off + 0x13, 8363);
    put_bytes(&mut b, off + 0x23, b"Bass");
    b.resize(data_at, 0);
    b.extend_from_slice(data);
    b
}

#[test]
fn it_reads_header_and_sample() {
    let m = ITFile::load_from_buf(it_module(0b0000_0001, 3, &[0, 128, 255])).unwrap();
    assert_eq!(m.module_name(), "Title");
    assert_eq!(m.number_of_samples(), 1);
    assert_eq!(m.format(), "Impulse Tracker");
    let s = &m.list_sample_data()[0];
    assert_eq!(s.name, "Kick");
    assert_eq!(s.filename, "kick.wav");
    assert_eq!(s.len, 3);
    assert_eq!(s.bits, 8);
    assert_eq!(s.rate, 8363);
    assert_eq!(s.raw_index, 0);
    assert_eq!(s.raw_index(), 1);
    assert_eq!(s.ptr_range(), 0x114..0x117);
}

#[test]
fn it_pcm_8bit_is_made_signed() {
    let mut m = ITFile::load_from_buf(it_module(0b0000_0001, 3, &[0, 128, 255])).unwrap();
    assert_eq!(m.pcm(0).unwrap(), vec![128, 0, 127]);
}

#[test]
fn it_pcm_16bit_is_as_stored() {
    let mut m = ITFile::load_from_buf(it_module(0b0000_0011, 2, &[1, 2, 3, 4])).unwrap();
    assert_eq!(m.list_sample_data()[0].len, 4);
    assert_eq!(m.pcm(0).unwrap(), vec![1, 2, 3, 4]);
}

#[test]
fn it_compressed_sample_is_decompressed_once() {
    // one block of 2 bytes: a 9-bit delta of 5
    let mut m = ITFile::load_from_buf(it_module(0b0000_1001, 1, &[2, 0, 5, 0])).unwrap();
    assert!(m.list_sample_data()[0].is_compressed);
    let first = m.pcm(0).unwrap();
    let second = m.pcm(0).unwrap();
    assert_eq!(first, vec![133]);
    assert_eq!(first, second);
}

#[test]
fn it_sample_past_the_end_ends_the_list() {
    let m = ITFile::load_from_buf(it_module(0b0000_0001, 10, &[0, 1])).unwrap();
    assert_eq!(m.number_of_samples(), 0);
}

#[test]
fn it_rejects_short_and_zircon() {
    match ITFile::validate(&[0u8; 10]) {
        Err(XmoditsError::InvalidModule(m)) => assert_eq!(m, "File is not a valid Impulse Tracker module"),
        _ => panic!("expected an invalid module"),
    }
    let mut z = vec![0u8; 200];
    z[..6].copy_from_slice(b"ziRCON");
    match ITFile::validate(&z) {
        Err(XmoditsError::UnsupportedFormat(m)) => assert_eq!(m, "Unsupported IT: Uses 'ziRCON' sample compression"),
        _ => panic!("expected an unsupported module"),
    }
}

#[test]
fn decompress_sample_one_delta() {
    assert_eq!(decompress_sample(&[2, 0, 5, 0], 1, 8, false).unwrap(), vec![133]);
    assert_eq!(decompress_sample(&[2, 0, 5, 0], 1, 8, true).unwrap(), vec![133]);
}

#[test]
fn decompress_sample_errors() {
    match decompress_sample(&[0, 0, 5, 0], 1, 8, false) {
        Err(XmoditsError::GenericError(m)) => assert_eq!(m, "block size is zero >:("),
        _ => panic!("expected a zero block"),
    }
    match decompress_sample(&[9, 0, 5, 0], 1, 8, false) {
        Err(XmoditsError::GenericError(m)) => assert_eq!(m, "Cannot Allocate, buffer is too small"),
        _ => panic!("expected a short buffer"),
    }
    assert!(matches!(decompress_sample(&[2], 1, 8, false), Err(XmoditsError::OutOfBounds)));
}

#[test]
fn xm_reads_and_delta_decodes() {
    let m = XMFile::load_from_buf(xm_module(0, &[1, 1, 1])).unwrap();
    assert_eq!(m.module_name(), "Song");
    assert_eq!(m.number_of_samples(), 1);
    assert_eq!(m.format(), "Extended Module");
    let s = &m.list_sample_data()[0];
    assert_eq!(s.name, "Snare");
    assert_eq!(s.bits, 8);
    assert_eq!(s.len, 3);
    let t = m.tuning(0);
    assert_eq!(t.finetune, 16);
    assert_eq!(t.relative_note, -12);
    assert_eq!(m.pcm(0).unwrap(), vec![129, 130, 131]);
}

#[test]
fn xm_16bit_delta() {
    let m = XMFile::load_from_buf(xm_module(0x10, &[1, 0, 2, 0])).unwrap();
    assert_eq!(m.list_sample_data()[0].bits, 16);
    assert_eq!(m.pcm(0).unwrap(), vec![1, 0, 3, 0]);
}

#[test]
fn xm_set_rate() {
    let mut m = XMFile::load_from_buf(xm_module(0, &[1, 1, 1])).unwrap();
    assert_eq!(m.list_sample_data()[0].rate, 0);
    m.set_rate(0, 22050);
    assert_eq!(m.list_sample_data()[0].rate, 22050);
}

#[test]
fn xm_rejections() {
    let mut b = xm_module(0, &[1]);
    put_bytes(&mut b, 0x26, b"MOD Plugin packed   ");
    match XMFile::validate(&b) {
        Err(XmoditsError::UnsupportedFormat(m)) => assert_eq!(m, "Unsupported XM: Uses 'MOD plugin packed'"),
        _ => panic!("expected unsupported"),
    }
    let mut b = xm_module(0, &[1]);
    put_u16(&mut b, 0x3A, 0x0103);
    match XMFile::validate(&b) {
        Err(XmoditsError::UnsupportedFormat(m)) => assert_eq!(m, "Unsupported XM: Version below 0104"),
        _ => panic!("expected unsupported"),
    }
    match XMFile::validate(&[0u8; 20]) {
        Err(XmoditsError::InvalidModule(m)) => assert_eq!(m, "Not a valid Extended Module"),
        _ => panic!("expected invalid"),
    }
}

#[test]
fn s3m_reads_sample() {
    let m = S3MFile::load_from_buf(s3m_module(0, &[10, 20, 30, 40])).unwrap();
    assert_eq!(m.module_name(), "Tune");
    assert_eq!(m.number_of_samples(), 1);
    let s = &m.list_sample_data()[0];
    assert_eq!(s.name, "Bass");
    assert_eq!(s.len, 4);
    assert_eq!(s.rate, 8363);
    assert_eq!(m.pcm(0).unwrap(), vec![10, 20, 30, 40]);
}

#[test]
fn s3m_16bit_is_made_signed() {
    let m = S3MFile::load_from_buf(s3m_module(4, &[1, 2, 3, 4])).unwrap();
    assert_eq!(m.list_sample_data()[0].bits, 16);
    assert_eq!(m.pcm(0).unwrap(), vec![1, 130, 3, 132]);
}

#[test]
fn s3m_rejects_other_files() {
    match S3MFile::validate(&[0u8; 0x70]) {
        Err(XmoditsError::InvalidModule(m)) => assert_eq!(m, "File is not a valid Scream Tracker Module"),
        _ => panic!("expected invalid"),
    }
}

/// An Unreal package whose bytes also pass the Scream Tracker 3 checks.
fn umx_package(name: &[u8]) -> Vec<u8> {
    let mut b = s3m_module(0, &[1, 2]);
    let names = b.len();
    b.extend(vec![0u8; 32]);
    let export = names + 16;
    put_u32(&mut b, 0, 0x9E2A83C1);
    put_u32(&mut b, 4, 61);
    put_u32(&mut b, 0x0C, 1);
    put_u32(&mut b, 0x10, names as u32);
    put_u32(&mut b, 0x14, 1);
    put_u32(&mut b, 0x18, export as u32);
    b[names] = (name.len() + 1) as u8;
    put_bytes(&mut b, names + 1, name);
    b
}

#[test]
fn umx_yields_the_module_it_holds() {
    match UMXFile::load_from_buf(umx_package(b"Music")).unwrap() {
        TrackerModule::S3M(m) => assert_eq!(m.format(), "Scream Tracker"),
        _ => panic!("expected the Scream Tracker module"),
    }
}

#[test]
fn umx_rejections() {
    match UMXFile::validate(&umx_package(b"Sound")) {
        Err(XmoditsError::InvalidModule(m)) => assert_eq!(m, "Unreal Package does not contain any music"),
        _ => panic!("expected no music"),
    }
    let mut b = umx_package(b"Music");
    put_u32(&mut b, 4, 60);
    match UMXFile::validate(&b) {
        Err(XmoditsError::UnsupportedFormat(m)) => assert_eq!(m, "UMX versions below 61 are unsupported."),
        _ => panic!("expected old version"),
    }
    let mut b = umx_package(b"Music");
    put_u32(&mut b, 0x14, 2);
    match UMXFile::validate(&b) {
        Err(XmoditsError::UnsupportedFormat(m)) => assert_eq!(m, "Unreal package contains more than 1 entry."),
        _ => panic!("expected many entries"),
    }
    match UMXFile::validate(&[0u8; 10]) {
        Err(XmoditsError::InvalidModule(m)) => assert_eq!(m, "Not a valid Unreal package"),
        _ => panic!("expected invalid"),
    }
    let mut b = umx_package(b"Music");
    put_bytes(&mut b, 0x2c, b"XXXX");
    match UMXFile::load_from_buf(b) {
        Err(XmoditsError::UnsupportedFormat(m)) => assert_eq!(m, "UMX doesn't contain a supported format"),
        _ => panic!("expected nothing inside"),
    }
    let mut b = umx_package(b"Music");
    let export = b.len() - 16;
    b[export + 1] = 0x40;
    assert!(matches!(UMXFile::load_from_buf(b), Err(XmoditsError::OutOfBounds)));
}

#[test]
fn loader_uses_named_format() {
    match load_from_buf_ext(it_module(1, 3, &[0, 1, 2]), "it").unwrap() {
        TrackerModule::IT(m) => assert_eq!(m.module_name(), "Title"),
        _ => panic!("expected IT"),
    }
    match load_from_buf_ext(it_module(1, 3, &[0, 1, 2]), "mptm").unwrap() {
        TrackerModule::IT(_) => {}
        _ => panic!("expected IT"),
    }
}

#[test]
fn loader_falls_back_to_a_format_that_passes() {
    match load_from_buf_ext(it_module(1, 3, &[0, 1, 2]), "xm").unwrap() {
        TrackerModule::IT(_) => {}
        _ => panic!("expected IT by fallback"),
    }
    match load_from_buf_ext(xm_module(0, &[1]), "s3m").unwrap() {
        TrackerModule::XM(_) => {}
        _ => panic!("expected XM by fallback"),
    }
}

#[test]
fn loader_returns_the_named_formats_error() {
    match load_from_buf_ext(vec![0u8; 100], "xm") {
        Err(XmoditsError::InvalidModule(m)) => assert_eq!(m, "Not a valid Extended Module"),
        _ => panic!("expected the XM error"),
    }
}

#[test]
fn loader_refuses_unknown_extension() {
    match load_from_buf_ext(vec![0u8; 100], "wav") {
        Err(XmoditsError::UnsupportedFormat(m)) => assert_eq!(m, "'wav' is not a supported format."),
        _ => panic!("expected unsupported"),
    }
    assert_eq!(format_from_ext("umx"), Some(Format::UMX));
    assert_eq!(format_from_ext("IT"), None);
}

#[test]
fn module_interface_dispatches() {
    let mut m = load_from_buf_ext(s3m_module(0, &[7, 8]), "s3m").unwrap();
    assert_eq!(m.number_of_samples(), 1);
    assert_eq!(m.module_name(), "Tune");
    assert_eq!(m.format(), "Scream Tracker");
    assert_eq!(m.list_sample_data()[0].name, "Bass");
    assert_eq!(m.pcm(0).unwrap(), vec![7, 8]);
}

#[test]
fn file_size_limit() {
    assert!(check_file_size(64 * 1024 * 1024).is_ok());
    match check_file_size(64 * 1024 * 1024 + 1) {
        Err(XmoditsError::FileError(m)) => assert_eq!(
            m,
            "File provided is larger than 64MB. No tracker module should ever be close to that"
        ),
        _ => panic!("expected too large"),
    }
}

#[test]
fn loading_checks_the_header_first() {
    match XMFile::load_from_buf(vec![0u8; 20]) {
        Err(XmoditsError::InvalidModule(m)) => assert_eq!(m, "Not a valid Extended Module"),
        _ => panic!("expected the XM check's error"),
    }
    match S3MFile::load_from_buf(vec![0u8; 20]) {
        Err(XmoditsError::InvalidModule(m)) => assert_eq!(m, "File is not a valid Scream Tracker Module"),
        _ => panic!("expected the S3M check's error"),
    }
    match ITFile::load_from_buf(vec![0u8; 20]) {
        Err(XmoditsError::InvalidModule(m)) => assert_eq!(m, "File is not a valid Impulse Tracker module"),
        _ => panic!("expected the IT check's error"),
    }
    match UMXFile::load_from_buf(vec![0u8; 20]) {
        Err(XmoditsError::InvalidModule(m)) => assert_eq!(m, "Not a valid Unreal package"),
        _ => panic!("expected the UMX check's error"),
    }
}

#[test]
fn pcm_has_the_sample_length() {
    let m = XMFile::load_from_buf(xm_module(0x10, &[1, 0, 2, 0, 3, 0])).unwrap();
    assert_eq!(m.pcm(0).unwrap().len(), m.list_sample_data()[0].len);
    let m = S3MFile::load_from_buf(s3m_module(0, &[1, 2, 3])).unwrap();
    assert_eq!(m.pcm(0).unwrap().len(), m.list_sample_data()[0].len);
}
