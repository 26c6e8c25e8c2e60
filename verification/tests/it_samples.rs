use xmodits::compression::BitReader;
use xmodits::fmt::it::{sample_bits, sample_compressed};

#[test]
fn test_flag_set() {
    let f1_8 = 0b010100_0_1; // should be 8
    let f2_16 = 0b000000_1_1; // should be 16

    assert_eq!(sample_bits(f1_8), 8);
    assert_eq!(sample_bits(f2_16), 16);
}

#[test]
fn test_flag_set_2() {
    let f1_false = 0b0101_0_001; // should be false
    let f2_true = 0b0000_1_011; // should be true

    assert_eq!(sample_compressed(f1_false), false);
    assert_eq!(sample_compressed(f2_true), true);
}

#[test]
fn readbit() {
    let buf: Vec<u8> = vec![
        0x1, 0x0, // block size header (LE) of 1 byte
        0b1111_1110, 0b1111_1111, // group 1
        0b1010_1110, // group 2
        0b1100_1100, 0b1100_1111, // group 3
        0b0011_1010,
        0b1010_1010, 0b1100_1100,
        0b1100_1100, 0b1010_1010,
        0b1010_1010, 0b1100_1100,
    ];
    let mut b = BitReader::new(&buf);
    b.read_next_block().unwrap();

    // test group 1
    assert_eq!(b.read_bits_u16(8).unwrap(), 0b_1111_1110);
    assert_eq!(b.read_bits_u16(8).unwrap(), 0b_1111_1111);

    // test group 2
    assert_eq!(b.read_bits_u16(4).unwrap(), 0b_0000_1110);
    assert_eq!(b.read_bits_u16(4).unwrap(), 0b_0000_1010);

    // test group 3
    assert_eq!(b.read_bits_u16(16).unwrap(), 0b_1100_1111_1100_1100);
    assert_eq!(b.read_bits_u16(9).unwrap(), 0b_0_0011_1010);
}

#[test]
fn bit_reads_join() {
    let buf: Vec<u8> = vec![6, 0, 0b1011_0110, 0b0101_1100, 0xA5, 0x3C, 0xFF, 0x01];
    for a in 1u8..=16 {
        for c in 1u8..=16 {
            let mut r1 = BitReader::new(&buf);
            let mut r2 = BitReader::new(&buf);
            let x = r1.read_bits_u32(a).unwrap();
            let y = r1.read_bits_u32(c).unwrap();
            let z = r2.read_bits_u32(a + c).unwrap();
            assert!((x as u64) < (1u64 << a));
            assert!((y as u64) < (1u64 << c));
            assert_eq!(z as u64, x as u64 | ((y as u64) << a));
            // both readers go on from the same place
            assert_eq!(r1.read_bits_u32(8).ok(), r2.read_bits_u32(8).ok());
        }
    }
}
