use mayoos::driver::fw_cfg::{
    dma_address_words, find_file, parse_file_directory, is_qemu_signature, DMAAccess, FWCfgFile, FWCfgFiles, DMA_READ,
};
use mayoos::driver::ByteOrderConverter;

#[test]
fn swab_u16_reverses_bytes() {
    assert_eq!(0x1234u16.swab(), 0x3412);
    assert_eq!(0x00ffu16.swab(), 0xff00);
}

#[test]
fn swab_u32_reverses_bytes() {
    assert_eq!(0x1234_5678u32.swab(), 0x7856_3412);
    assert_eq!(0x0000_0019u32.swab(), 0x1900_0000);
}

#[test]
fn swab_u64_reverses_bytes() {
    assert_eq!(0x1122_3344_5566_7788u64.swab(), 0x8877_6655_4433_2211);
}

#[test]
fn swab_twice_is_identity() {
    for x in [0u32, 1, 0xdead_beef, u32::MAX, 0x0102_0304] {
        assert_eq!(x.swab().swab(), x);
    }
    for x in [0u16, 0xabcd, u16::MAX] {
        assert_eq!(x.swab().swab(), x);
    }
    for x in [0u64, 0x0123_4567_89ab_cdef, u64::MAX] {
        assert_eq!(x.swab().swab(), x);
    }
}

#[test]
fn qemu_signature_is_recognised() {
    assert!(is_qemu_signature(*b"QEMU"));
    assert!(!is_qemu_signature(*b"QEMV"));
    assert!(!is_qemu_signature([0xff, 0xff, 0xff, 0xff]));
}

#[test]
fn dma_new_is_zero() {
    let d = DMAAccess::new();
    assert_eq!(d.control(), 0);
    assert_eq!(d.length(), 0);
    assert_eq!(d.address(), 0);
}

#[test]
fn dma_read_request_is_big_endian() {
    let d = DMAAccess::read_request(0x1122_3344_5566_7788, 0x10);
    assert_eq!(d.control(), 0x0200_0000);
    assert_eq!(d.control(), DMA_READ.swab());
    assert_eq!(d.length(), 0x1000_0000);
    assert_eq!(d.address(), 0x8877_6655_4433_2211);
}

#[test]
fn dma_address_words_split_and_swap() {
    assert_eq!(dma_address_words(0x0000_0001_2345_6789), (0x0100_0000, 0x8967_4523));
    assert_eq!(dma_address_words(0), (0, 0));
}

fn record(size_be: u32, select_be: u16, name: &str) -> [u8; 64] {
    let mut r = [0u8; 64];
    r[0..4].copy_from_slice(&size_be.to_be_bytes());
    r[4..6].copy_from_slice(&select_be.to_be_bytes());
    r[8..8 + name.len()].copy_from_slice(name.as_bytes());
    r
}

#[test]
fn file_record_decodes() {
    let f = FWCfgFile::from_record(&record(16, 0x20, "opt/test"), 0);
    assert_eq!(f.size(), 16);
    assert_eq!(f.select(), 0x20);
    assert_eq!(f.get_name(), "opt/test");
}

#[test]
fn file_name_skips_zero_bytes() {
    let mut r = record(1, 1, "ab");
    r[20] = b'c';
    let f = FWCfgFile::from_record(&r, 0);
    assert_eq!(f.get_name(), "abc");
}

#[test]
fn file_default_is_empty() {
    let f = FWCfgFile::default();
    assert_eq!(f.size(), 0);
    assert_eq!(f.select(), 0);
    assert_eq!(f.get_name(), "");
}

#[test]
fn directory_count_is_big_endian() {
    assert_eq!(FWCfgFiles::from_record([0, 0, 0, 5]).count(), 5);
    assert_eq!(FWCfgFiles::from_record([0, 0, 1, 2]).count(), 0x102);
}

#[test]
fn find_file_returns_first_match() {
    let files = vec![
        FWCfgFile::from_record(&record(1, 1, "etc/a"), 0),
        FWCfgFile::from_record(&record(2, 2, "opt/test"), 0),
        FWCfgFile::from_record(&record(3, 3, "opt/test"), 0),
    ];
    assert_eq!(find_file(&files, &String::from("opt/test")), Some(1));
    assert_eq!(find_file(&files, &String::from("etc/a")), Some(0));
    assert_eq!(find_file(&files, &String::from("nope")), None);
    assert_eq!(find_file(&[], &String::from("etc/a")), None);
}

#[test]
fn file_directory_parses_every_record() {
    let mut bytes = Vec::new();
    bytes.extend_from_slice(&record(3, 0x21, "etc/one"));
    bytes.extend_from_slice(&record(0x1000, 0x22, "etc/two"));
    let files = parse_file_directory(2, &bytes);
    assert_eq!(files.len(), 2);
    assert_eq!((files[0].size(), files[0].select(), files[0].get_name()), (3, 0x21, String::from("etc/one")));
    assert_eq!((files[1].size(), files[1].select(), files[1].get_name()), (0x1000, 0x22, String::from("etc/two")));
    assert!(parse_file_directory(0, &[]).is_empty());
}

#[test]
fn record_at_offset() {
    let mut bytes = vec![0xaa; 10];
    bytes.extend_from_slice(&record(9, 1, "x"));
    let f = FWCfgFile::from_record(&bytes, 10);
    assert_eq!(f.size(), 9);
    assert_eq!(f.get_name(), "x");
}
