use mayoos::utils::pci::{config_word, scan_bus_devices, DeviceInfo, PCIConfigAddr, Word};

#[test]
fn config_address_packs_fields() {
    assert_eq!(PCIConfigAddr::new(1, 2, 3, 0x10).as_u32(), 0x8001_1310);
    assert_eq!(PCIConfigAddr::new(0, 0, 0, 0).as_u32(), 0x8000_0000);
}

#[test]
fn config_address_masks_wide_fields() {
    assert_eq!(PCIConfigAddr::new(0xff, 0xff, 0xff, 0xff).as_u32(), 0x80ff_fffc);
    assert_eq!(PCIConfigAddr::new(0, 0x20, 0x08, 0x03).as_u32(), 0x8000_0000);
}

#[test]
fn config_address_unchecked_does_not_mask() {
    assert_eq!(PCIConfigAddr::new_unchecked(1, 2, 3, 0x10).as_u32(), 0x8001_1310);
    assert_eq!(PCIConfigAddr::new_unchecked(0, 0xff, 0xff, 0xff).as_u32(), 0x8007_ffff);
}

#[test]
fn config_word_picks_half() {
    assert_eq!(config_word(0x1234_5678, 0), 0x5678);
    assert_eq!(config_word(0x1234_5678, 2), 0x1234);
    assert_eq!(config_word(0x1234_5678, 3), 0x1234);
    assert_eq!(config_word(0x1234_5678, 1), 0x5678);
}

#[test]
fn device_info_holds_fields() {
    let d = DeviceInfo::new(1, 2, 0x1237, 0x8086);
    assert_eq!((d.bus(), d.slot(), d.id(), d.vendor()), (1, 2, 0x1237, 0x8086));
}

#[test]
fn scan_finds_present_devices_in_order() {
    let mut readings: Vec<(Word, Word)> = vec![(0xFFFF, 0xFFFF); 32];
    readings[0] = (0x8086, 0x1237);
    readings[3] = (0x1234, 0x1111);
    readings[31] = (0x10ec, 0x8139);
    let found = scan_bus_devices(2, &readings);
    let got: Vec<(u8, u8, u16, u16)> = found.iter().map(|d| (d.bus(), d.slot(), d.id(), d.vendor())).collect();
    assert_eq!(got, vec![(2, 0, 0x1237, 0x8086), (2, 3, 0x1111, 0x1234), (2, 31, 0x8139, 0x10ec)]);
}

#[test]
fn scan_of_empty_bus_is_empty() {
    let readings: Vec<(Word, Word)> = vec![(0xFFFF, 0); 32];
    assert!(scan_bus_devices(0, &readings).is_empty());
}
