use mayoos::interrupts::{InterruptIndex, PIC_1_OFFSET, PIC_2_OFFSET};
use mayoos::sub_system::event::simple::BusId;
use mayoos::sub_system::process::elf::{ELFHeader, ElfIdent, ElfType};
use mayoos::sub_system::process::PID;
use mayoos::task::TaskId;
use mayoos::utils::id::IdCounter;
use mayoos::utils::{le_u16_at, le_u32_at, push_char, string_from_chars};
use mayoos::QemuExitCode;

#[test]
fn exit_codes() {
    assert_eq!(QemuExitCode::Success.code(), 0x10);
    assert_eq!(QemuExitCode::Failed.code(), 0x11);
}

#[test]
fn interrupt_vectors() {
    assert_eq!(PIC_1_OFFSET, 32);
    assert_eq!(PIC_2_OFFSET, 40);
    assert_eq!(InterruptIndex::Timer.as_u8(), 32);
    assert_eq!(InterruptIndex::Keyboard.as_u8(), 33);
    assert_eq!(InterruptIndex::Keyboard.as_usize(), 33);
}

#[test]
fn ids_increase() {
    let mut c = IdCounter::new();
    assert_eq!(c.next_id(), 0);
    assert_eq!(c.next_id(), 1);
    let b = BusId::new(&mut c);
    assert_eq!(b.id(), 2);
    let p = PID::new(&mut c);
    assert_eq!(p.id(), 3);
    let t = TaskId::new(&mut c);
    assert_eq!(t.id(), 4);
    assert!(PID::new(&mut c) > p);
    assert_eq!(BusId::new_unchecked(7), BusId::new_unchecked(7));
    assert_eq!(BusId::new_unchecked(9).id(), 9);
}

fn elf_image() -> Vec<u8> {
    let mut b = vec![0u8; 52];
    b[0..4].copy_from_slice(&[0x7f, b'E', b'L', b'F']);
    b[16..18].copy_from_slice(&2u16.to_le_bytes());
    b[24..28].copy_from_slice(&0x0804_8000u32.to_le_bytes());
    b
}

#[test]
fn elf_header_verifies_magic() {
    let h = ELFHeader::from_bytes(&elf_image()).unwrap();
    assert!(h.verify());
    let mut bad = elf_image();
    bad[1] = b'X';
    assert!(!ELFHeader::from_bytes(&bad).unwrap().verify());
}

#[test]
fn elf_header_needs_whole_header() {
    assert!(ELFHeader::from_bytes(&elf_image()[..51]).is_none());
    assert!(ELFHeader::from_bytes(&[]).is_none());
}

#[test]
fn elf_ident_and_type_values() {
    assert_eq!(ElfIdent::EiMag0.index(), 0);
    assert_eq!(ElfIdent::EiMag3.index(), 3);
    assert_eq!(ElfIdent::EiPad.index(), 9);
    assert_eq!(ElfType::EtNone.value(), 0);
    assert_eq!(ElfType::EtExec.value(), 2);
}

#[test]
fn text_helpers() {
    let mut s = string_from_chars(&['a', 'b']);
    push_char(&mut s, 'c');
    assert_eq!(s, "abc");
    assert_eq!(le_u16_at(&[0, 0x34, 0x12], 1), 0x1234);
    assert_eq!(le_u32_at(&[0x78, 0x56, 0x34, 0x12], 0), 0x1234_5678);
}
