//! The header of 32-bit ELF executables.
use vstd::prelude::*;
use crate::driver::{le_bytes_u16, le_bytes_u32};
use crate::utils::{le_u16_at, le_u32_at};

verus! {

/// Half word.
pub type Elf32Half = u16;

/// File offset.
pub type Elf32Off = u32;

/// Address.
pub type Elf32Addr = u32;

/// Word.
pub type Elf32Word = u32;

/// Signed word.
pub type Elf32Sword = i32;

/// The length of the identification bytes.
pub const ELFNIDENTIFY: usize = 16;

/// The size of the header in a file.
pub const ELF_HEADER_SIZE: usize = 52;

/// The identification bytes.
pub enum ElfIdent {
    /// 0x7F
    EiMag0,
    /// 'E'
    EiMag1,
    /// 'L'
    EiMag2,
    /// 'F'
    EiMag3,
    /// Architecture (32/64)
    EiClass,
    /// Byte order
    EiData,
    /// ELF version
    EiVersion,
    /// OS specific
    EiOsabi,
    /// OS specific
    EiAbiversion,
    /// Padding
    EiPad,
}

impl ElfIdent {
    /// The position of the byte among the identification bytes.
    pub fn index(&self) -> (r: usize)
        ensures
            r < 10,
            *self is EiMag0 ==> r == 0,
            *self is EiMag1 ==> r == 1,
            *self is EiMag2 ==> r == 2,
            *self is EiMag3 ==> r == 3,
            *self is EiClass ==> r == 4,
            *self is EiData ==> r == 5,
            *self is EiVersion ==> r == 6,
            *self is EiOsabi ==> r == 7,
            *self is EiAbiversion ==> r == 8,
            *self is EiPad ==> r == 9,
    {
        match self {
            ElfIdent::EiMag0 => 0,
            ElfIdent::EiMag1 => 1,
            ElfIdent::EiMag2 => 2,
            ElfIdent::EiMag3 => 3,
            ElfIdent::EiClass => 4,
            ElfIdent::EiData => 5,
            ElfIdent::EiVersion => 6,
            ElfIdent::EiOsabi => 7,
            ElfIdent::EiAbiversion => 8,
            ElfIdent::EiPad => 9,
        }
    }
}

/// The type of an ELF file.
pub enum ElfType {
    /// Unknown type
    EtNone,
    /// Relocatable file
    EtRel,
    /// Executable file
    EtExec,
}

impl ElfType {
    /// The value of the type field.
    pub fn value(&self) -> (r: Elf32Half)
        ensures
            *self is EtNone ==> r == 0,
            *self is EtRel ==> r == 1,
            *self is EtExec ==> r == 2,
    {
        match self {
            ElfType::EtNone => 0,
            ElfType::EtRel => 1,
            ElfType::EtExec => 2,
        }
    }
}

/// The magic bytes that open every ELF file: 0x7F, 'E', 'L', 'F'.
pub open spec fn elf_magic() -> Seq<u8> {
    seq![0x7Fu8, 0x45u8, 0x4Cu8, 0x46u8]
}

/// The header of a 32-bit ELF file.
pub struct ELFHeader {
    identify: [u8; 16],
    typ: Elf32Half,
    machine: Elf32Half,
    version: Elf32Word,
    entry: Elf32Addr,
    phoff: Elf32Off,
    shoff: Elf32Off,
    flags: Elf32Word,
    ehsize: Elf32Half,
    phent_size: Elf32Half,
    phnum: Elf32Half,
    shentsize: Elf32Half,
    shnum: Elf32Half,
    shstrndx: Elf32Half,
}

impl ELFHeader {
    /// The identification bytes.
    pub closed spec fn identification(&self) -> Seq<u8> {
        self.identify@
    }

    /// There are 16 identification bytes.
    pub proof fn lemma_identification_len(&self)
        ensures
            self.identification().len() == ELFNIDENTIFY,
    {
    }

    /// The half words of the header, in file order: type, machine, header
    /// size, program header entry size, program header count, section header
    /// entry size, section header count, section name table index.
    pub closed spec fn half_words(&self) -> Seq<u16> {
        seq![
            self.typ,
            self.machine,
            self.ehsize,
            self.phent_size,
            self.phnum,
            self.shentsize,
            self.shnum,
            self.shstrndx,
        ]
    }

    /// The words of the header, in file order: version, entry point, program
    /// header offset, section header offset, flags.
    pub closed spec fn words(&self) -> Seq<u32> {
        seq![self.version, self.entry, self.phoff, self.shoff, self.flags]
    }

    /// The header at the start of `bytes`, a little-endian ELF image; `None`
    /// when there are fewer bytes than a header takes.
    pub fn from_bytes(bytes: &[u8]) -> (r: Option<Self>)
        ensures
            r is None <==> bytes@.len() < ELF_HEADER_SIZE,
            r matches Some(h) ==> {
                &&& h.identification() == bytes@.subrange(0, 16)
                &&& forall|i: int|
                    0 <= i < 2 ==> #[trigger] le_bytes_u16(h.half_words()[i]) == bytes@.subrange(
                        16 + 2 * i,
                        18 + 2 * i,
                    )
                &&& forall|i: int|
                    0 <= i < 5 ==> #[trigger] le_bytes_u32(h.words()[i]) == bytes@.subrange(
                        20 + 4 * i,
                        24 + 4 * i,
                    )
                &&& forall|i: int|
                    2 <= i < 8 ==> #[trigger] le_bytes_u16(h.half_words()[i]) == bytes@.subrange(
                        36 + 2 * i,
                        38 + 2 * i,
                    )
            },
    {
        if bytes.len() < ELF_HEADER_SIZE {
            return None;
        }
        let mut identify = [0u8; 16];
        let mut i: usize = 0;
        while i < ELFNIDENTIFY
            invariant
                i <= ELFNIDENTIFY,
                bytes@.len() >= ELF_HEADER_SIZE,
                identify@.len() == 16,
                forall|k: int| 0 <= k < i ==> identify@[k] == bytes@[k],
            decreases ELFNIDENTIFY - i,
        {
            identify[i] = bytes[i];
            i = i + 1;
        }
        assert(identify@ =~= bytes@.subrange(0, 16));
        Some(
            ELFHeader {
                identify,
                typ: le_u16_at(bytes, 16),
                machine: le_u16_at(bytes, 18),
                version: le_u32_at(bytes, 20),
                entry: le_u32_at(bytes, 24),
                phoff: le_u32_at(bytes, 28),
                shoff: le_u32_at(bytes, 32),
                flags: le_u32_at(bytes, 36),
                ehsize: le_u16_at(bytes, 40),
                phent_size: le_u16_at(bytes, 42),
                phnum: le_u16_at(bytes, 44),
                shentsize: le_u16_at(bytes, 46),
                shnum: le_u16_at(bytes, 48),
                shstrndx: le_u16_at(bytes, 50),
            },
        )
    }

    /// Whether the header starts with the ELF magic bytes.
    pub fn verify(&self) -> (r: bool)
        ensures
            r == (self.identification().subrange(0, 4) == elf_magic()),
    {
        let r = self.identify[ElfIdent::EiMag0.index()] == 0x7F && self.identify[ElfIdent::EiMag1.index()]
            == 0x45 && self.identify[ElfIdent::EiMag2.index()] == 0x4C
            && self.identify[ElfIdent::EiMag3.index()] == 0x46;
        let ghost magic = self.identify@.subrange(0, 4);
        assert(r ==> magic =~= elf_magic());
        assert(magic == elf_magic() ==> r) by {
            if magic == elf_magic() {
                assert(magic[0] == elf_magic()[0] && magic[1] == elf_magic()[1]);
                assert(magic[2] == elf_magic()[2] && magic[3] == elf_magic()[3]);
            }
        }
        r
    }
}

} // verus!
