//! QEMU firmware configuration interface (fw_cfg): its ports, its DMA
//! control block, and its file directory.
//!
//! Every multi-byte value that fw_cfg hands over is big-endian. The records
//! below keep the values as they arrive in memory and convert on use.
use vstd::prelude::*;
use crate::driver::{le_bytes_u16, le_bytes_u32, le_bytes_u64, ByteOrderConverter};
use crate::utils::{le_u16_at, le_u32_at};

verus! {

/// The port that selects a fw_cfg item.
pub const SELECTOR_PORT: u16 = 0x510;

/// The port that reads the selected item byte by byte.
pub const DATA_PORT: u16 = 0x511;

/// The port that takes the address of a DMA control block.
pub const DMA_PORT: u16 = 0x514;

/// The size of a record of the file directory.
pub const FILE_RECORD_SIZE: usize = 64;

/// The item that holds the file directory.
pub const FILE_DIR_SELECTOR: u16 = 0x0019;

/// DMA control bit: the transfer failed.
pub const DMA_ERROR: u32 = 0x01;

/// DMA control bit: read.
pub const DMA_READ: u32 = 0x02;

/// DMA control bit: skip.
pub const DMA_SKIP: u32 = 0x04;

/// DMA control bit: select the item given in the upper half.
pub const DMA_SELECT: u32 = 0x08;

/// DMA control bits: write.
pub const DMA_WRITE: u32 = 0x0F;

/// The signature that the fw_cfg signature item holds under QEMU.
pub open spec fn qemu_signature() -> Seq<u8> {
    seq![0x51u8, 0x45u8, 0x4Du8, 0x55u8]
}

/// Whether the four bytes read from the signature item spell "QEMU".
pub fn is_qemu_signature(buf: [u8; 4]) -> (r: bool)
    ensures
        r == (buf@ == qemu_signature()),
{
    let r = buf[0] == 0x51u8 && buf[1] == 0x45u8 && buf[2] == 0x4Du8 && buf[3] == 0x55u8;
    assert(r ==> buf@ =~= qemu_signature());
    assert(buf@ == qemu_signature() ==> r) by {
        if buf@ == qemu_signature() {
            assert(buf@[0] == qemu_signature()[0] && buf@[1] == qemu_signature()[1]);
            assert(buf@[2] == qemu_signature()[2] && buf@[3] == qemu_signature()[3]);
        }
    }
    r
}

/// A fw_cfg DMA control block, with its fields in the big-endian order that
/// the device reads.
#[derive(Debug)]
pub struct DMAAccess {
    control: u32,
    length: u32,
    address: u64,
}

impl DMAAccess {
    /// The control field, as stored.
    pub closed spec fn control_field(&self) -> u32 {
        self.control
    }

    /// The length field, as stored.
    pub closed spec fn length_field(&self) -> u32 {
        self.length
    }

    /// The address field, as stored.
    pub closed spec fn address_field(&self) -> u64 {
        self.address
    }

    /// A control block of zeros.
    pub fn new() -> (r: Self)
        ensures
            r.control_field() == 0 && r.length_field() == 0 && r.address_field() == 0,
    {
        DMAAccess { control: 0, length: 0, address: 0 }
    }

    /// The control block that reads `length` bytes of the selected item into
    /// physical memory at `dest`: each field is the big-endian form of its value.
    pub fn read_request(dest: u64, length: u32) -> (r: Self)
        ensures
            le_bytes_u32(r.control_field()) == le_bytes_u32(DMA_READ).reverse(),
            le_bytes_u32(r.length_field()) == le_bytes_u32(length).reverse(),
            le_bytes_u64(r.address_field()) == le_bytes_u64(dest).reverse(),
    {
        DMAAccess { control: DMA_READ.swab(), length: length.swab(), address: dest.swab() }
    }

    /// The control field, as stored.
    pub fn control(&self) -> (r: u32)
        ensures
            r == self.control_field(),
    {
        self.control
    }

    /// The length field, as stored.
    pub fn length(&self) -> (r: u32)
        ensures
            r == self.length_field(),
    {
        self.length
    }

    /// The address field, as stored.
    pub fn address(&self) -> (r: u64)
        ensures
            r == self.address_field(),
    {
        self.address
    }
}

/// The two 32-bit words, high then low, that give the DMA port the physical
/// address of a control block: each in big-endian order.
pub fn dma_address_words(addr: u64) -> (r: (u32, u32))
    ensures
        le_bytes_u32(r.0) == le_bytes_u32((addr >> 32u64) as u32).reverse(),
        le_bytes_u32(r.1) == le_bytes_u32((addr & 0xFFFF_FFFFu64) as u32).reverse(),
{
    let high = ((addr >> 32u64) as u32).swab();
    let low = ((addr & 0xFFFF_FFFFu64) as u32).swab();
    (high, low)
}

/// The characters of a file name: each byte read as a character, the zero
/// bytes left out.
pub open spec fn name_chars(bytes: Seq<u8>) -> Seq<char>
    decreases bytes.len(),
{
    if bytes.len() == 0 {
        seq![]
    } else {
        name_chars(bytes.drop_last()) + if bytes.last() != 0 {
            seq![bytes.last() as char]
        } else {
            seq![]
        }
    }
}

/// A file name keeps every non-zero byte of the name field, in order, each as
/// the character with that code, and leaves out exactly the zero bytes.
pub proof fn lemma_name_chars_keeps_nonzero_bytes(bytes: Seq<u8>)
    ensures
        name_chars(bytes) == bytes.filter(|b: u8| b != 0u8).map_values(|b: u8| b as char),
    decreases bytes.len(),
{
    let keep = |b: u8| b != 0u8;
    let to_char = |b: u8| b as char;
    if bytes.len() == 0 {
        assert(bytes.filter(keep) =~= Seq::<u8>::empty()) by {
            reveal(Seq::filter);
        }
        assert(bytes.filter(keep).map_values(to_char) =~= Seq::<char>::empty());
    } else {
        let init = bytes.drop_last();
        let last = bytes.last();
        lemma_name_chars_keeps_nonzero_bytes(init);
        assert(init.push(last) =~= bytes);
        init.lemma_filter_push(last, keep);
        if last != 0u8 {
            assert(init.filter(keep).push(last).map_values(to_char) =~= init.filter(
                keep,
            ).map_values(to_char).push(last as char));
            assert(name_chars(bytes) =~= name_chars(init) + seq![last as char]);
        } else {
            assert(name_chars(bytes) =~= name_chars(init));
        }
    }
}

/// An entry of the fw_cfg file directory, with its fields as they arrive.
#[derive(Debug)]
pub struct FWCfgFile {
    size: u32,
    select: u16,
    reserved: u16,
    name: [u8; 56],
}

/// The directory header: the number of files.
#[derive(Debug)]
pub struct FWCfgFiles {
    count: u32,
}

impl FWCfgFiles {
    /// The count field, as it arrived.
    pub closed spec fn count_field(&self) -> u32 {
        self.count
    }

    /// The header stored in the four bytes that start the directory.
    pub fn from_record(raw: [u8; 4]) -> (r: Self)
        ensures
            le_bytes_u32(r.count_field()) == raw@,
    {
        let stored = le_u32_at(&raw, 0);
        assert(raw@.subrange(0, 4) =~= raw@);
        FWCfgFiles { count: stored }
    }

    /// The number of files (the count field is big-endian).
    pub fn count(&self) -> (r: u32)
        ensures
            le_bytes_u32(r) == le_bytes_u32(self.count_field()).reverse(),
    {
        self.count.swab()
    }
}

impl FWCfgFile {
    /// The size field, as it arrived.
    pub closed spec fn raw_size(&self) -> u32 {
        self.size
    }

    /// The select field, as it arrived.
    pub closed spec fn raw_select(&self) -> u16 {
        self.select
    }

    /// The reserved field, as it arrived.
    pub closed spec fn raw_reserved(&self) -> u16 {
        self.reserved
    }

    /// The name bytes.
    pub closed spec fn name_bytes(&self) -> Seq<u8> {
        self.name@
    }

    /// A name has 56 bytes.
    pub proof fn lemma_name_len(&self)
        ensures
            self.name_bytes().len() == 56,
    {
    }

    /// Whether this entry is the one stored in `record`, a 64-byte directory
    /// record: the size (4 bytes), the select key (2 bytes), 2 reserved bytes
    /// and the name (56 bytes).
    pub open spec fn is_stored_in(&self, record: Seq<u8>) -> bool {
        &&& le_bytes_u32(self.raw_size()) == record.subrange(0, 4)
        &&& le_bytes_u16(self.raw_select()) == record.subrange(4, 6)
        &&& le_bytes_u16(self.raw_reserved()) == record.subrange(6, 8)
        &&& self.name_bytes() == record.subrange(8, 64)
    }

    /// The entry stored in the directory record at `bytes[at..at + 64]`.
    pub fn from_record(bytes: &[u8], at: usize) -> (r: Self)
        requires
            at + FILE_RECORD_SIZE <= bytes@.len(),
        ensures
            r.is_stored_in(bytes@.subrange(at as int, at + FILE_RECORD_SIZE)),
    {
        let ghost record = bytes@.subrange(at as int, at + FILE_RECORD_SIZE);
        let n = bytes.len();
        let size = le_u32_at(bytes, at);
        let select = le_u16_at(bytes, at + 4);
        let reserved = le_u16_at(bytes, at + 6);
        assert(bytes@.subrange(at as int, at + 4) =~= record.subrange(0, 4));
        assert(bytes@.subrange(at + 4, at + 6) =~= record.subrange(4, 6));
        assert(bytes@.subrange(at + 6, at + 8) =~= record.subrange(6, 8));
        let mut name = [0u8; 56];
        let mut i: usize = 0;
        while i < 56
            invariant
                i <= 56,
                at + FILE_RECORD_SIZE <= bytes@.len(),
                n == bytes@.len(),
                name@.len() == 56,
                forall|k: int| 0 <= k < i ==> name@[k] == bytes@[at + 8 + k],
            decreases 56 - i,
        {
            name[i] = bytes[at + 8 + i];
            i = i + 1;
        }
        assert(name@ =~= record.subrange(8, 64));
        FWCfgFile { size, select, reserved, name }
    }

    /// The size of the file in bytes (the size field is big-endian).
    pub fn size(&self) -> (r: u32)
        ensures
            le_bytes_u32(r) == le_bytes_u32(self.raw_size()).reverse(),
    {
        self.size.swab()
    }

    /// The select key of the file (the select field is big-endian).
    pub fn select(&self) -> (r: u16)
        ensures
            le_bytes_u16(r) == le_bytes_u16(self.raw_select()).reverse(),
    {
        self.select.swab()
    }

    /// The name of the file: its bytes as characters, without the zero bytes.
    pub fn get_name(&self) -> (r: String)
        ensures
            r@ == name_chars(self.name_bytes()),
            r@ == self.name_bytes().filter(|b: u8| b != 0u8).map_values(|b: u8| b as char),
    {
        proof {
            lemma_name_chars_keeps_nonzero_bytes(self.name@);
        }
        let mut s = String::new();
        let mut i: usize = 0;
        while i < 56
            invariant
                i <= 56,
                self.name@.len() == 56,
                s@ == name_chars(self.name@.subrange(0, i as int)),
            decreases 56 - i,
        {
            let b = self.name[i];
            assert(self.name@.subrange(0, i + 1).drop_last() =~= self.name@.subrange(0, i as int));
            if b != 0 {
                crate::utils::push_char(&mut s, b as char);
            }
            i = i + 1;
            assert(s@ =~= name_chars(self.name@.subrange(0, i as int)));
        }
        assert(self.name@.subrange(0, 56) =~= self.name@);
        s
    }
}

impl Default for FWCfgFile {
    /// An entry of zeros.
    fn default() -> (r: Self)
        ensures
            r.raw_size() == 0,
            r.raw_select() == 0,
            r.raw_reserved() == 0,
            r.name_bytes() == Seq::new(56, |i: int| 0u8),
    {
        let r = FWCfgFile { size: 0, select: 0, reserved: 0, name: [0u8; 56] };
        assert(r.name_bytes() =~= Seq::new(56, |i: int| 0u8));
        r
    }
}

/// The entries of a file directory of `count` entries, from its records,
/// which follow one another in `records`.
pub fn parse_file_directory(count: u32, records: &[u8]) -> (r: Vec<FWCfgFile>)
    requires
        records@.len() == count * FILE_RECORD_SIZE,
    ensures
        r@.len() == count,
        forall|i: int|
            0 <= i < count ==> #[trigger] r@[i].is_stored_in(
                records@.subrange(i * FILE_RECORD_SIZE, (i + 1) * FILE_RECORD_SIZE),
            ),
{
    let mut files: Vec<FWCfgFile> = Vec::new();
    let n = records.len();
    let mut i: u32 = 0;
    while i < count
        invariant
            i <= count,
            records@.len() == count * FILE_RECORD_SIZE,
            n == records@.len(),
            files@.len() == i,
            forall|j: int|
                0 <= j < i ==> #[trigger] files@[j].is_stored_in(
                    records@.subrange(j * FILE_RECORD_SIZE, (j + 1) * FILE_RECORD_SIZE),
                ),
        decreases count - i,
    {
        assert((i + 1) * FILE_RECORD_SIZE <= count * FILE_RECORD_SIZE) by (nonlinear_arith)
            requires
                i < count,
        ;
        let at = i as usize * FILE_RECORD_SIZE;
        files.push(FWCfgFile::from_record(records, at));
        i = i + 1;
    }
    files
}

/// The first file of the directory whose name is `name`.
pub fn find_file(files: &[FWCfgFile], name: &String) -> (r: Option<usize>)
    ensures
        match r {
            Some(i) => i < files@.len() && name_chars(files@[i as int].name_bytes()) == name@
                && forall|j: int| 0 <= j < i ==> name_chars(files@[j].name_bytes()) != name@,
            None => forall|j: int|
                0 <= j < files@.len() ==> name_chars(files@[j].name_bytes()) != name@,
        },
{
    let mut i: usize = 0;
    while i < files.len()
        invariant
            i <= files@.len(),
            forall|j: int| 0 <= j < i ==> name_chars(files@[j].name_bytes()) != name@,
        decreases files.len() - i,
    {
        let n = files[i].get_name();
        if n == *name {
            return Some(i);
        }
        i = i + 1;
    }
    None
}

} // verus!
