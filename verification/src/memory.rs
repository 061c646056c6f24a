//! Memory management: virtual addresses, page-table translation, the heap.
pub mod allocator;

use vstd::prelude::*;
use x86_64::structures::paging::{Page, Size4KiB};
use x86_64::{PhysAddr, VirtAddr};

verus! {

/// The size of a page and of a page frame.
pub const PAGE_SIZE: u64 = 4096;

/// Physical addresses have 52 bits.
pub const PHYS_ADDR_LIMIT: u64 = 0x10_0000_0000_0000;

/// Whether `addr` is a canonical virtual address: bits 48 to 63 repeat bit 47.
pub open spec fn is_canonical(addr: u64) -> bool {
    addr < 0x0000_8000_0000_0000 || addr >= 0xffff_8000_0000_0000
}

/// Whether `addr` can start a page frame: it is page aligned and a valid
/// physical address.
pub open spec fn is_frame_start(addr: u64) -> bool {
    addr % 4096 == 0 && addr < PHYS_ADDR_LIMIT
}

/// The index into the page table of `level` (0 for the level 4 table, 3 for
/// the level 1 table) that translating `addr` uses.
pub open spec fn table_index(addr: u64, level: int) -> u16 {
    if level == 0 {
        ((addr >> 39u64) % 512) as u16
    } else if level == 1 {
        ((addr >> 30u64) % 512) as u16
    } else if level == 2 {
        ((addr >> 21u64) % 512) as u16
    } else {
        ((addr >> 12u64) % 512) as u16
    }
}

/// The level 4 page table index of a virtual address.
///
/// Trusted: calls `VirtAddr::p4_index` of x86_64, which takes bits 39 to 47
/// of the address (the source: shift right by 39, then modulo 512).
/// `VirtAddr::new` panics on a non-canonical address, which `requires` excludes.
#[verifier::external_body]
fn p4_index(addr: u64) -> (r: u16)
    requires
        is_canonical(addr),
    ensures
        r == table_index(addr, 0),
{
    u16::from(VirtAddr::new(addr).p4_index())
}

/// The level 3 page table index of a virtual address.
///
/// Trusted: calls `VirtAddr::p3_index` of x86_64, which takes bits 30 to 38.
#[verifier::external_body]
fn p3_index(addr: u64) -> (r: u16)
    requires
        is_canonical(addr),
    ensures
        r == table_index(addr, 1),
{
    u16::from(VirtAddr::new(addr).p3_index())
}

/// The level 2 page table index of a virtual address.
///
/// Trusted: calls `VirtAddr::p2_index` of x86_64, which takes bits 21 to 29.
#[verifier::external_body]
fn p2_index(addr: u64) -> (r: u16)
    requires
        is_canonical(addr),
    ensures
        r == table_index(addr, 2),
{
    u16::from(VirtAddr::new(addr).p2_index())
}

/// The level 1 page table index of a virtual address.
///
/// Trusted: calls `VirtAddr::p1_index` of x86_64, which takes bits 12 to 20.
#[verifier::external_body]
fn p1_index(addr: u64) -> (r: u16)
    requires
        is_canonical(addr),
    ensures
        r == table_index(addr, 3),
{
    u16::from(VirtAddr::new(addr).p1_index())
}

/// The offset of a virtual address within its page.
///
/// Trusted: calls `VirtAddr::page_offset` of x86_64, which keeps the low 12
/// bits of the address (the source: truncate to `u16`, then modulo 4096).
#[verifier::external_body]
fn page_offset(addr: u64) -> (r: u64)
    requires
        is_canonical(addr),
    ensures
        r == addr % 4096,
{
    u64::from(VirtAddr::new(addr).page_offset())
}

/// Adds an offset to a physical address.
///
/// Trusted: calls `<PhysAddr as Add<u64>>::add` of x86_64, which adds and
/// panics on overflow or when the sum has a bit in 52 to 63 set; `requires`
/// excludes both, and the result is the sum.
#[verifier::external_body]
fn phys_add(start: u64, offset: u64) -> (r: u64)
    requires
        start + offset < PHYS_ADDR_LIMIT,
    ensures
        r == start + offset,
{
    (PhysAddr::new(start) + offset).as_u64()
}

/// The start of the 4 KiB page that contains a virtual address.
///
/// Trusted: calls `Page::<Size4KiB>::containing_address` of x86_64, whose
/// start address is the address aligned down to 4096 (for a canonical
/// address, clearing its low 12 bits keeps it canonical).
#[verifier::external_body]
pub(crate) fn page_containing(addr: u64) -> (r: u64)
    requires
        is_canonical(addr),
    ensures
        r == addr - addr % 4096,
{
    Page::<Size4KiB>::containing_address(VirtAddr::new(addr)).start_address().as_u64()
}

/// What a page-table entry says about the next level of a translation.
#[derive(Debug, Clone, Copy, PartialEq, Eq, Structural)]
pub enum TableEntry {
    /// The entry maps the frame that starts at this physical address.
    Frame(u64),
    /// The entry is not present.
    NotPresent,
    /// The entry maps a huge page.
    HugeFrame,
}

/// What a translation needs next.
#[derive(Debug, Clone, Copy, PartialEq, Eq, Structural)]
pub enum WalkStep {
    /// The entry `index` of the page table in the frame at `table` must be read
    /// and given to [`PageWalk::feed`].
    Read { table: u64, index: u16 },
    /// The translation is over: the physical address, or `None` when a table
    /// entry on the way was not present.
    Finished(Option<u64>),
}

/// The step that a translation of `addr` takes at `level`, standing in the
/// frame `frame`, after a missing entry or not.
pub open spec fn walk_step(addr: u64, level: int, frame: u64, missing: bool) -> WalkStep {
    if missing {
        WalkStep::Finished(None)
    } else if level < 4 {
        WalkStep::Read { table: frame, index: table_index(addr, level) }
    } else {
        WalkStep::Finished(Some((frame + addr % 4096) as u64))
    }
}

/// A translation of a virtual address through the four levels of page tables,
/// from the level 4 table down to the frame of the page.
pub struct PageWalk {
    indexes: [u16; 4],
    offset: u64,
    level: usize,
    frame: u64,
    missing: bool,
    addr: Ghost<u64>,
}

impl PageWalk {
    /// The address being translated.
    pub closed spec fn addr(&self) -> u64 {
        self.addr@
    }

    /// How many tables were read so far.
    pub closed spec fn level(&self) -> int {
        self.level as int
    }

    /// The frame of the table to read next, or of the page once all were read.
    pub closed spec fn frame(&self) -> u64 {
        self.frame
    }

    /// Whether an entry on the way was not present.
    pub closed spec fn missing(&self) -> bool {
        self.missing
    }

    /// The invariant of a translation in progress.
    pub closed spec fn wf(&self) -> bool {
        &&& self.level <= 4
        &&& is_frame_start(self.frame)
        &&& self.offset == self.addr@ % 4096
        &&& forall|i: int| 0 <= i < 4 ==> self.indexes@[i] == table_index(self.addr@, i)
    }

    /// The next step of the translation.
    pub open spec fn next_step(&self) -> WalkStep {
        walk_step(self.addr(), self.level(), self.frame(), self.missing())
    }

    /// Starts translating the canonical address `addr`, whose level 4 table is
    /// in the frame `level_4_table`.
    pub fn new(addr: u64, level_4_table: u64) -> (r: Self)
        requires
            is_canonical(addr),
            is_frame_start(level_4_table),
        ensures
            r.wf(),
            r.addr() == addr,
            r.level() == 0,
            r.frame() == level_4_table,
            !r.missing(),
    {
        let indexes: [u16; 4] = [p4_index(addr), p3_index(addr), p2_index(addr), p1_index(addr)];
        PageWalk {
            indexes,
            offset: page_offset(addr),
            level: 0,
            frame: level_4_table,
            missing: false,
            addr: Ghost(addr),
        }
    }

    /// The next step: read the entry of the current table that the address
    /// selects, or the outcome. A finished translation keeps the offset of the
    /// address within its page.
    pub fn step(&self) -> (r: WalkStep)
        requires
            self.wf(),
        ensures
            r == self.next_step(),
            r matches WalkStep::Finished(Some(p)) ==> p % 4096 == self.addr() % 4096,
    {
        if self.missing {
            WalkStep::Finished(None)
        } else if self.level < 4 {
            WalkStep::Read { table: self.frame, index: self.indexes[self.level] }
        } else {
            let p = phys_add(self.frame, self.offset);
            assert(p % 4096 == self.addr() % 4096) by {
                vstd::arithmetic::div_mod::lemma_mod_adds(self.frame as int, self.offset as int, 4096);
            }
            WalkStep::Finished(Some(p))
        }
    }

    /// Takes the entry that the last step asked for: a frame is the table (or,
    /// after the last level, the page) to go on with; a missing entry ends the
    /// translation. Huge pages are not supported.
    pub fn feed(&mut self, entry: TableEntry)
        requires
            old(self).wf(),
            old(self).next_step() is Read,
            !(entry is HugeFrame),
            entry matches TableEntry::Frame(f) ==> is_frame_start(f),
        ensures
            final(self).wf(),
            final(self).addr() == old(self).addr(),
            entry matches TableEntry::Frame(f) ==> final(self).frame() == f && final(self).level()
                == old(self).level() + 1 && !final(self).missing(),
            entry is NotPresent ==> final(self).missing() && final(self).level() == old(self).level()
                && final(self).frame() == old(self).frame(),
    {
        match entry {
            TableEntry::Frame(f) => {
                self.frame = f;
                self.level = self.level + 1;
            },
            _ => {
                self.missing = true;
            },
        }
    }
}

} // verus!
