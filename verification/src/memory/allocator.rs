//! The kernel heap: its place in virtual memory, alignment helpers.
pub mod block;

use vstd::prelude::*;
use vstd::arithmetic::power2::pow2;
use vstd::bits::low_bits_mask;
use crate::memory::page_containing;

verus! {

/// Whether `x` is a power of two: `x == 2^k` for some `k`.
pub open spec fn is_power_of_two(x: usize) -> bool {
    exists|k: nat| k < usize::BITS && #[trigger] pow2(k) == x
}

/// Whether `x` is a power of two.
///
/// Trusted: calls `usize::is_power_of_two`, documented to return true if and
/// only if `x == 2^k` for some `k`; the contract states exactly that.
#[verifier::external_body]
fn usize_is_power_of_two(x: usize) -> (r: bool)
    ensures
        r == is_power_of_two(x),
{
    x.is_power_of_two()
}

/// Clearing the bits below a power of two `align` rounds `addr` down to a
/// multiple of `align`.
proof fn lemma_clear_low_bits(addr: usize, align: usize)
    requires
        is_power_of_two(align),
    ensures
        addr & !((align - 1) as usize) == addr - addr % align,
        align > 0,
{
    let k = choose|k: nat| k < usize::BITS && #[trigger] pow2(k) == align;
    vstd::bits::lemma_usize_pow2_no_overflow(k);
    vstd::bits::lemma_usize_low_bits_mask_is_mod(addr, k);
    assert(low_bits_mask(k) as usize == (align - 1) as usize);
    let m = (align - 1) as usize;
    assert(addr & !m == addr - (addr & m)) by (bit_vector);
}

/// Aligns `addr` down to `align`: the greatest multiple of `align` that is at
/// most `addr`. An alignment of zero leaves the address as it is; any other
/// alignment must be a power of two.
pub fn align_down(addr: usize, align: usize) -> (r: usize)
    requires
        align == 0 || is_power_of_two(align),
    ensures
        align == 0 ==> r == addr,
        align != 0 ==> r == addr - addr % align,
{
    if usize_is_power_of_two(align) {
        proof {
            lemma_clear_low_bits(addr, align);
        }
        addr & !(align - 1)
    } else {
        addr
    }
}

/// Aligns `addr` up to `align`: the least multiple of `align` that is at
/// least `addr`. This is `align_down(addr + align - 1, align)`, so an
/// alignment of zero gives `addr - 1`.
pub fn align_up(addr: usize, align: usize) -> (r: usize)
    requires
        align == 0 || is_power_of_two(align),
        1 <= addr + align <= usize::MAX,
    ensures
        align == 0 ==> r == addr - 1,
        align != 0 ==> r % align == 0 && addr <= r < addr + align,
{
    let r = align_down(addr + align - 1, align);
    proof {
        if align != 0 {
            let a = (addr + align - 1) as int;
            vstd::arithmetic::div_mod::lemma_fundamental_div_mod(a, align as int);
            vstd::arithmetic::div_mod::lemma_mod_multiples_basic(a / align as int, align as int);
            assert(r == a - a % align as int);
            assert(r == align * (a / align as int));
            vstd::arithmetic::mul::lemma_mul_is_commutative(align as int, a / align as int);
        }
    }
    r
}

/// Where the kernel heap starts in virtual memory (a 64-bit address).
pub const HEAP_START: u64 = 0x_6000_0000_0000;

/// The size of the kernel heap in bytes.
pub const HEAP_SIZE: usize = 1000 * 1024;

/// The first and the last page of the heap, by their start addresses: the
/// pages that contain the heap's first and last byte.
pub fn heap_page_range() -> (r: (u64, u64))
    ensures
        r.0 == HEAP_START - HEAP_START % 4096,
        r.1 == (HEAP_START + HEAP_SIZE - 1) - (HEAP_START + HEAP_SIZE - 1) % 4096,
        r.0 <= r.1,
{
    let heap_start = HEAP_START;
    let heap_end = heap_start + HEAP_SIZE as u64 - 1u64;
    (page_containing(heap_start), page_containing(heap_end))
}

} // verus!
