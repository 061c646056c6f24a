//! Small utilities: PCI configuration access, identifier counters, text.
pub mod id;
pub mod pci;

use vstd::prelude::*;
use crate::driver::{le_bytes_u16, le_bytes_u32};

verus! {

/// Appends one character to a `String`.
///
/// Trusted: calls `String::push`, whose documentation says that it appends the
/// given character to the end of the string; the contract states exactly that.
#[verifier::external_body]
pub fn push_char(s: &mut String, c: char)
    ensures
        final(s)@ == old(s)@.push(c),
{
    s.push(c)
}

/// A `String` holding exactly the given characters.
pub fn string_from_chars(chars: &[char]) -> (r: String)
    ensures
        r@ == chars@,
{
    let mut s = String::new();
    let mut i: usize = 0;
    while i < chars.len()
        invariant
            i <= chars.len(),
            s@ == chars@.subrange(0, i as int),
        decreases chars.len() - i,
    {
        push_char(&mut s, chars[i]);
        i = i + 1;
        assert(s@ =~= chars@.subrange(0, i as int));
    }
    assert(chars@.subrange(0, chars@.len() as int) =~= chars@);
    s
}

/// The `u16` stored little-endian in `bytes[at..at + 2]`.
pub fn le_u16_at(bytes: &[u8], at: usize) -> (r: u16)
    requires
        at + 2 <= bytes@.len(),
    ensures
        le_bytes_u16(r) == bytes@.subrange(at as int, at + 2),
{
    let (b0, b1) = (bytes[at], bytes[at + 1]);
    let r = (b0 as u16) | ((b1 as u16) << 8u16);
    assert((r & 0xff) as u8 == b0 && ((r >> 8u16) & 0xff) as u8 == b1) by (bit_vector)
        requires
            r == (b0 as u16) | ((b1 as u16) << 8u16),
    ;
    assert(le_bytes_u16(r) =~= bytes@.subrange(at as int, at + 2));
    r
}

/// The `u32` stored little-endian in `bytes[at..at + 4]`.
pub fn le_u32_at(bytes: &[u8], at: usize) -> (r: u32)
    requires
        at + 4 <= bytes@.len(),
    ensures
        le_bytes_u32(r) == bytes@.subrange(at as int, at + 4),
{
    let (b0, b1, b2, b3) = (bytes[at], bytes[at + 1], bytes[at + 2], bytes[at + 3]);
    let r = (b0 as u32) | ((b1 as u32) << 8u32) | ((b2 as u32) << 16u32) | ((b3 as u32) << 24u32);
    assert((r & 0xff) as u8 == b0 && ((r >> 8u32) & 0xff) as u8 == b1 && ((r >> 16u32) & 0xff)
        as u8 == b2 && ((r >> 24u32) & 0xff) as u8 == b3) by (bit_vector)
        requires
            r == (b0 as u32) | ((b1 as u32) << 8u32) | ((b2 as u32) << 16u32) | ((b3 as u32)
                << 24u32),
    ;
    assert(le_bytes_u32(r) =~= bytes@.subrange(at as int, at + 4));
    r
}

} // verus!
