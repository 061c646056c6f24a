//! Device drivers and helpers shared by them.
pub mod fw_cfg;

use vstd::prelude::*;

verus! {

/// The little-endian byte sequence of a `u16`.
pub open spec fn le_bytes_u16(x: u16) -> Seq<u8> {
    seq![(x & 0xff) as u8, ((x >> 8u16) & 0xff) as u8]
}

/// The little-endian byte sequence of a `u32`.
pub open spec fn le_bytes_u32(x: u32) -> Seq<u8> {
    seq![
        (x & 0xff) as u8,
        ((x >> 8u32) & 0xff) as u8,
        ((x >> 16u32) & 0xff) as u8,
        ((x >> 24u32) & 0xff) as u8,
    ]
}

/// The little-endian byte sequence of a `u64`.
pub open spec fn le_bytes_u64(x: u64) -> Seq<u8> {
    seq![
        (x & 0xff) as u8,
        ((x >> 8u64) & 0xff) as u8,
        ((x >> 16u64) & 0xff) as u8,
        ((x >> 24u64) & 0xff) as u8,
        ((x >> 32u64) & 0xff) as u8,
        ((x >> 40u64) & 0xff) as u8,
        ((x >> 48u64) & 0xff) as u8,
        ((x >> 56u64) & 0xff) as u8,
    ]
}

/// Two `u16` values with the same bytes are equal.
pub proof fn lemma_le_bytes_u16_injective(x: u16, y: u16)
    requires
        le_bytes_u16(x) == le_bytes_u16(y),
    ensures
        x == y,
{
    assert(le_bytes_u16(x)[0] == le_bytes_u16(y)[0] && le_bytes_u16(x)[1] == le_bytes_u16(y)[1]);
    assert(x == y) by (bit_vector)
        requires
            ((x & 0xff) as u8) == ((y & 0xff) as u8),
            (((x >> 8u16) & 0xff) as u8) == (((y >> 8u16) & 0xff) as u8),
    ;
}

/// Two `u32` values with the same bytes are equal.
pub proof fn lemma_le_bytes_u32_injective(x: u32, y: u32)
    requires
        le_bytes_u32(x) == le_bytes_u32(y),
    ensures
        x == y,
{
    let (bx, by) = (le_bytes_u32(x), le_bytes_u32(y));
    assert(bx[0] == by[0] && bx[1] == by[1] && bx[2] == by[2] && bx[3] == by[3]);
    assert(x == y) by (bit_vector)
        requires
            ((x & 0xff) as u8) == ((y & 0xff) as u8),
            (((x >> 8u32) & 0xff) as u8) == (((y >> 8u32) & 0xff) as u8),
            (((x >> 16u32) & 0xff) as u8) == (((y >> 16u32) & 0xff) as u8),
            (((x >> 24u32) & 0xff) as u8) == (((y >> 24u32) & 0xff) as u8),
    ;
}

/// Two `u64` values with the same bytes are equal.
pub proof fn lemma_le_bytes_u64_injective(x: u64, y: u64)
    requires
        le_bytes_u64(x) == le_bytes_u64(y),
    ensures
        x == y,
{
    let (bx, by) = (le_bytes_u64(x), le_bytes_u64(y));
    assert(bx[0] == by[0] && bx[1] == by[1] && bx[2] == by[2] && bx[3] == by[3]);
    assert(bx[4] == by[4] && bx[5] == by[5] && bx[6] == by[6] && bx[7] == by[7]);
    assert(x == y) by (bit_vector)
        requires
            ((x & 0xff) as u8) == ((y & 0xff) as u8),
            (((x >> 8u64) & 0xff) as u8) == (((y >> 8u64) & 0xff) as u8),
            (((x >> 16u64) & 0xff) as u8) == (((y >> 16u64) & 0xff) as u8),
            (((x >> 24u64) & 0xff) as u8) == (((y >> 24u64) & 0xff) as u8),
            (((x >> 32u64) & 0xff) as u8) == (((y >> 32u64) & 0xff) as u8),
            (((x >> 40u64) & 0xff) as u8) == (((y >> 40u64) & 0xff) as u8),
            (((x >> 48u64) & 0xff) as u8) == (((y >> 48u64) & 0xff) as u8),
            (((x >> 56u64) & 0xff) as u8) == (((y >> 56u64) & 0xff) as u8),
    ;
}

/// Converting the byte order of a `u16` twice gives back the value it started from.
pub proof fn lemma_swab_u16_twice(x: u16, y: u16, z: u16)
    requires
        le_bytes_u16(y) == le_bytes_u16(x).reverse(),
        le_bytes_u16(z) == le_bytes_u16(y).reverse(),
    ensures
        z == x,
{
    assert(le_bytes_u16(x).reverse().reverse() =~= le_bytes_u16(x));
    lemma_le_bytes_u16_injective(z, x);
}

/// Converting the byte order of a `u32` twice gives back the value it started from.
pub proof fn lemma_swab_u32_twice(x: u32, y: u32, z: u32)
    requires
        le_bytes_u32(y) == le_bytes_u32(x).reverse(),
        le_bytes_u32(z) == le_bytes_u32(y).reverse(),
    ensures
        z == x,
{
    assert(le_bytes_u32(x).reverse().reverse() =~= le_bytes_u32(x));
    lemma_le_bytes_u32_injective(z, x);
}

/// Converting the byte order of a `u64` twice gives back the value it started from.
pub proof fn lemma_swab_u64_twice(x: u64, y: u64, z: u64)
    requires
        le_bytes_u64(y) == le_bytes_u64(x).reverse(),
        le_bytes_u64(z) == le_bytes_u64(y).reverse(),
    ensures
        z == x,
{
    assert(le_bytes_u64(x).reverse().reverse() =~= le_bytes_u64(x));
    lemma_le_bytes_u64_injective(z, x);
}

/// Conversion between the byte order of the machine and the big-endian
/// order used by firmware interfaces: the byte sequence is reversed.
pub trait ByteOrderConverter: Sized {
    fn swab(&self) -> Self;
}

impl ByteOrderConverter for u16 {
    fn swab(&self) -> (r: u16)
        ensures
            le_bytes_u16(r) == le_bytes_u16(*self).reverse(),
    {
        let x = *self;
        let r = ((x & 0x00FFu16) << 8u16) | ((x & 0xFF00u16) >> 8u16);
        assert(r & 0xff == (x >> 8u16) & 0xff && (r >> 8u16) & 0xff == x & 0xff) by (bit_vector)
            requires
                r == ((x & 0x00FFu16) << 8u16) | ((x & 0xFF00u16) >> 8u16),
        ;
        assert(le_bytes_u16(r) =~= le_bytes_u16(x).reverse());
        r
    }
}

impl ByteOrderConverter for u32 {
    fn swab(&self) -> (r: u32)
        ensures
            le_bytes_u32(r) == le_bytes_u32(*self).reverse(),
    {
        let x = *self;
        let r = ((x & 0x000000FFu32) << 24u32) | ((x & 0x0000FF00u32) << 8u32) | ((x
            & 0x00FF0000u32) >> 8u32) | ((x & 0xFF000000u32) >> 24u32);
        assert(r & 0xff == (x >> 24u32) & 0xff && (r >> 8u32) & 0xff == (x >> 16u32) & 0xff && (r
            >> 16u32) & 0xff == (x >> 8u32) & 0xff && (r >> 24u32) & 0xff == x & 0xff)
            by (bit_vector)
            requires
                r == ((x & 0x000000FFu32) << 24u32) | ((x & 0x0000FF00u32) << 8u32) | ((x
                    & 0x00FF0000u32) >> 8u32) | ((x & 0xFF000000u32) >> 24u32),
        ;
        assert(le_bytes_u32(r) =~= le_bytes_u32(x).reverse());
        r
    }
}

impl ByteOrderConverter for u64 {
    fn swab(&self) -> (r: u64)
        ensures
            le_bytes_u64(r) == le_bytes_u64(*self).reverse(),
    {
        let x = *self;
        let r = ((x & 0x00000000000000FFu64) << 56u64) | ((x & 0x000000000000FF00u64) << 40u64)
            | ((x & 0x0000000000FF0000u64) << 24u64) | ((x & 0x00000000FF000000u64) << 8u64) | ((x
            & 0x000000FF00000000u64) >> 8u64) | ((x & 0x0000FF0000000000u64) >> 24u64) | ((x
            & 0x00FF000000000000u64) >> 40u64) | ((x & 0xFF00000000000000u64) >> 56u64);
        assert(r & 0xff == (x >> 56u64) & 0xff && (r >> 8u64) & 0xff == (x >> 48u64) & 0xff && (r
            >> 16u64) & 0xff == (x >> 40u64) & 0xff && (r >> 24u64) & 0xff == (x >> 32u64) & 0xff
            && (r >> 32u64) & 0xff == (x >> 24u64) & 0xff && (r >> 40u64) & 0xff == (x >> 16u64)
            & 0xff && (r >> 48u64) & 0xff == (x >> 8u64) & 0xff && (r >> 56u64) & 0xff == x & 0xff)
            by (bit_vector)
            requires
                r == ((x & 0x00000000000000FFu64) << 56u64) | ((x & 0x000000000000FF00u64)
                    << 40u64) | ((x & 0x0000000000FF0000u64) << 24u64) | ((x
                    & 0x00000000FF000000u64) << 8u64) | ((x & 0x000000FF00000000u64) >> 8u64) | ((
                x & 0x0000FF0000000000u64) >> 24u64) | ((x & 0x00FF000000000000u64) >> 40u64) | ((
                x & 0xFF00000000000000u64) >> 56u64),
        ;
        assert(le_bytes_u64(r) =~= le_bytes_u64(x).reverse());
        r
    }
}

} // verus!
