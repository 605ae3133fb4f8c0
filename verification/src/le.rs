//! Little-endian byte encodings of the 16- and 32-bit header fields.
use vstd::prelude::*;

verus! {

/// The two little-endian bytes of `x`, lowest first.
pub open spec fn le_u16(x: u16) -> Seq<u8> {
    seq![x as u8, (x >> 8u16) as u8]
}

/// The four little-endian bytes of `x`, lowest first.
pub open spec fn le_u32(x: u32) -> Seq<u8> {
    seq![x as u8, (x >> 8u32) as u8, (x >> 16u32) as u8, (x >> 24u32) as u8]
}

/// The `u16` whose little-endian bytes are the first two of `s`.
pub open spec fn from_le_u16(s: Seq<u8>) -> u16 {
    (s[0] as u16) | ((s[1] as u16) << 8u16)
}

/// The `u32` whose little-endian bytes are the first four of `s`.
pub open spec fn from_le_u32(s: Seq<u8>) -> u32 {
    (s[0] as u32) | ((s[1] as u32) << 8u32) | ((s[2] as u32) << 16u32) | ((s[3] as u32) << 24u32)
}

/// Encoding and decoding undo each other.
pub proof fn lemma_le_round_trips()
    ensures
        forall|x: u16| #[trigger] from_le_u16(le_u16(x)) == x,
        forall|x: u32| #[trigger] from_le_u32(le_u32(x)) == x,
        forall|s: Seq<u8>| s.len() == 2 ==> #[trigger] le_u16(from_le_u16(s)) == s,
        forall|s: Seq<u8>| s.len() == 4 ==> #[trigger] le_u32(from_le_u32(s)) == s,
{
    assert forall|x: u16| #[trigger] from_le_u16(le_u16(x)) == x by {
        assert(((x as u8) as u16) | ((((x >> 8u16) as u8) as u16) << 8u16) == x) by (bit_vector);
    }
    assert forall|x: u32| #[trigger] from_le_u32(le_u32(x)) == x by {
        assert(((x as u8) as u32) | ((((x >> 8u32) as u8) as u32) << 8u32) | ((((x >> 16u32)
            as u8) as u32) << 16u32) | ((((x >> 24u32) as u8) as u32) << 24u32) == x)
            by (bit_vector);
    }
    assert forall|s: Seq<u8>| s.len() == 2 implies #[trigger] le_u16(from_le_u16(s)) == s by {
        let (a, b) = (s[0], s[1]);
        let x = (a as u16) | ((b as u16) << 8u16);
        assert(x as u8 == a && (x >> 8u16) as u8 == b) by (bit_vector)
            requires
                x == (a as u16) | ((b as u16) << 8u16),
        ;
        assert(le_u16(from_le_u16(s)) =~= s);
    }
    assert forall|s: Seq<u8>| s.len() == 4 implies #[trigger] le_u32(from_le_u32(s)) == s by {
        let (a, b, c, d) = (s[0], s[1], s[2], s[3]);
        let x = (a as u32) | ((b as u32) << 8u32) | ((c as u32) << 16u32) | ((d as u32) << 24u32);
        assert(x as u8 == a && (x >> 8u32) as u8 == b && (x >> 16u32) as u8 == c && (x >> 24u32)
            as u8 == d) by (bit_vector)
            requires
                x == (a as u32) | ((b as u32) << 8u32) | ((c as u32) << 16u32) | ((d as u32)
                    << 24u32),
        ;
        assert(le_u32(from_le_u32(s)) =~= s);
    }
}

/// The little-endian bytes of a `u16`.
pub fn le_u16_bytes(x: u16) -> (r: [u8; 2])
    ensures
        r@ == le_u16(x),
{
    let r: [u8; 2] = [x as u8, (x >> 8) as u8];
    assert(r@ =~= le_u16(x));
    r
}

/// The little-endian bytes of a `u32`.
pub fn le_u32_bytes(x: u32) -> (r: [u8; 4])
    ensures
        r@ == le_u32(x),
{
    let r: [u8; 4] = [x as u8, (x >> 8) as u8, (x >> 16) as u8, (x >> 24) as u8];
    assert(r@ =~= le_u32(x));
    r
}

/// The `u16` of two little-endian bytes.
pub fn u16_of_le(s: &[u8]) -> (r: u16)
    requires
        s@.len() == 2,
    ensures
        r == from_le_u16(s@),
{
    (s[0] as u16) | ((s[1] as u16) << 8)
}

/// The `u32` of four little-endian bytes.
pub fn u32_of_le(s: &[u8]) -> (r: u32)
    requires
        s@.len() == 4,
    ensures
        r == from_le_u32(s@),
{
    (s[0] as u32) | ((s[1] as u32) << 8) | ((s[2] as u32) << 16) | ((s[3] as u32) << 24)
}

} // verus!
