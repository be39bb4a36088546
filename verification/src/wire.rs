//! Big-endian reads and writes of the multi-byte wire fields.

use vstd::prelude::*;

verus! {

/// The 16-bit big-endian value stored at `i`, as a mathematical integer.
pub open spec fn be16(s: Seq<u8>, i: int) -> int {
    (s[i] as int) * 256 + (s[i + 1] as int)
}

/// The 32-bit big-endian value stored at `i`, as a mathematical integer.
pub open spec fn be32(s: Seq<u8>, i: int) -> int {
    be16(s, i) * 0x10000 + be16(s, i + 2)
}

/// `s` with the 16-bit big-endian value `v` written at `i`.
pub open spec fn be16_put(s: Seq<u8>, i: int, v: int) -> Seq<u8> {
    s.update(i, (v / 256) as u8).update(i + 1, (v % 256) as u8)
}

/// Reads the 16-bit big-endian value at `i`.
pub fn read_be16(pkt: &Vec<u8>, i: usize) -> (r: u16)
    requires
        i + 2 <= pkt@.len(),
    ensures
        r as int == be16(pkt@, i as int),
{
    let _n: usize = pkt.len();
    let hi = pkt[i];
    let lo = pkt[i + 1];
    (hi as u16) * 256 + (lo as u16)
}

/// Reads the 32-bit big-endian value at `i`.
pub fn read_be32(pkt: &Vec<u8>, i: usize) -> (r: u32)
    requires
        i + 4 <= pkt@.len(),
    ensures
        r as int == be32(pkt@, i as int),
{
    let _n: usize = pkt.len();
    let hi = read_be16(pkt, i);
    let lo = read_be16(pkt, i + 2);
    (hi as u32) * 0x10000 + (lo as u32)
}

/// Writes `v` at `i` as a 16-bit big-endian value.
pub fn write_be16(pkt: &mut Vec<u8>, i: usize, v: u16)
    requires
        i + 2 <= old(pkt)@.len(),
    ensures
        final(pkt)@ == be16_put(old(pkt)@, i as int, v as int),
        final(pkt)@.len() == old(pkt)@.len(),
{
    let _n: usize = pkt.len();
    let hi: u8 = (v / 256) as u8;
    let lo: u8 = (v % 256) as u8;
    pkt.set(i, hi);
    pkt.set(i + 1, lo);
}

/// Writing a 16-bit value and reading it back returns that value, and no
/// byte outside the two written ones moves.
pub proof fn lemma_be16_put_get(s: Seq<u8>, i: int, v: int)
    requires
        0 <= i,
        i + 2 <= s.len(),
        0 <= v < 0x10000,
    ensures
        be16(be16_put(s, i, v), i) == v,
        be16_put(s, i, v).len() == s.len(),
        forall|j: int| 0 <= j < s.len() && j != i && j != i + 1 ==> be16_put(s, i, v)[j] == s[j],
{
    assert(v == (v / 256) * 256 + v % 256) by (nonlinear_arith);
    assert(0 <= v / 256 < 256) by (nonlinear_arith)
        requires 0 <= v < 0x10000;
    assert(0 <= v % 256 < 256) by (nonlinear_arith);
}

} // verus!
