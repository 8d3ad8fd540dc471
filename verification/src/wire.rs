//! Big-endian integer fields of the wire format.

use vstd::prelude::*;

verus! {

/// The value of two big-endian bytes.
pub open spec fn be16(b0: u8, b1: u8) -> nat {
    (b0 as nat) * 0x100 + (b1 as nat)
}

/// The value of four big-endian bytes.
pub open spec fn be32(b0: u8, b1: u8, b2: u8, b3: u8) -> nat {
    (b0 as nat) * 0x1000000 + (b1 as nat) * 0x10000 + (b2 as nat) * 0x100 + (b3 as nat)
}

/// The two big-endian bytes of a 16-bit value.
pub open spec fn u16_be(x: u16) -> Seq<u8> {
    seq![(x / 0x100) as u8, (x % 0x100) as u8]
}

/// The four big-endian bytes of a 32-bit value.
pub open spec fn u32_be(x: u32) -> Seq<u8> {
    seq![
        (x / 0x1000000) as u8,
        ((x / 0x10000) % 0x100) as u8,
        ((x / 0x100) % 0x100) as u8,
        (x % 0x100) as u8,
    ]
}

/// Writing a 16-bit value big-endian and reading it back is the identity.
pub proof fn lemma_u16_be_value(x: u16)
    ensures
        be16(u16_be(x)[0], u16_be(x)[1]) == x,
{
}

/// Writing a 32-bit value big-endian and reading it back is the identity.
pub proof fn lemma_u32_be_value(x: u32)
    ensures
        be32(u32_be(x)[0], u32_be(x)[1], u32_be(x)[2], u32_be(x)[3]) == x,
{
    assert((x / 0x1000000) as nat * 0x1000000 + ((x / 0x10000) % 0x100) as nat * 0x10000
        + ((x / 0x100) % 0x100) as nat * 0x100 + (x % 0x100) as nat == x) by (nonlinear_arith);
}

/// Reading two big-endian bytes and writing the value back is the identity.
pub proof fn lemma_be16_bytes(b0: u8, b1: u8)
    ensures
        be16(b0, b1) <= 0xFFFF,
        u16_be(be16(b0, b1) as u16) =~= seq![b0, b1],
{
    let x = be16(b0, b1);
    assert(x / 0x100 == b0 && x % 0x100 == b1) by (nonlinear_arith)
        requires
            x == (b0 as nat) * 0x100 + (b1 as nat),
            b1 < 0x100,
    ;
}

/// Reading four big-endian bytes and writing the value back is the identity.
pub proof fn lemma_be32_bytes(b0: u8, b1: u8, b2: u8, b3: u8)
    ensures
        be32(b0, b1, b2, b3) <= 0xFFFFFFFF,
        u32_be(be32(b0, b1, b2, b3) as u32) =~= seq![b0, b1, b2, b3],
{
    let x = be32(b0, b1, b2, b3);
    assert(x / 0x1000000 == b0 && (x / 0x10000) % 0x100 == b1 && (x / 0x100) % 0x100 == b2 && x
        % 0x100 == b3) by (nonlinear_arith)
        requires
            x == (b0 as nat) * 0x1000000 + (b1 as nat) * 0x10000 + (b2 as nat) * 0x100 + (
            b3 as nat),
            b1 < 0x100,
            b2 < 0x100,
            b3 < 0x100,
    ;
}

/// Appends the two big-endian bytes of `x`.
pub fn push_u16_be(out: &mut Vec<u8>, x: u16)
    ensures
        final(out)@ == old(out)@ + u16_be(x),
{
    out.push((x / 0x100) as u8);
    out.push((x % 0x100) as u8);
    assert(out@ =~= old(out)@ + u16_be(x));
}

/// Appends the four big-endian bytes of `x`.
pub fn push_u32_be(out: &mut Vec<u8>, x: u32)
    ensures
        final(out)@ == old(out)@ + u32_be(x),
{
    out.push((x / 0x1000000) as u8);
    out.push(((x / 0x10000) % 0x100) as u8);
    out.push(((x / 0x100) % 0x100) as u8);
    out.push((x % 0x100) as u8);
    assert(out@ =~= old(out)@ + u32_be(x));
}

/// Reads two big-endian bytes at `pos`.
pub fn read_u16_be(d: &[u8], pos: usize) -> (x: u16)
    requires
        pos + 2 <= d@.len(),
    ensures
        x as nat == be16(d@[pos as int], d@[pos as int + 1]),
{
    let hi: u16 = d[pos] as u16;
    let lo: u16 = d[pos + 1] as u16;
    hi * 0x100 + lo
}

/// Reads four big-endian bytes at `pos`.
pub fn read_u32_be(d: &[u8], pos: usize) -> (x: u32)
    requires
        pos + 4 <= d@.len(),
    ensures
        x as nat == be32(d@[pos as int], d@[pos as int + 1], d@[pos as int + 2], d@[pos as int + 3]),
{
    let b0: u32 = d[pos] as u32;
    let b1: u32 = d[pos + 1] as u32;
    let b2: u32 = d[pos + 2] as u32;
    let b3: u32 = d[pos + 3] as u32;
    b0 * 0x1000000 + b1 * 0x10000 + b2 * 0x100 + b3
}

} // verus!
