//! Fixed-width big-endian (MSB-first) fields on byte-aligned positions.
use vstd::prelude::*;

verus! {

/// The 16-bit value stored MSB-first at byte `i` of `s`.
pub open spec fn be16(s: Seq<u8>, i: int) -> int {
    s[i] as int * 256 + s[i + 1] as int
}

/// The 32-bit value stored MSB-first at byte `i` of `s`.
pub open spec fn be32(s: Seq<u8>, i: int) -> int {
    be16(s, i) * 65536 + be16(s, i + 2)
}

/// The two bytes that hold `v` MSB-first.
pub open spec fn u16_bytes(v: u16) -> Seq<u8> {
    seq![(v / 256) as u8, (v % 256) as u8]
}

/// The four bytes that hold `v` MSB-first.
pub open spec fn u32_bytes(v: u32) -> Seq<u8> {
    u16_bytes((v / 65536) as u16) + u16_bytes((v % 65536) as u16)
}

/// Writing a 16-bit field and reading it back gives the bytes it was read from.
pub proof fn lemma_u16_bytes_of_read(s: Seq<u8>, i: int)
    requires
        0 <= i,
        i + 2 <= s.len(),
    ensures
        0 <= be16(s, i) < 65536,
        u16_bytes(be16(s, i) as u16) =~= s.subrange(i, i + 2),
{
    let a = s[i] as int;
    let b = s[i + 1] as int;
    assert((a * 256 + b) / 256 == a && (a * 256 + b) % 256 == b) by (nonlinear_arith)
        requires
            0 <= a < 256,
            0 <= b < 256,
    ;
}

/// Writing a 32-bit field and reading it back gives the bytes it was read from.
pub proof fn lemma_u32_bytes_of_read(s: Seq<u8>, i: int)
    requires
        0 <= i,
        i + 4 <= s.len(),
    ensures
        0 <= be32(s, i) < 0x1_0000_0000,
        u32_bytes(be32(s, i) as u32) =~= s.subrange(i, i + 4),
{
    lemma_u16_bytes_of_read(s, i);
    lemma_u16_bytes_of_read(s, i + 2);
    let h = be16(s, i);
    let l = be16(s, i + 2);
    assert((h * 65536 + l) / 65536 == h && (h * 65536 + l) % 65536 == l
        && 0 <= h * 65536 + l < 0x1_0000_0000) by (nonlinear_arith)
        requires
            0 <= h < 65536,
            0 <= l < 65536,
    ;
}

/// Reads the 16-bit field at byte `pos`.
pub fn read_u16(data: &[u8], pos: usize) -> (r: u16)
    requires
        pos + 2 <= data@.len(),
    ensures
        r == be16(data@, pos as int),
{
    let a = data[pos] as u16;
    let b = data[pos + 1] as u16;
    assert(a * 256 + b < 65536) by (nonlinear_arith)
        requires
            a < 256,
            b < 256,
    ;
    a * 256 + b
}

/// Reads the 32-bit field at byte `pos`.
pub fn read_u32(data: &[u8], pos: usize) -> (r: u32)
    requires
        pos + 4 <= data@.len(),
    ensures
        r == be32(data@, pos as int),
{
    let n: usize = data.len();
    assert(pos + 4 <= n);
    let h = read_u16(data, pos) as u32;
    let l = read_u16(data, pos + 2) as u32;
    assert(h * 65536 + l < 0x1_0000_0000) by (nonlinear_arith)
        requires
            h < 65536,
            l < 65536,
    ;
    h * 65536 + l
}

/// Appends `v` as a 16-bit field.
pub fn write_u16(out: &mut Vec<u8>, v: u16)
    ensures
        final(out)@ == old(out)@ + u16_bytes(v),
{
    out.push((v / 256) as u8);
    out.push((v % 256) as u8);
    assert(out@ =~= old(out)@ + u16_bytes(v));
}

/// Appends `v` as a 32-bit field.
pub fn write_u32(out: &mut Vec<u8>, v: u32)
    ensures
        final(out)@ == old(out)@ + u32_bytes(v),
{
    write_u16(out, (v / 65536) as u16);
    write_u16(out, (v % 65536) as u16);
    assert(out@ =~= old(out)@ + u32_bytes(v));
}

} // verus!
