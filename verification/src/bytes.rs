//! Big-endian length prefixes.

use vstd::prelude::*;

verus! {

/// `n` as two bytes, most significant first.
pub open spec fn be16(n: nat) -> Seq<u8> {
    seq![(n / 256) as u8, (n % 256) as u8]
}

/// The number that the first two bytes of `s` spell.
pub open spec fn from_be16(s: Seq<u8>) -> nat {
    (s[0] * 256 + s[1]) as nat
}

/// `n` as four bytes, most significant first.
pub open spec fn be32(n: nat) -> Seq<u8> {
    be16(n / 65536) + be16(n % 65536)
}

/// The number that the first four bytes of `s` spell.
pub open spec fn from_be32(s: Seq<u8>) -> nat {
    from_be16(s) * 65536 + from_be16(s.skip(2))
}

/// Reading two bytes gives back the number that was written, whatever follows.
pub proof fn be16_roundtrip(n: nat, rest: Seq<u8>)
    requires
        n <= 0xFFFF,
    ensures
        be16(n).len() == 2,
        from_be16(be16(n) + rest) == n,
{
    let s = be16(n) + rest;
    assert(s[0] == (n / 256) as u8 && s[1] == (n % 256) as u8);
}

/// Reading four bytes gives back the number that was written, whatever follows.
pub proof fn be32_roundtrip(n: nat, rest: Seq<u8>)
    requires
        n <= 0xFFFF_FFFF,
    ensures
        be32(n).len() == 4,
        from_be32(be32(n) + rest) == n,
{
    let low = be16(n % 65536) + rest;
    assert(be32(n) + rest =~= be16(n / 65536) + low);
    be16_roundtrip(n / 65536, low);
    assert((be32(n) + rest).skip(2) =~= low);
    be16_roundtrip(n % 65536, rest);
}

/// The most significant byte stands first, so numbers are ordered as their bytes
/// are read, and each byte counts 256 times the next.
pub proof fn the_most_significant_byte_comes_first(n: nat)
    requires
        n <= 0xFFFF_FFFF,
    ensures
        n <= 0xFFFF ==> be16(n).len() == 2 && be16(n)[0] as int * 256 + be16(n)[1] as int == n,
        be32(n).len() == 4,
        be32(n)[0] as int * 0x100_0000 + be32(n)[1] as int * 0x1_0000 + be32(n)[2] as int * 0x100
            + be32(n)[3] as int == n,
{
}

/// Appends `n` as two bytes.
pub(crate) fn push_be16(out: &mut Vec<u8>, n: u16)
    ensures
        final(out)@ == old(out)@ + be16(n as nat),
        final(out)@ == old(out)@.push((n / 256) as u8).push((n % 256) as u8),
{
    out.push((n / 256) as u8);
    out.push((n % 256) as u8);
    assert(out@ =~= old(out)@ + be16(n as nat));
}

/// Appends `n` as four bytes.
pub(crate) fn push_be32(out: &mut Vec<u8>, n: u32)
    ensures
        final(out)@ == old(out)@ + be32(n as nat),
{
    push_be16(out, (n / 65536) as u16);
    push_be16(out, (n % 65536) as u16);
    assert(out@ =~= old(out)@ + be32(n as nat));
}

/// Reads the number that the first two bytes of `s` spell.
pub(crate) fn read_be16(s: &[u8]) -> (n: u16)
    requires
        s@.len() >= 2,
    ensures
        n == from_be16(s@),
        n == s@[0] * 256 + s@[1],
{
    let high: u16 = s[0] as u16;
    let low: u16 = s[1] as u16;
    high * 256 + low
}

/// Reads the number that the first four bytes of `s` spell.
pub(crate) fn read_be32(s: &[u8]) -> (n: u32)
    requires
        s@.len() >= 4,
    ensures
        n == from_be32(s@),
        n == s@[0] * 0x100_0000 + s@[1] * 0x1_0000 + s@[2] * 0x100 + s@[3],
{
    let high: u32 = read_be16(s) as u32;
    let low: u32 = s[2] as u32 * 256 + s[3] as u32;
    assert(s@.skip(2)[0] == s@[2] && s@.skip(2)[1] == s@[3]);
    high * 65536 + low
}

} // verus!
