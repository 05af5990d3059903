//! Fixed-width unsigned integers on the wire: little-endian, least significant
//! byte first.

use vstd::prelude::*;

verus! {

/// The four bytes that carry `x`, least significant first.
pub open spec fn u32_le(x: u32) -> Seq<u8> {
    seq![
        (x % 0x100) as u8,
        (x / 0x100 % 0x100) as u8,
        (x / 0x1_0000 % 0x100) as u8,
        (x / 0x100_0000 % 0x100) as u8,
    ]
}

/// The number that the first four bytes of `s` carry.
pub open spec fn u32_from_le(s: Seq<u8>) -> u32
    recommends
        s.len() >= 4,
{
    (s[0] + s[1] * 0x100 + s[2] * 0x1_0000 + s[3] * 0x100_0000) as u32
}

/// The eight bytes that carry `x`, least significant first.
pub open spec fn u64_le(x: u64) -> Seq<u8> {
    seq![
        (x % 0x100) as u8,
        (x / 0x100 % 0x100) as u8,
        (x / 0x1_0000 % 0x100) as u8,
        (x / 0x100_0000 % 0x100) as u8,
        (x / 0x1_0000_0000 % 0x100) as u8,
        (x / 0x100_0000_0000 % 0x100) as u8,
        (x / 0x1_0000_0000_0000 % 0x100) as u8,
        (x / 0x100_0000_0000_0000 % 0x100) as u8,
    ]
}

/// The number that the first eight bytes of `s` carry.
pub open spec fn u64_from_le(s: Seq<u8>) -> u64
    recommends
        s.len() >= 8,
{
    (s[0] + s[1] * 0x100 + s[2] * 0x1_0000 + s[3] * 0x100_0000 + s[4] * 0x1_0000_0000 + s[5]
        * 0x100_0000_0000 + s[6] * 0x1_0000_0000_0000 + s[7] * 0x100_0000_0000_0000) as u64
}

/// Each byte of `x` is the remainder of one more division by 256.
proof fn lemma_u32_digits(x: u32)
    ensures
        x / 0x1_0000 == x / 0x100 / 0x100,
        x / 0x100_0000 == x / 0x1_0000 / 0x100,
        x / 0x100_0000 < 0x100,
{
    assert(x / 0x1_0000 == x / 0x100 / 0x100);
    assert(x / 0x100_0000 == x / 0x1_0000 / 0x100);
}

/// Reading back what was written gives the number again.
pub proof fn lemma_u32_le_round_trip(x: u32)
    ensures
        u32_le(x).len() == 4,
        u32_from_le(u32_le(x)) == x,
{
    lemma_u32_digits(x);
}

/// Writing what was read gives the same four bytes again.
pub proof fn lemma_u32_le_unique(s: Seq<u8>)
    requires
        s.len() == 4,
    ensures
        u32_le(u32_from_le(s)) == s,
{
    let t3: int = s[3] as int;
    let t2: int = s[2] + t3 * 0x100;
    let t1: int = s[1] + t2 * 0x100;
    let t0: int = s[0] + t1 * 0x100;
    let x = u32_from_le(s);
    assert(x == t0);
    lemma_u32_digits(x);
    assert(t0 / 0x100 == t1 && t0 % 0x100 == s[0]);
    assert(t1 / 0x100 == t2 && t1 % 0x100 == s[1]);
    assert(t2 / 0x100 == t3 && t2 % 0x100 == s[2]);
    assert(t3 % 0x100 == s[3]);
    assert(u32_le(x) =~= s);
}

/// Each byte of `x` is the remainder of one more division by 256.
proof fn lemma_u64_digits(x: u64)
    ensures
        x / 0x1_0000 == x / 0x100 / 0x100,
        x / 0x100_0000 == x / 0x1_0000 / 0x100,
        x / 0x1_0000_0000 == x / 0x100_0000 / 0x100,
        x / 0x100_0000_0000 == x / 0x1_0000_0000 / 0x100,
        x / 0x1_0000_0000_0000 == x / 0x100_0000_0000 / 0x100,
        x / 0x100_0000_0000_0000 == x / 0x1_0000_0000_0000 / 0x100,
        x / 0x100_0000_0000_0000 < 0x100,
{
    assert(x / 0x1_0000 == x / 0x100 / 0x100);
    assert(x / 0x100_0000 == x / 0x1_0000 / 0x100);
    assert(x / 0x1_0000_0000 == x / 0x100_0000 / 0x100);
    assert(x / 0x100_0000_0000 == x / 0x1_0000_0000 / 0x100);
    assert(x / 0x1_0000_0000_0000 == x / 0x100_0000_0000 / 0x100);
    assert(x / 0x100_0000_0000_0000 == x / 0x1_0000_0000_0000 / 0x100);
}

/// Reading back what was written gives the number again.
pub proof fn lemma_u64_le_round_trip(x: u64)
    ensures
        u64_le(x).len() == 8,
        u64_from_le(u64_le(x)) == x,
{
    lemma_u64_digits(x);
}

/// Writing what was read gives the same eight bytes again.
pub proof fn lemma_u64_le_unique(s: Seq<u8>)
    requires
        s.len() == 8,
    ensures
        u64_le(u64_from_le(s)) == s,
{
    let t7: int = s[7] as int;
    let t6: int = s[6] + t7 * 0x100;
    let t5: int = s[5] + t6 * 0x100;
    let t4: int = s[4] + t5 * 0x100;
    let t3: int = s[3] + t4 * 0x100;
    let t2: int = s[2] + t3 * 0x100;
    let t1: int = s[1] + t2 * 0x100;
    let t0: int = s[0] + t1 * 0x100;
    let x = u64_from_le(s);
    assert(x == t0);
    lemma_u64_digits(x);
    assert(t0 / 0x100 == t1 && t0 % 0x100 == s[0]);
    assert(t1 / 0x100 == t2 && t1 % 0x100 == s[1]);
    assert(t2 / 0x100 == t3 && t2 % 0x100 == s[2]);
    assert(t3 / 0x100 == t4 && t3 % 0x100 == s[3]);
    assert(t4 / 0x100 == t5 && t4 % 0x100 == s[4]);
    assert(t5 / 0x100 == t6 && t5 % 0x100 == s[5]);
    assert(t6 / 0x100 == t7 && t6 % 0x100 == s[6]);
    assert(t7 % 0x100 == s[7]);
    assert(u64_le(x) =~= s);
}

/// Appends the four bytes of `x` to `out`.
pub fn put_u32_le(out: &mut Vec<u8>, x: u32)
    ensures
        final(out)@ == old(out)@ + u32_le(x),
{
    out.push((x % 0x100) as u8);
    out.push((x / 0x100 % 0x100) as u8);
    out.push((x / 0x1_0000 % 0x100) as u8);
    out.push((x / 0x100_0000 % 0x100) as u8);
    assert(out@ =~= old(out)@ + u32_le(x));
}

/// Appends the eight bytes of `x` to `out`.
pub fn put_u64_le(out: &mut Vec<u8>, x: u64)
    ensures
        final(out)@ == old(out)@ + u64_le(x),
{
    out.push((x % 0x100) as u8);
    out.push((x / 0x100 % 0x100) as u8);
    out.push((x / 0x1_0000 % 0x100) as u8);
    out.push((x / 0x100_0000 % 0x100) as u8);
    out.push((x / 0x1_0000_0000 % 0x100) as u8);
    out.push((x / 0x100_0000_0000 % 0x100) as u8);
    out.push((x / 0x1_0000_0000_0000 % 0x100) as u8);
    out.push((x / 0x100_0000_0000_0000 % 0x100) as u8);
    assert(out@ =~= old(out)@ + u64_le(x));
}

/// Reads the four bytes that start at `at`.
pub fn get_u32_le(bytes: &[u8], at: usize) -> (x: u32)
    requires
        at + 4 <= bytes@.len(),
    ensures
        x == u32_from_le(bytes@.subrange(at as int, at + 4)),
{
    let b0: u32 = bytes[at] as u32;
    let b1: u32 = bytes[at + 1] as u32;
    let b2: u32 = bytes[at + 2] as u32;
    let b3: u32 = bytes[at + 3] as u32;
    b0 + b1 * 0x100 + b2 * 0x1_0000 + b3 * 0x100_0000
}

/// Reads the eight bytes that start at `at`.
pub fn get_u64_le(bytes: &[u8], at: usize) -> (x: u64)
    requires
        at + 8 <= bytes@.len(),
    ensures
        x == u64_from_le(bytes@.subrange(at as int, at + 8)),
{
    let b0: u64 = bytes[at] as u64;
    let b1: u64 = bytes[at + 1] as u64;
    let b2: u64 = bytes[at + 2] as u64;
    let b3: u64 = bytes[at + 3] as u64;
    let b4: u64 = bytes[at + 4] as u64;
    let b5: u64 = bytes[at + 5] as u64;
    let b6: u64 = bytes[at + 6] as u64;
    let b7: u64 = bytes[at + 7] as u64;
    b0 + b1 * 0x100 + b2 * 0x1_0000 + b3 * 0x100_0000 + b4 * 0x1_0000_0000 + b5 * 0x100_0000_0000
        + b6 * 0x1_0000_0000_0000 + b7 * 0x100_0000_0000_0000
}

} // verus!
