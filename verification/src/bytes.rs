//! Fixed-width little-endian integers, as the wire format lays them out.

use vstd::prelude::*;

verus! {

/// The four bytes of `x`, least significant first.
pub open spec fn le_u32(x: u32) -> Seq<u8> {
    seq![
        (x % 256) as u8,
        (x / 256 % 256) as u8,
        (x / 65536 % 256) as u8,
        (x / 16777216 % 256) as u8,
    ]
}

/// The eight bytes of `x`, least significant first.
pub open spec fn le_u64(x: u64) -> Seq<u8> {
    le_u32((x % 0x1_0000_0000) as u32) + le_u32((x / 0x1_0000_0000) as u32)
}

/// The two's-complement image of `x` among the unsigned 64-bit numbers.
pub open spec fn twos_complement(x: i64) -> u64 {
    if x >= 0 {
        x as u64
    } else {
        (x + 0x1_0000_0000_0000_0000) as u64
    }
}

/// The signed number whose two's-complement image is `u`.
pub open spec fn from_twos_complement(u: u64) -> i64 {
    if u < 0x8000_0000_0000_0000 {
        u as i64
    } else {
        (u - 0x1_0000_0000_0000_0000) as i64
    }
}

/// The eight bytes of `x` in two's complement, least significant first.
pub open spec fn le_i64(x: i64) -> Seq<u8> {
    le_u64(twos_complement(x))
}

/// The number that the four bytes of `s` from `at` on spell, least
/// significant first.
pub open spec fn u32_at(s: Seq<u8>, at: int) -> u32
    recommends
        0 <= at,
        at + 4 <= s.len(),
{
    (s[at] + 256 * s[at + 1] + 65536 * s[at + 2] + 16777216 * s[at + 3]) as u32
}

/// The number that the eight bytes of `s` from `at` on spell, least
/// significant first.
pub open spec fn u64_at(s: Seq<u8>, at: int) -> u64
    recommends
        0 <= at,
        at + 8 <= s.len(),
{
    (u32_at(s, at) + 0x1_0000_0000 * u32_at(s, at + 4)) as u64
}

/// The signed number that the eight bytes of `s` from `at` on spell.
pub open spec fn i64_at(s: Seq<u8>, at: int) -> i64
    recommends
        0 <= at,
        at + 8 <= s.len(),
{
    from_twos_complement(u64_at(s, at))
}

/// Reading back what was written gives the number written, wherever in a
/// buffer the four bytes stand.
pub proof fn lemma_u32_read_back(before: Seq<u8>, x: u32, after: Seq<u8>)
    ensures
        u32_at(before + le_u32(x) + after, before.len() as int) == x,
        le_u32(x).len() == 4,
{
    let s = before + le_u32(x) + after;
    let at = before.len() as int;
    assert(s[at] == le_u32(x)[0]);
    assert(s[at + 1] == le_u32(x)[1]);
    assert(s[at + 2] == le_u32(x)[2]);
    assert(s[at + 3] == le_u32(x)[3]);
}

/// Reading back what was written gives the number written, wherever in a
/// buffer the eight bytes stand.
pub proof fn lemma_u64_read_back(before: Seq<u8>, x: u64, after: Seq<u8>)
    ensures
        u64_at(before + le_u64(x) + after, before.len() as int) == x,
        le_u64(x).len() == 8,
{
    let lo = (x % 0x1_0000_0000) as u32;
    let hi = (x / 0x1_0000_0000) as u32;
    let s = before + le_u64(x) + after;
    assert(s =~= before + le_u32(lo) + (le_u32(hi) + after));
    assert(s =~= (before + le_u32(lo)) + le_u32(hi) + after);
    lemma_u32_read_back(before, lo, le_u32(hi) + after);
    lemma_u32_read_back(before + le_u32(lo), hi, after);
}

/// Reading back a signed number gives the number written.
pub proof fn lemma_i64_read_back(before: Seq<u8>, x: i64, after: Seq<u8>)
    ensures
        i64_at(before + le_i64(x) + after, before.len() as int) == x,
        le_i64(x).len() == 8,
{
    lemma_u64_read_back(before, twos_complement(x), after);
}

/// Appends the four bytes of `x` to `buf`.
pub fn put_u32(buf: &mut Vec<u8>, x: u32)
    ensures
        final(buf)@ == old(buf)@ + le_u32(x),
{
    buf.push((x % 256) as u8);
    buf.push((x / 256 % 256) as u8);
    buf.push((x / 65536 % 256) as u8);
    buf.push((x / 16777216 % 256) as u8);
    assert(buf@ =~= old(buf)@ + le_u32(x));
}

/// Appends the eight bytes of `x` to `buf`.
pub fn put_u64(buf: &mut Vec<u8>, x: u64)
    ensures
        final(buf)@ == old(buf)@ + le_u64(x),
{
    put_u32(buf, (x % 0x1_0000_0000) as u32);
    put_u32(buf, (x / 0x1_0000_0000) as u32);
    assert(buf@ =~= old(buf)@ + le_u64(x));
}

/// Appends the eight bytes of `x`, in two's complement, to `buf`.
pub fn put_i64(buf: &mut Vec<u8>, x: i64)
    ensures
        final(buf)@ == old(buf)@ + le_i64(x),
{
    let u: u64 = if x >= 0 {
        x as u64
    } else {
        ((x - i64::MIN) as u64) + 0x8000_0000_0000_0000
    };
    put_u64(buf, u);
}

/// Reads four bytes of `data` from `at` on as one number.
pub fn get_u32(data: &[u8], at: usize) -> (r: u32)
    requires
        at + 4 <= data@.len(),
    ensures
        r == u32_at(data@, at as int),
{
    let b0: u32 = data[at] as u32;
    let b1: u32 = data[at + 1] as u32;
    let b2: u32 = data[at + 2] as u32;
    let b3: u32 = data[at + 3] as u32;
    b0 + 256 * b1 + 65536 * b2 + 16777216 * b3
}

/// Reads eight bytes of `data` from `at` on as one number.
pub fn get_u64(data: &[u8], at: usize) -> (r: u64)
    requires
        at + 8 <= data@.len(),
    ensures
        r == u64_at(data@, at as int),
{
    let len: usize = data.len();
    let lo: u64 = get_u32(data, at) as u64;
    let hi: u64 = get_u32(data, at + 4) as u64;
    lo + 0x1_0000_0000 * hi
}

/// The signed number whose two's-complement image is `u`.
pub fn to_signed(u: u64) -> (r: i64)
    ensures
        r == from_twos_complement(u),
{
    if u < 0x8000_0000_0000_0000 {
        u as i64
    } else {
        ((u - 0x8000_0000_0000_0000) as i64) + i64::MIN
    }
}

/// Reads eight bytes of `data` from `at` on as one signed number.
pub fn get_i64(data: &[u8], at: usize) -> (r: i64)
    requires
        at + 8 <= data@.len(),
    ensures
        r == i64_at(data@, at as int),
{
    to_signed(get_u64(data, at))
}

} // verus!
