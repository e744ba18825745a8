//! Little-endian integer fields inside a device response.

use vstd::prelude::*;

verus! {

/// The unsigned 32-bit field that starts at byte `at` of `s`.
pub open spec fn le_u32(s: Seq<u8>, at: int) -> u32
    recommends
        0 <= at,
        at + 4 <= s.len(),
{
    (s[at] as int + s[at + 1] as int * 0x100 + s[at + 2] as int * 0x1_0000 + s[at + 3] as int
        * 0x100_0000) as u32
}

/// The unsigned 64-bit field that starts at byte `at` of `s`.
pub open spec fn le_u64(s: Seq<u8>, at: int) -> u64
    recommends
        0 <= at,
        at + 8 <= s.len(),
{
    (le_u32(s, at) as int + le_u32(s, at + 4) as int * 0x1_0000_0000) as u64
}

/// The two's-complement reading of a 64-bit pattern.
pub open spec fn as_signed(v: u64) -> i64 {
    if v <= i64::MAX as u64 {
        v as i64
    } else {
        (v as int - 0x1_0000_0000_0000_0000) as i64
    }
}

/// The signed 64-bit field that starts at byte `at` of `s`.
pub open spec fn le_i64(s: Seq<u8>, at: int) -> i64
    recommends
        0 <= at,
        at + 8 <= s.len(),
{
    as_signed(le_u64(s, at))
}

/// A field depends on its own bytes only.
pub proof fn lemma_le_u32_local(a: Seq<u8>, b: Seq<u8>, at: int)
    requires
        0 <= at,
        at + 4 <= a.len(),
        at + 4 <= b.len(),
        forall|k: int| at <= k < at + 4 ==> a[k] == b[k],
    ensures
        le_u32(a, at) == le_u32(b, at),
{
}

/// A field depends on its own bytes only.
pub proof fn lemma_le_u64_local(a: Seq<u8>, b: Seq<u8>, at: int)
    requires
        0 <= at,
        at + 8 <= a.len(),
        at + 8 <= b.len(),
        forall|k: int| at <= k < at + 8 ==> a[k] == b[k],
    ensures
        le_u64(a, at) == le_u64(b, at),
{
    lemma_le_u32_local(a, b, at);
    lemma_le_u32_local(a, b, at + 4);
}

pub(crate) fn read_u32(buf: &[u8], at: usize) -> (r: u32)
    requires
        at + 4 <= buf.len(),
    ensures
        r == le_u32(buf@, at as int),
{
    let b0: u32 = buf[at] as u32;
    let b1: u32 = buf[at + 1] as u32;
    let b2: u32 = buf[at + 2] as u32;
    let b3: u32 = buf[at + 3] as u32;
    b0 + b1 * 0x100 + b2 * 0x1_0000 + b3 * 0x100_0000
}

pub(crate) fn read_u64(buf: &[u8], at: usize) -> (r: u64)
    requires
        at + 8 <= buf.len(),
    ensures
        r == le_u64(buf@, at as int),
{
    let low: u64 = read_u32(buf, at) as u64;
    let high: u64 = read_u32(buf, at + 4) as u64;
    low + high * 0x1_0000_0000
}

pub(crate) fn read_i64(buf: &[u8], at: usize) -> (r: i64)
    requires
        at + 8 <= buf.len(),
    ensures
        r == le_i64(buf@, at as int),
{
    let v: u64 = read_u64(buf, at);
    if v <= 0x7fff_ffff_ffff_ffff {
        v as i64
    } else {
        let below: i64 = (v - 0x8000_0000_0000_0000) as i64;
        below + i64::MIN
    }
}

} // verus!
