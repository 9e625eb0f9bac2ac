use vstd::prelude::*;
use crate::error::{WzError, WzErrorKind};

verus! {

pub open spec fn le_u16(d: Seq<u8>, p: int) -> u16 {
    (d[p] as int + d[p + 1] as int * 0x100) as u16
}

pub open spec fn le_u32(d: Seq<u8>, p: int) -> u32 {
    (d[p] as int + d[p + 1] as int * 0x100 + d[p + 2] as int * 0x1_0000 + d[p + 3] as int
        * 0x100_0000) as u32
}

pub open spec fn le_u64(d: Seq<u8>, p: int) -> u64 {
    (le_u32(d, p) as int + le_u32(d, p + 4) as int * 0x1_0000_0000) as u64
}

/// The two's complement reading of an unsigned 32-bit word.
pub open spec fn signed32(u: u32) -> i32 {
    if u < 0x8000_0000 {
        u as i32
    } else {
        (u as int - 0x1_0000_0000) as i32
    }
}

pub open spec fn signed64(u: u64) -> i64 {
    if u < 0x8000_0000_0000_0000 {
        u as i64
    } else {
        (u as int - 0x1_0000_0000_0000_0000) as i64
    }
}

pub open spec fn signed8(b: u8) -> int {
    if b < 128 {
        b as int
    } else {
        b as int - 256
    }
}

/// The little-endian bytes of a 32-bit word.
pub open spec fn u32_bytes(u: u32) -> Seq<u8> {
    seq![(u % 0x100) as u8, ((u / 0x100) % 0x100) as u8, ((u / 0x1_0000) % 0x100) as u8, (u / 0x100_0000) as u8]
}

pub open spec fn u64_bytes(u: u64) -> Seq<u8> {
    u32_bytes((u % 0x1_0000_0000) as u32) + u32_bytes((u / 0x1_0000_0000) as u32)
}

pub open spec fn u16_bytes(u: u16) -> Seq<u8> {
    seq![(u % 0x100) as u8, (u / 0x100) as u8]
}

/// The two's complement word of a signed value.
pub open spec fn unsigned32(v: i32) -> u32 {
    if v >= 0 {
        v as u32
    } else {
        (v + 0x1_0000_0000) as u32
    }
}

pub open spec fn unsigned64(v: i64) -> u64 {
    if v >= 0 {
        v as u64
    } else {
        (v + 0x1_0000_0000_0000_0000) as u64
    }
}

pub proof fn lemma_u32_bytes(u: u32, rest: Seq<u8>, pre: Seq<u8>)
    ensures
        le_u32(pre + u32_bytes(u) + rest, pre.len() as int) == u,
{
    let d = pre + u32_bytes(u) + rest;
    let p = pre.len() as int;
    assert(d[p] == u32_bytes(u)[0]);
    assert(d[p + 1] == u32_bytes(u)[1]);
    assert(d[p + 2] == u32_bytes(u)[2]);
    assert(d[p + 3] == u32_bytes(u)[3]);
}

pub proof fn lemma_u64_bytes(u: u64, rest: Seq<u8>, pre: Seq<u8>)
    ensures
        le_u64(pre + u64_bytes(u) + rest, pre.len() as int) == u,
{
    let lo = (u % 0x1_0000_0000) as u32;
    let hi = (u / 0x1_0000_0000) as u32;
    assert(pre + u64_bytes(u) + rest == pre + u32_bytes(lo) + (u32_bytes(hi) + rest));
    lemma_u32_bytes(lo, u32_bytes(hi) + rest, pre);
    assert(pre + u64_bytes(u) + rest == (pre + u32_bytes(lo)) + u32_bytes(hi) + rest);
    lemma_u32_bytes(hi, rest, pre + u32_bytes(lo));
}

pub proof fn lemma_signed32(v: i32)
    ensures
        signed32(unsigned32(v)) == v,
{
}

pub proof fn lemma_signed64(v: i64)
    ensures
        signed64(unsigned64(v)) == v,
{
}

pub fn read_u8(d: &[u8], pos: usize) -> (r: Result<u8, WzError>)
    ensures
        d@.len() <= usize::MAX,
        match r {
            Ok(v) => pos < d@.len() && v == d@[pos as int],
            Err(e) => pos >= d@.len() && e.kind == WzErrorKind::IO,
        },
{
    if pos < d.len() {
        Ok(d[pos])
    } else {
        Err(WzError::new(WzErrorKind::IO, pos))
    }
}

pub fn read_u16(d: &[u8], pos: usize) -> (r: Result<u16, WzError>)
    ensures
        d@.len() <= usize::MAX,
        match r {
            Ok(v) => pos + 2 <= d@.len() && v == le_u16(d@, pos as int),
            Err(e) => pos + 2 > d@.len() && e.kind == WzErrorKind::IO,
        },
{
    if pos <= d.len() && d.len() - pos >= 2 {
        Ok(d[pos] as u16 + d[pos + 1] as u16 * 0x100)
    } else {
        Err(WzError::new(WzErrorKind::IO, pos))
    }
}

pub fn read_u32(d: &[u8], pos: usize) -> (r: Result<u32, WzError>)
    ensures
        d@.len() <= usize::MAX,
        match r {
            Ok(v) => pos + 4 <= d@.len() && v == le_u32(d@, pos as int),
            Err(e) => pos + 4 > d@.len() && e.kind == WzErrorKind::IO,
        },
{
    if pos <= d.len() && d.len() - pos >= 4 {
        Ok(d[pos] as u32 + d[pos + 1] as u32 * 0x100 + d[pos + 2] as u32 * 0x1_0000 + d[pos + 3] as u32
            * 0x100_0000)
    } else {
        Err(WzError::new(WzErrorKind::IO, pos))
    }
}

pub fn read_u64(d: &[u8], pos: usize) -> (r: Result<u64, WzError>)
    ensures
        d@.len() <= usize::MAX,
        match r {
            Ok(v) => pos + 8 <= d@.len() && v == le_u64(d@, pos as int),
            Err(e) => pos + 8 > d@.len() && e.kind == WzErrorKind::IO,
        },
{
    if pos <= d.len() && d.len() - pos >= 8 {
        let lo = read_u32(d, pos)?;
        let hi = read_u32(d, pos + 4)?;
        Ok(lo as u64 + hi as u64 * 0x1_0000_0000)
    } else {
        Err(WzError::new(WzErrorKind::IO, pos))
    }
}

pub fn to_signed32(u: u32) -> (r: i32)
    ensures
        r == signed32(u),
{
    if u < 0x8000_0000 {
        u as i32
    } else {
        (u as i64 - 0x1_0000_0000) as i32
    }
}

pub fn to_signed64(u: u64) -> (r: i64)
    ensures
        r == signed64(u),
{
    if u < 0x8000_0000_0000_0000 {
        u as i64
    } else {
        let m = (!u) as i64;
        assert(m == 0xffff_ffff_ffff_ffffu64 - u) by (bit_vector)
            requires
                m == (!u) as i64,
                u >= 0x8000_0000_0000_0000u64,
        ;
        -m - 1
    }
}

pub fn to_unsigned32(v: i32) -> (r: u32)
    ensures
        r == unsigned32(v),
{
    if v >= 0 {
        v as u32
    } else {
        (v as i64 + 0x1_0000_0000) as u32
    }
}

pub fn to_unsigned64(v: i64) -> (r: u64)
    ensures
        r == unsigned64(v),
{
    if v >= 0 {
        v as u64
    } else {
        let m = (-(v + 1)) as u64;
        let r = !m;
        assert(r == 0xffff_ffff_ffff_ffffu64 - m) by (bit_vector)
            requires
                r == !m,
        ;
        r
    }
}

pub fn push_u16(out: &mut Vec<u8>, u: u16)
    ensures
        final(out)@ == old(out)@ + u16_bytes(u),
{
    out.push((u % 0x100) as u8);
    out.push((u / 0x100) as u8);
    assert(final(out)@ =~= old(out)@ + u16_bytes(u));
}

pub fn push_u32(out: &mut Vec<u8>, u: u32)
    ensures
        final(out)@ == old(out)@ + u32_bytes(u),
{
    out.push((u % 0x100) as u8);
    out.push(((u / 0x100) % 0x100) as u8);
    out.push(((u / 0x1_0000) % 0x100) as u8);
    out.push((u / 0x100_0000) as u8);
    assert(final(out)@ =~= old(out)@ + u32_bytes(u));
}

pub fn push_u64(out: &mut Vec<u8>, u: u64)
    ensures
        final(out)@ == old(out)@ + u64_bytes(u),
{
    push_u32(out, (u % 0x1_0000_0000) as u32);
    push_u32(out, (u / 0x1_0000_0000) as u32);
    assert(final(out)@ =~= old(out)@ + u64_bytes(u));
}

} // verus!
