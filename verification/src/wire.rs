//! Little-endian integers on the wire: what a run of bytes means as a number,
//! and the bytes that a number is written as.

use vstd::prelude::*;
use crate::error::{FrameError, Field};

verus! {

/// Whether `n` bytes starting at `at` lie inside `s`.
pub open spec fn fits(s: Seq<u8>, at: int, n: int) -> bool {
    0 <= at && 0 <= n && at + n <= s.len()
}

/// The 16-bit number whose little-endian bytes stand at `at`.
pub open spec fn u16_at(s: Seq<u8>, at: int) -> u16 {
    (s[at] as int + 256 * (s[at + 1] as int)) as u16
}

/// The 32-bit number whose little-endian bytes stand at `at`.
pub open spec fn u32_at(s: Seq<u8>, at: int) -> u32 {
    (s[at] as int + 256 * (s[at + 1] as int) + 65536 * (s[at + 2] as int) + 16777216 * (s[at
        + 3] as int)) as u32
}

/// The 64-bit number whose little-endian bytes stand at `at`.
pub open spec fn u64_at(s: Seq<u8>, at: int) -> u64 {
    (u32_at(s, at) as int + 4294967296 * (u32_at(s, at + 4) as int)) as u64
}

/// The four bytes that `x` is written as, lowest first.
pub open spec fn u32_bytes(x: u32) -> Seq<u8> {
    seq![
        (x % 256) as u8,
        (x / 256 % 256) as u8,
        (x / 65536 % 256) as u8,
        (x / 16777216) as u8,
    ]
}

/// The unsigned number with the same 32 bits as `x` in two's complement.
pub open spec fn i32_bits(x: i32) -> u32 {
    if x >= 0 {
        x as u32
    } else {
        (x + 4294967296) as u32
    }
}

/// Reading back what `u32_bytes` wrote gives the number again.
pub proof fn lemma_u32_bytes_read_back(x: u32, tail: Seq<u8>)
    ensures
        u32_bytes(x).len() == 4,
        u32_at(u32_bytes(x) + tail, 0) == x,
{
    let s = u32_bytes(x) + tail;
    assert(s[0] == u32_bytes(x)[0]);
    assert(s[1] == u32_bytes(x)[1]);
    assert(s[2] == u32_bytes(x)[2]);
    assert(s[3] == u32_bytes(x)[3]);
}

/// Reads one byte at `at`, or reports `field` as cut short.
pub fn read_u8(data: &[u8], at: usize, field: Field) -> (r: Result<u8, FrameError>)
    ensures
        r == (if fits(data@, at as int, 1) {
            Ok::<u8, FrameError>(data@[at as int])
        } else {
            Err(FrameError::Incomplete(field))
        }),
{
    if at < data.len() {
        Ok(data[at])
    } else {
        Err(FrameError::Incomplete(field))
    }
}

/// Reads a little-endian `u16` at `at`, or reports `field` as cut short.
pub fn read_u16(data: &[u8], at: usize, field: Field) -> (r: Result<u16, FrameError>)
    ensures
        r == (if fits(data@, at as int, 2) {
            Ok::<u16, FrameError>(u16_at(data@, at as int))
        } else {
            Err(FrameError::Incomplete(field))
        }),
{
    if at <= data.len() && data.len() - at >= 2 {
        let b0: u16 = data[at] as u16;
        let b1: u16 = data[at + 1] as u16;
        Ok(b0 + 256 * b1)
    } else {
        Err(FrameError::Incomplete(field))
    }
}

/// Reads a little-endian `u32` at `at`, or reports `field` as cut short.
pub fn read_u32(data: &[u8], at: usize, field: Field) -> (r: Result<u32, FrameError>)
    ensures
        r == (if fits(data@, at as int, 4) {
            Ok::<u32, FrameError>(u32_at(data@, at as int))
        } else {
            Err(FrameError::Incomplete(field))
        }),
{
    if at <= data.len() && data.len() - at >= 4 {
        let b0: u32 = data[at] as u32;
        let b1: u32 = data[at + 1] as u32;
        let b2: u32 = data[at + 2] as u32;
        let b3: u32 = data[at + 3] as u32;
        Ok(b0 + 256 * b1 + 65536 * b2 + 16777216 * b3)
    } else {
        Err(FrameError::Incomplete(field))
    }
}

/// Reads a little-endian `u64` at `at`, or reports `field` as cut short.
pub fn read_u64(data: &[u8], at: usize, field: Field) -> (r: Result<u64, FrameError>)
    ensures
        r == (if fits(data@, at as int, 8) {
            Ok::<u64, FrameError>(u64_at(data@, at as int))
        } else {
            Err(FrameError::Incomplete(field))
        }),
{
    if at <= data.len() && data.len() - at >= 8 {
        let lo: u32 = read_u32(data, at, field)?;
        let hi: u32 = read_u32(data, at + 4, field)?;
        Ok(lo as u64 + 4294967296 * (hi as u64))
    } else {
        Err(FrameError::Incomplete(field))
    }
}

/// Copies `n` bytes starting at `at` into a vector of their own, or reports
/// `field` as cut short. Nothing is allocated unless the bytes are there.
pub fn read_bytes(data: &[u8], at: usize, n: usize, field: Field) -> (r: Result<
    Vec<u8>,
    FrameError,
>)
    ensures
        match r {
            Ok(v) => fits(data@, at as int, n as int) && v@ == data@.subrange(
                at as int,
                at + n,
            ),
            Err(e) => !fits(data@, at as int, n as int) && e == FrameError::Incomplete(field),
        },
{
    if at <= data.len() && data.len() - at >= n {
        let len: usize = data.len();
        let mut out: Vec<u8> = Vec::with_capacity(n);
        let mut i: usize = 0;
        while i < n
            invariant
                i <= n,
                at + n <= data@.len(),
                data@.len() == len,
                out@ == data@.subrange(at as int, at + i),
            decreases n - i,
        {
            out.push(data[at + i]);
            i += 1;
        }
        Ok(out)
    } else {
        Err(FrameError::Incomplete(field))
    }
}

/// Appends the four little-endian bytes of `x` to `out`.
pub fn write_u32(out: &mut Vec<u8>, x: u32)
    ensures
        final(out)@ == old(out)@ + u32_bytes(x),
{
    out.push((x % 256) as u8);
    out.push((x / 256 % 256) as u8);
    out.push((x / 65536 % 256) as u8);
    out.push((x / 16777216) as u8);
}

/// Appends the four little-endian bytes of `x`, in two's complement, to `out`.
pub fn write_i32(out: &mut Vec<u8>, x: i32)
    ensures
        final(out)@ == old(out)@ + u32_bytes(i32_bits(x)),
{
    let bits: u32 = if x >= 0 {
        x as u32
    } else {
        (x as i64 + 4294967296) as u32
    };
    write_u32(out, bits);
}

/// Appends all of `bytes` to `out`.
pub fn write_bytes(out: &mut Vec<u8>, bytes: &[u8])
    ensures
        final(out)@ == old(out)@ + bytes@,
{
    let mut i: usize = 0;
    while i < bytes.len()
        invariant
            i <= bytes@.len(),
            out@ == old(out)@ + bytes@.subrange(0, i as int),
        decreases bytes@.len() - i,
    {
        out.push(bytes[i]);
        i += 1;
    }
    assert(bytes@.subrange(0, i as int) == bytes@);
}

} // verus!
