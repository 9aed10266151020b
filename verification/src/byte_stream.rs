use vstd::prelude::*;
use crate::errors::DecodeError;

verus! {

/// Little-endian value of the two bytes at `pos`.
pub open spec fn le16_at(b: Seq<u8>, pos: int) -> int {
    b[pos] + 0x100 * b[pos + 1]
}

/// Little-endian value of the four bytes at `pos`.
pub open spec fn le32_at(b: Seq<u8>, pos: int) -> int {
    b[pos] + 0x100 * b[pos + 1] + 0x1_0000 * b[pos + 2] + 0x100_0000 * b[pos + 3]
}

/// Little-endian value of the eight bytes at `pos`.
pub open spec fn le64_at(b: Seq<u8>, pos: int) -> int {
    le32_at(b, pos) + 0x1_0000_0000 * le32_at(b, pos + 4)
}

/// Reads one byte and advances the cursor; fails without moving the cursor
/// when the input is exhausted.
pub fn read_u8(bytes: &Vec<u8>, pos: &mut usize) -> (r: Result<u8, DecodeError>)
    ensures
        match r {
            Ok(v) => {
                &&& *old(pos) + 1 <= bytes@.len()
                &&& v == bytes@[*old(pos) as int]
                &&& *final(pos) == *old(pos) + 1
            },
            Err(e) => {
                &&& e == DecodeError::UnexpectedEnd
                &&& *old(pos) + 1 > bytes@.len()
                &&& *final(pos) == *old(pos)
            },
        },
{
    if *pos < bytes.len() {
        let v = bytes[*pos];
        *pos = *pos + 1;
        Ok(v)
    } else {
        Err(DecodeError::UnexpectedEnd)
    }
}

/// Reads one byte without advancing the cursor.
pub fn look_ahead(bytes: &Vec<u8>, pos: &usize) -> (r: Result<u8, DecodeError>)
    ensures
        match r {
            Ok(v) => *pos + 1 <= bytes@.len() && v == bytes@[*pos as int],
            Err(e) => e == DecodeError::UnexpectedEnd && *pos + 1 > bytes@.len(),
        },
{
    if *pos < bytes.len() {
        Ok(bytes[*pos])
    } else {
        Err(DecodeError::UnexpectedEnd)
    }
}

/// Reads a little-endian `u16` and advances the cursor by two.
pub fn read_u16(bytes: &Vec<u8>, pos: &mut usize) -> (r: Result<u16, DecodeError>)
    ensures
        match r {
            Ok(v) => {
                &&& *old(pos) + 2 <= bytes@.len()
                &&& v == le16_at(bytes@, *old(pos) as int)
                &&& *final(pos) == *old(pos) + 2
            },
            Err(e) => {
                &&& e == DecodeError::UnexpectedEnd
                &&& *old(pos) + 2 > bytes@.len()
                &&& *final(pos) == *old(pos)
            },
        },
{
    let n = bytes.len();
    if n >= 2 && *pos <= n - 2 {
        let b0 = bytes[*pos] as u16;
        let b1 = bytes[*pos + 1] as u16;
        *pos = *pos + 2;
        Ok(b0 + 0x100 * b1)
    } else {
        Err(DecodeError::UnexpectedEnd)
    }
}

/// Reads a little-endian `i16` and advances the cursor by two.
pub fn read_i16(bytes: &Vec<u8>, pos: &mut usize) -> (r: Result<i16, DecodeError>)
    ensures
        match r {
            Ok(v) => {
                &&& *old(pos) + 2 <= bytes@.len()
                &&& v == (le16_at(bytes@, *old(pos) as int) as u16) as i16
                &&& *final(pos) == *old(pos) + 2
            },
            Err(e) => {
                &&& e == DecodeError::UnexpectedEnd
                &&& *old(pos) + 2 > bytes@.len()
                &&& *final(pos) == *old(pos)
            },
        },
{
    let v = read_u16(bytes, pos)?;
    Ok(v as i16)
}

/// Reads a little-endian `u32` and advances the cursor by four.
pub fn read_u32(bytes: &Vec<u8>, pos: &mut usize) -> (r: Result<u32, DecodeError>)
    ensures
        match r {
            Ok(v) => {
                &&& *old(pos) + 4 <= bytes@.len()
                &&& v == le32_at(bytes@, *old(pos) as int)
                &&& *final(pos) == *old(pos) + 4
            },
            Err(e) => {
                &&& e == DecodeError::UnexpectedEnd
                &&& *old(pos) + 4 > bytes@.len()
                &&& *final(pos) == *old(pos)
            },
        },
{
    let n = bytes.len();
    if n >= 4 && *pos <= n - 4 {
        let b0 = bytes[*pos] as u32;
        let b1 = bytes[*pos + 1] as u32;
        let b2 = bytes[*pos + 2] as u32;
        let b3 = bytes[*pos + 3] as u32;
        *pos = *pos + 4;
        Ok(b0 + 0x100 * b1 + 0x1_0000 * b2 + 0x100_0000 * b3)
    } else {
        Err(DecodeError::UnexpectedEnd)
    }
}

/// Reads a little-endian `i32` and advances the cursor by four.
pub fn read_i32(bytes: &Vec<u8>, pos: &mut usize) -> (r: Result<i32, DecodeError>)
    ensures
        match r {
            Ok(v) => {
                &&& *old(pos) + 4 <= bytes@.len()
                &&& v == (le32_at(bytes@, *old(pos) as int) as u32) as i32
                &&& *final(pos) == *old(pos) + 4
            },
            Err(e) => {
                &&& e == DecodeError::UnexpectedEnd
                &&& *old(pos) + 4 > bytes@.len()
                &&& *final(pos) == *old(pos)
            },
        },
{
    let v = read_u32(bytes, pos)?;
    Ok(v as i32)
}

/// Reads a little-endian `u64` and advances the cursor by eight.
pub fn read_u64(bytes: &Vec<u8>, pos: &mut usize) -> (r: Result<u64, DecodeError>)
    ensures
        match r {
            Ok(v) => {
                &&& *old(pos) + 8 <= bytes@.len()
                &&& v == le64_at(bytes@, *old(pos) as int)
                &&& *final(pos) == *old(pos) + 8
            },
            Err(e) => {
                &&& e == DecodeError::UnexpectedEnd
                &&& *old(pos) + 8 > bytes@.len()
                &&& *final(pos) == *old(pos)
            },
        },
{
    let n = bytes.len();
    if n >= 8 && *pos <= n - 8 {
        let lo = read_u32(bytes, pos)? as u64;
        let hi = read_u32(bytes, pos)? as u64;
        Ok(lo + 0x1_0000_0000 * hi)
    } else {
        Err(DecodeError::UnexpectedEnd)
    }
}

/// Copies `count` bytes out of the input, advancing the cursor by `count`.
pub fn read_exact(bytes: &Vec<u8>, pos: &mut usize, count: usize) -> (r: Result<
    Vec<u8>,
    DecodeError,
>)
    ensures
        match r {
            Ok(v) => {
                &&& *old(pos) + count <= bytes@.len()
                &&& v@ == bytes@.subrange(*old(pos) as int, *old(pos) + count)
                &&& *final(pos) == *old(pos) + count
            },
            Err(e) => {
                &&& e == DecodeError::UnexpectedEnd
                &&& *old(pos) + count > bytes@.len()
                &&& *final(pos) == *old(pos)
            },
        },
{
    let n = bytes.len();
    if count <= n && *pos <= n - count {
        let mut out: Vec<u8> = Vec::new();
        let mut i: usize = 0;
        while i < count
            invariant
                i <= count,
                *pos + count <= bytes@.len(),
                *pos + count <= usize::MAX,
                out@.len() == i,
                forall|j: int| 0 <= j < i ==> out@[j] == bytes@[*pos + j],
            decreases count - i,
        {
            out.push(bytes[*pos + i]);
            i = i + 1;
        }
        proof {
            assert(out@ =~= bytes@.subrange(*pos as int, *pos + count));
        }
        *pos = *pos + count;
        Ok(out)
    } else {
        Err(DecodeError::UnexpectedEnd)
    }
}

/// Skips `count` bytes; fails without moving when fewer remain.
pub fn skip_bytes(bytes: &Vec<u8>, pos: &mut usize, count: usize) -> (r: Result<(), DecodeError>)
    ensures
        match r {
            Ok(()) => *old(pos) + count <= bytes@.len() && *final(pos) == *old(pos) + count,
            Err(e) => {
                &&& e == DecodeError::UnexpectedEnd
                &&& *old(pos) + count > bytes@.len()
                &&& *final(pos) == *old(pos)
            },
        },
{
    let n = bytes.len();
    if count <= n && *pos <= n - count {
        *pos = *pos + count;
        Ok(())
    } else {
        Err(DecodeError::UnexpectedEnd)
    }
}

/// Reads a record-count word.
pub fn read_entry_count(bytes: &Vec<u8>, pos: &mut usize) -> (r: Result<u32, DecodeError>)
    ensures
        match r {
            Ok(v) => {
                &&& *old(pos) + 4 <= bytes@.len()
                &&& v == le32_at(bytes@, *old(pos) as int)
                &&& *final(pos) == *old(pos) + 4
            },
            Err(e) => {
                &&& e == DecodeError::UnexpectedEnd
                &&& *old(pos) + 4 > bytes@.len()
                &&& *final(pos) == *old(pos)
            },
        },
{
    read_u32(bytes, pos)
}

/// Reads a record-count word that the format stores one too high.  A stored
/// count of zero is malformed.
pub fn read_corrected_entry_count(bytes: &Vec<u8>, pos: &mut usize) -> (r: Result<
    u32,
    DecodeError,
>)
    ensures
        match r {
            Ok(v) => {
                &&& *old(pos) + 4 <= bytes@.len()
                &&& le32_at(bytes@, *old(pos) as int) >= 1
                &&& v == le32_at(bytes@, *old(pos) as int) - 1
                &&& *final(pos) == *old(pos) + 4
            },
            Err(e) => {
                &&& *final(pos) == *old(pos)
                &&& match e {
                    DecodeError::UnexpectedEnd => *old(pos) + 4 > bytes@.len(),
                    DecodeError::InvalidTag => *old(pos) + 4 <= bytes@.len() && le32_at(
                        bytes@,
                        *old(pos) as int,
                    ) == 0,
                    _ => false,
                }
            },
        },
{
    let mut p = *pos;
    let v = read_u32(bytes, &mut p)?;
    if v == 0 {
        return Err(DecodeError::InvalidTag);
    }
    *pos = p;
    Ok(v - 1)
}

} // verus!
