use vstd::prelude::*;
use crate::byte_stream::{read_i16, read_u16, read_u32, read_u8};
use crate::errors::DecodeError;

verus! {

/// Relies on `String::push`: appends the given character to the end of
/// the string.
pub assume_specification[ std::string::String::push ](s: &mut String, ch: char)
    ensures
        final(s)@ == old(s)@.push(ch),
;

/// The fixed code page 866 byte-to-character table.  Bytes below 0x80 are
/// ASCII; the upper half holds the Cyrillic letters, box-drawing glyphs
/// and signs of the IBM PC Cyrillic code page, entry for entry.
pub open spec fn cp866_char(b: u8) -> char {
    if b < 0x80 {
        b as char
    } else {
        match b {
        0x80 => '\u{410}',
        0x81 => '\u{411}',
        0x82 => '\u{412}',
        0x83 => '\u{413}',
        0x84 => '\u{414}',
        0x85 => '\u{415}',
        0x86 => '\u{416}',
        0x87 => '\u{417}',
        0x88 => '\u{418}',
        0x89 => '\u{419}',
        0x8A => '\u{41A}',
        0x8B => '\u{41B}',
        0x8C => '\u{41C}',
        0x8D => '\u{41D}',
        0x8E => '\u{41E}',
        0x8F => '\u{41F}',
        0x90 => '\u{420}',
        0x91 => '\u{421}',
        0x92 => '\u{422}',
        0x93 => '\u{423}',
        0x94 => '\u{424}',
        0x95 => '\u{425}',
        0x96 => '\u{426}',
        0x97 => '\u{427}',
        0x98 => '\u{428}',
        0x99 => '\u{429}',
        0x9A => '\u{42A}',
        0x9B => '\u{42B}',
        0x9C => '\u{42C}',
        0x9D => '\u{42D}',
        0x9E => '\u{42E}',
        0x9F => '\u{42F}',
        0xA0 => '\u{430}',
        0xA1 => '\u{431}',
        0xA2 => '\u{432}',
        0xA3 => '\u{433}',
        0xA4 => '\u{434}',
        0xA5 => '\u{435}',
        0xA6 => '\u{436}',
        0xA7 => '\u{437}',
        0xA8 => '\u{438}',
        0xA9 => '\u{439}',
        0xAA => '\u{43A}',
        0xAB => '\u{43B}',
        0xAC => '\u{43C}',
        0xAD => '\u{43D}',
        0xAE => '\u{43E}',
        0xAF => '\u{43F}',
        0xB0 => '\u{2591}',
        0xB1 => '\u{2592}',
        0xB2 => '\u{2593}',
        0xB3 => '\u{2502}',
        0xB4 => '\u{2524}',
        0xB5 => '\u{2561}',
        0xB6 => '\u{2562}',
        0xB7 => '\u{2556}',
        0xB8 => '\u{2555}',
        0xB9 => '\u{2563}',
        0xBA => '\u{2551}',
        0xBB => '\u{2557}',
        0xBC => '\u{255D}',
        0xBD => '\u{255C}',
        0xBE => '\u{255B}',
        0xBF => '\u{2510}',
        0xC0 => '\u{2514}',
        0xC1 => '\u{2534}',
        0xC2 => '\u{252C}',
        0xC3 => '\u{251C}',
        0xC4 => '\u{2500}',
        0xC5 => '\u{253C}',
        0xC6 => '\u{255E}',
        0xC7 => '\u{255F}',
        0xC8 => '\u{255A}',
        0xC9 => '\u{2554}',
        0xCA => '\u{2569}',
        0xCB => '\u{2566}',
        0xCC => '\u{2560}',
        0xCD => '\u{2550}',
        0xCE => '\u{256C}',
        0xCF => '\u{2567}',
        0xD0 => '\u{2568}',
        0xD1 => '\u{2564}',
        0xD2 => '\u{2565}',
        0xD3 => '\u{2559}',
        0xD4 => '\u{2558}',
        0xD5 => '\u{2552}',
        0xD6 => '\u{2553}',
        0xD7 => '\u{256B}',
        0xD8 => '\u{256A}',
        0xD9 => '\u{2518}',
        0xDA => '\u{250C}',
        0xDB => '\u{2588}',
        0xDC => '\u{2584}',
        0xDD => '\u{258C}',
        0xDE => '\u{2590}',
        0xDF => '\u{2580}',
        0xE0 => '\u{440}',
        0xE1 => '\u{441}',
        0xE2 => '\u{442}',
        0xE3 => '\u{443}',
        0xE4 => '\u{444}',
        0xE5 => '\u{445}',
        0xE6 => '\u{446}',
        0xE7 => '\u{447}',
        0xE8 => '\u{448}',
        0xE9 => '\u{449}',
        0xEA => '\u{44A}',
        0xEB => '\u{44B}',
        0xEC => '\u{44C}',
        0xED => '\u{44D}',
        0xEE => '\u{44E}',
        0xEF => '\u{44F}',
        0xF0 => '\u{401}',
        0xF1 => '\u{451}',
        0xF2 => '\u{404}',
        0xF3 => '\u{454}',
        0xF4 => '\u{407}',
        0xF5 => '\u{457}',
        0xF6 => '\u{40E}',
        0xF7 => '\u{45E}',
        0xF8 => '\u{B0}',
        0xF9 => '\u{2219}',
        0xFA => '\u{B7}',
        0xFB => '\u{221A}',
        0xFC => '\u{2116}',
        0xFD => '\u{A4}',
        0xFE => '\u{25A0}',
        0xFF => '\u{A0}',
            _ => ' ',
        }
    }
}

/// The decoded text of a byte buffer under code page 866.
pub open spec fn cp866_decoded(b: Seq<u8>) -> Seq<char> {
    Seq::new(b.len(), |i: int| cp866_char(b[i]))
}

/// Decodes a whole byte buffer under code page 866.
#[verifier::loop_isolation(false)]
pub fn decode_cp866(bytes: &Vec<u8>) -> (r: String)
    ensures
        r@ == cp866_decoded(bytes@),
{
    let mut out = String::new();
    let mut i: usize = 0;
    while i < bytes.len()
        invariant
            i <= bytes@.len(),
            out@.len() == i,
            forall|j: int| 0 <= j < i ==> out@[j] == cp866_char(bytes@[j]),
        decreases bytes@.len() - i,
    {
        let b = bytes[i];
        let ch: char = if b < 0x80 {
            b as char
        } else {
            cp866_high(b)
        };
        out.push(ch);
        i = i + 1;
    }
    proof {
        assert(out@ =~= cp866_decoded(bytes@));
    }
    out
}

/// The upper-half table entry for one byte.
pub fn cp866_high(b: u8) -> (r: char)
    requires
        b >= 0x80,
    ensures
        r == cp866_char(b),
{
    match b {
        0x80 => '\u{410}',
        0x81 => '\u{411}',
        0x82 => '\u{412}',
        0x83 => '\u{413}',
        0x84 => '\u{414}',
        0x85 => '\u{415}',
        0x86 => '\u{416}',
        0x87 => '\u{417}',
        0x88 => '\u{418}',
        0x89 => '\u{419}',
        0x8A => '\u{41A}',
        0x8B => '\u{41B}',
        0x8C => '\u{41C}',
        0x8D => '\u{41D}',
        0x8E => '\u{41E}',
        0x8F => '\u{41F}',
        0x90 => '\u{420}',
        0x91 => '\u{421}',
        0x92 => '\u{422}',
        0x93 => '\u{423}',
        0x94 => '\u{424}',
        0x95 => '\u{425}',
        0x96 => '\u{426}',
        0x97 => '\u{427}',
        0x98 => '\u{428}',
        0x99 => '\u{429}',
        0x9A => '\u{42A}',
        0x9B => '\u{42B}',
        0x9C => '\u{42C}',
        0x9D => '\u{42D}',
        0x9E => '\u{42E}',
        0x9F => '\u{42F}',
        0xA0 => '\u{430}',
        0xA1 => '\u{431}',
        0xA2 => '\u{432}',
        0xA3 => '\u{433}',
        0xA4 => '\u{434}',
        0xA5 => '\u{435}',
        0xA6 => '\u{436}',
        0xA7 => '\u{437}',
        0xA8 => '\u{438}',
        0xA9 => '\u{439}',
        0xAA => '\u{43A}',
        0xAB => '\u{43B}',
        0xAC => '\u{43C}',
        0xAD => '\u{43D}',
        0xAE => '\u{43E}',
        0xAF => '\u{43F}',
        0xB0 => '\u{2591}',
        0xB1 => '\u{2592}',
        0xB2 => '\u{2593}',
        0xB3 => '\u{2502}',
        0xB4 => '\u{2524}',
        0xB5 => '\u{2561}',
        0xB6 => '\u{2562}',
        0xB7 => '\u{2556}',
        0xB8 => '\u{2555}',
        0xB9 => '\u{2563}',
        0xBA => '\u{2551}',
        0xBB => '\u{2557}',
        0xBC => '\u{255D}',
        0xBD => '\u{255C}',
        0xBE => '\u{255B}',
        0xBF => '\u{2510}',
        0xC0 => '\u{2514}',
        0xC1 => '\u{2534}',
        0xC2 => '\u{252C}',
        0xC3 => '\u{251C}',
        0xC4 => '\u{2500}',
        0xC5 => '\u{253C}',
        0xC6 => '\u{255E}',
        0xC7 => '\u{255F}',
        0xC8 => '\u{255A}',
        0xC9 => '\u{2554}',
        0xCA => '\u{2569}',
        0xCB => '\u{2566}',
        0xCC => '\u{2560}',
        0xCD => '\u{2550}',
        0xCE => '\u{256C}',
        0xCF => '\u{2567}',
        0xD0 => '\u{2568}',
        0xD1 => '\u{2564}',
        0xD2 => '\u{2565}',
        0xD3 => '\u{2559}',
        0xD4 => '\u{2558}',
        0xD5 => '\u{2552}',
        0xD6 => '\u{2553}',
        0xD7 => '\u{256B}',
        0xD8 => '\u{256A}',
        0xD9 => '\u{2518}',
        0xDA => '\u{250C}',
        0xDB => '\u{2588}',
        0xDC => '\u{2584}',
        0xDD => '\u{258C}',
        0xDE => '\u{2590}',
        0xDF => '\u{2580}',
        0xE0 => '\u{440}',
        0xE1 => '\u{441}',
        0xE2 => '\u{442}',
        0xE3 => '\u{443}',
        0xE4 => '\u{444}',
        0xE5 => '\u{445}',
        0xE6 => '\u{446}',
        0xE7 => '\u{447}',
        0xE8 => '\u{448}',
        0xE9 => '\u{449}',
        0xEA => '\u{44A}',
        0xEB => '\u{44B}',
        0xEC => '\u{44C}',
        0xED => '\u{44D}',
        0xEE => '\u{44E}',
        0xEF => '\u{44F}',
        0xF0 => '\u{401}',
        0xF1 => '\u{451}',
        0xF2 => '\u{404}',
        0xF3 => '\u{454}',
        0xF4 => '\u{407}',
        0xF5 => '\u{457}',
        0xF6 => '\u{40E}',
        0xF7 => '\u{45E}',
        0xF8 => '\u{B0}',
        0xF9 => '\u{2219}',
        0xFA => '\u{B7}',
        0xFB => '\u{221A}',
        0xFC => '\u{2116}',
        0xFD => '\u{A4}',
        0xFE => '\u{25A0}',
        0xFF => '\u{A0}',
        _ => ' ',
    }
}

/// Index of the first zero byte at or after `pos` (or the end of the
/// buffer if none): these formats store names as zero-terminated byte
/// strings.
pub open spec fn spec_nul_end(b: Seq<u8>, pos: int) -> int
    decreases b.len() - pos,
{
    if pos < 0 || pos >= b.len() {
        b.len() as int
    } else if b[pos] == 0 {
        pos
    } else {
        spec_nul_end(b, pos + 1)
    }
}

/// A zero-terminated string decoded under code page 866.  `name` holds the
/// decoded characters; the read consumes the terminator too.
#[derive(Clone, PartialEq, Debug)]
pub struct CP866String(pub String);

impl CP866String {
    /// Reads a zero-terminated name and decodes it.  A name running to the
    /// end of the input without a terminator is malformed.
    #[verifier::loop_isolation(false)]
    pub fn read_from_stream(bytes: &Vec<u8>, pos: &mut usize) -> (r: Result<
        CP866String,
        DecodeError,
    >)
        requires
            *old(pos) <= bytes@.len(),
        ensures
            match r {
                Ok(s) => {
                    let e = spec_nul_end(bytes@, *old(pos) as int);
                    &&& e < bytes@.len()
                    &&& s.0@ == cp866_decoded(bytes@.subrange(*old(pos) as int, e))
                    &&& *final(pos) == e + 1
                },
                Err(err) => {
                    &&& err == DecodeError::UnexpectedEnd
                    &&& spec_nul_end(bytes@, *old(pos) as int) == bytes@.len()
                    &&& *final(pos) == *old(pos)
                },
            },
    {
        let start = *pos;
        let mut e = start;
        while e < bytes.len() && bytes[e] != 0
            invariant
                start <= e <= bytes@.len(),
                spec_nul_end(bytes@, e as int) == spec_nul_end(bytes@, start as int),
            decreases bytes@.len() - e,
        {
            e = e + 1;
        }
        if e >= bytes.len() {
            return Err(DecodeError::UnexpectedEnd);
        }
        let mut raw: Vec<u8> = Vec::new();
        let mut i = start;
        while i < e
            invariant
                start <= i <= e,
                e < bytes@.len(),
                raw@.len() == i - start,
                forall|j: int| 0 <= j < i - start ==> raw@[j] == bytes@[start + j],
            decreases e - i,
        {
            raw.push(bytes[i]);
            i = i + 1;
        }
        proof {
            assert(raw@ =~= bytes@.subrange(start as int, e as int));
        }
        *pos = e + 1;
        Ok(CP866String(decode_cp866(&raw)))
    }

    /// The decoded text.
    pub fn as_string(&self) -> (r: &String)
        ensures
            r == &self.0,
    {
        &self.0
    }
}

/// A little-endian 32-bit field.
#[derive(Clone, PartialEq, Debug)]
pub struct U32Wrapper(pub u32);

impl U32Wrapper {
    pub fn read_from_stream(bytes: &Vec<u8>, pos: &mut usize) -> (r: Result<
        U32Wrapper,
        DecodeError,
    >)
        ensures
            match r {
                Ok(v) => *old(pos) + 4 <= bytes@.len() && v.0 == crate::byte_stream::le32_at(
                    bytes@,
                    *old(pos) as int,
                ) && *final(pos) == *old(pos) + 4,
                Err(e) => e == DecodeError::UnexpectedEnd && *old(pos) + 4 > bytes@.len() && *final(pos) == *old(pos),
            },
    {
        let v = read_u32(bytes, pos)?;
        Ok(U32Wrapper(v))
    }
}

/// A little-endian 16-bit field.
#[derive(Clone, PartialEq, Debug)]
pub struct U16Wrapper(pub u16);

impl U16Wrapper {
    pub fn read_from_stream(bytes: &Vec<u8>, pos: &mut usize) -> (r: Result<
        U16Wrapper,
        DecodeError,
    >)
        ensures
            match r {
                Ok(v) => *old(pos) + 2 <= bytes@.len() && v.0 == crate::byte_stream::le16_at(
                    bytes@,
                    *old(pos) as int,
                ) && *final(pos) == *old(pos) + 2,
                Err(e) => e == DecodeError::UnexpectedEnd && *old(pos) + 2 > bytes@.len() && *final(pos) == *old(pos),
            },
    {
        let v = read_u16(bytes, pos)?;
        Ok(U16Wrapper(v))
    }
}

/// A little-endian signed 16-bit field.
#[derive(Clone, PartialEq, Debug)]
pub struct I16Wrapper(pub i16);

impl I16Wrapper {
    pub fn read_from_stream(bytes: &Vec<u8>, pos: &mut usize) -> (r: Result<
        I16Wrapper,
        DecodeError,
    >)
        ensures
            match r {
                Ok(v) => *old(pos) + 2 <= bytes@.len() && v.0 == (crate::byte_stream::le16_at(
                    bytes@,
                    *old(pos) as int,
                ) as u16) as i16 && *final(pos) == *old(pos) + 2,
                Err(e) => e == DecodeError::UnexpectedEnd && *old(pos) + 2 > bytes@.len() && *final(pos) == *old(pos),
            },
    {
        let v = read_i16(bytes, pos)?;
        Ok(I16Wrapper(v))
    }
}

/// A single byte field.
#[derive(Clone, PartialEq, Debug)]
pub struct U8Wrapper(pub u8);

impl U8Wrapper {
    pub fn read_from_stream(bytes: &Vec<u8>, pos: &mut usize) -> (r: Result<U8Wrapper, DecodeError>)
        ensures
            match r {
                Ok(v) => *old(pos) + 1 <= bytes@.len() && v.0 == bytes@[*old(pos) as int] && *final(pos) == *old(pos) + 1,
                Err(e) => e == DecodeError::UnexpectedEnd && *old(pos) + 1 > bytes@.len() && *final(pos) == *old(pos),
            },
    {
        let v = read_u8(bytes, pos)?;
        Ok(U8Wrapper(v))
    }
}

} // verus!
