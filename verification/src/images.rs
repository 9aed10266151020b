use vstd::prelude::*;
use crate::byte_stream::{le16_at, le32_at, read_u16, read_u32};
use crate::errors::DecodeError;
use crate::smacker::{read_padded, spec_padded_slice};

verus! {


/// A buffer this loader recognizes as a BMP: the two magic bytes and info
/// header version 40.
pub open spec fn spec_bmp_recognized(b: Seq<u8>) -> bool {
    &&& b.len() >= 54
    &&& b[0] == 66
    &&& b[1] == 77
    &&& le32_at(b, 14) == 40
}

/// The stored pixel-data byte count: scanlines padded to four bytes,
/// times the absolute height.
pub open spec fn spec_bmp_data_size(b: Seq<u8>) -> int {
    let w = le32_at(b, 18);
    let bc = le16_at(b, 28);
    let h = (le32_at(b, 22) as u32) as i32;
    let habs = if h < 0 {
        -(h as int)
    } else {
        h as int
    };
    let ss = w * bc / 8;
    let rem = ss % 4;
    let pad = if rem == 0 {
        0int
    } else {
        4 - rem
    };
    (ss + pad) * habs
}

/// The fixed fields of a BMP info header (the underscore-named fields of
/// the stored layout are read and dropped).
#[derive(Clone, Copy, PartialEq, Eq, Structural, Debug)]
pub struct RawBmpHeader {
    pub width: u32,
    pub height: i32,
    pub bi_bit_count: u16,
}

impl RawBmpHeader {
    pub open spec fn parsed_at(self, b: Seq<u8>, pos: int) -> bool {
        &&& self.width == le32_at(b, pos)
        &&& self.height == (le32_at(b, pos + 4) as u32) as i32
        &&& self.bi_bit_count == le16_at(b, pos + 10)
    }
}

/// A raw BMP: its header, optional 256-entry palette and pixel data with
/// scanline padding still in place.
pub struct RawBmp {
    pub header: RawBmpHeader,
    pub palette: Option<Vec<u32>>,
    pub scanline_padding: usize,
    pub raw_data: Vec<u8>,
}

impl RawBmp {
    /// Parses a BMP byte buffer.  A missing magic word or an info header
    /// version other than 40 yields `None` (not an error); pixel data past
    /// the end of the buffer reads as zeroes.
    #[verifier::loop_isolation(false)]
    #[verifier::rlimit(60)]
    pub fn read_from(bytes: &Vec<u8>) -> (r: Result<Option<RawBmp>, DecodeError>)
        ensures
            match r {
                Ok(opt) => match opt {
                    Option::None => !spec_bmp_recognized(bytes@),
                    Option::Some(bmp) => {
                        &&& spec_bmp_recognized(bytes@)
                        &&& bytes@.len() >= 54
                        &&& bmp.header.parsed_at(bytes@, 18)
                        &&& bmp.raw_data@.len() == spec_bmp_data_size(bytes@)
                        &&& (bmp.palette is Some <==> bmp.header.bi_bit_count == 8)
                        &&& match bmp.palette {
                            Option::None => true,
                            Option::Some(p) => p@.len() == 256 && forall|i: int|
                                0 <= i < 256 ==> p@[i] == le32_at(bytes@, 54 + 4 * i)
                        }
                        &&& bmp.raw_data@ == spec_padded_slice(
                            bytes@,
                            le32_at(bytes@, 10),
                            bmp.raw_data@.len() as nat,
                        )
                    },
                },
                Err(e) => e == DecodeError::UnexpectedEnd || e == DecodeError::InvalidTag,
            },
    {
        if bytes.len() < 54 {
            return Err(DecodeError::UnexpectedEnd);
        }
        if bytes[0] != 66 || bytes[1] != 77 {
            return Ok(None);
        }
        let mut p: usize = 10;
        let bfh_pixel_data = read_u32(bytes, &mut p)?;
        let bi_version = read_u32(bytes, &mut p)?;
        if bi_version != 40 {
            return Ok(None);
        }
        let width = read_u32(bytes, &mut p)?;
        let height_raw = read_u32(bytes, &mut p)?;
        let height = height_raw as i32;
        let _planes = read_u16(bytes, &mut p)?;
        let bi_bit_count = read_u16(bytes, &mut p)?;
        let header = RawBmpHeader { width, height, bi_bit_count };
        let palette = if bi_bit_count == 8 {
            if bytes.len() < 54 + 1024 {
                return Err(DecodeError::UnexpectedEnd);
            }
            let mut arr: Vec<u32> = Vec::new();
            let mut i: usize = 0;
            let mut q: usize = 54;
            while i < 256
                invariant
                    i <= 256,
                    q == 54 + 4 * i,
                    54 + 1024 <= bytes@.len(),
                    arr@.len() == i,
                    forall|j: int| 0 <= j < i ==> arr@[j] == le32_at(bytes@, 54 + 4 * j),
                decreases 256 - i,
            {
                let w = match read_u32(bytes, &mut q) {
                    Ok(v) => v,
                    Err(_) => {
                        proof {
                            assert(false);
                        }
                        0
                    },
                };
                arr.push(w);
                i = i + 1;
            }
            Some(arr)
        } else {
            None
        };
        let habs64: u64 = if height < 0 {
            (-(height as i64)) as u64
        } else {
            height as u64
        };
        proof {
            assert(((width as u64) as int) * ((bi_bit_count as u64) as int) < 0x1_0000_0000
                * 0x1_0000) by (nonlinear_arith)
                requires
                    (width as u64) < 0x1_0000_0000,
                    (bi_bit_count as u64) < 0x1_0000,
            ;
        }
        let scanline_size64 = (width as u64) * (bi_bit_count as u64) / 8;
        let remainder = (scanline_size64 % 4) as u64;
        let scanline_padding64: u64 = if remainder == 0 {
            0
        } else {
            4 - remainder
        };
        let row64 = scanline_size64 + scanline_padding64;
        let data_size64 = match row64.checked_mul(habs64) {
            Some(v) => v,
            None => {
                return Err(DecodeError::InvalidTag);
            },
        };
        if data_size64 > (usize::MAX / 2) as u64 {
            return Err(DecodeError::InvalidTag);
        }
        let data_size = data_size64 as usize;
        let raw_data = read_padded(bytes, bfh_pixel_data as usize, data_size);
        Ok(
            Some(
                RawBmp {
                    header,
                    palette,
                    scanline_padding: scanline_padding64 as usize,
                    raw_data,
                },
            ),
        )
    }
}


/// The stored pixel byte at offset `i` of the pixel-data area (zero past
/// the end of the buffer, as the loader reads it).
pub open spec fn spec_bmp_byte(b: Seq<u8>, i: int) -> u8 {
    if 0 <= le32_at(b, 10) + i < b.len() {
        b[le32_at(b, 10) + i]
    } else {
        0u8
    }
}

/// A stored scanline's byte stride for 8-bit pixels.
pub open spec fn spec_bmp_row8(b: Seq<u8>) -> int {
    let w = le32_at(b, 18);
    let rem = w % 4;
    w + (if rem == 0 {
        0int
    } else {
        4 - rem
    })
}


/// Distinct (row, column) pairs land on distinct raster indices.
pub proof fn lemma_raster_index_distinct(a1: int, a2: int, c1: int, c2: int, w: int)
    requires
        a1 != a2,
        0 <= c1 < w,
        0 <= c2 < w,
    ensures
        a1 * w + c1 != a2 * w + c2,
{
    if a1 < a2 {
        assert(a1 * w + w <= a2 * w) by (nonlinear_arith)
            requires
                a1 + 1 <= a2,
                0 < w,
        ;
    } else {
        assert(a2 * w + w <= a1 * w) by (nonlinear_arith)
            requires
                a2 + 1 <= a1,
                0 < w,
        ;
    }
}

/// The gamma-like transform the sprite loader applies to one stored
/// palette word: channels doubled and clamped, green scaled back by
/// nine tenths, alpha forced opaque.
pub open spec fn spec_sprite_palette_color(clr: u32) -> u32 {
    let bch = clr % 0x100;
    let gch = (clr / 0x100) % 0x100;
    let rch = (clr / 0x1_0000) % 0x100;
    let b2 = if bch <= 127 {
        2 * bch
    } else {
        255
    };
    let g1 = if gch <= 127 {
        2 * gch
    } else {
        255
    };
    let g2 = (g1 * 900) / 1000;
    let r2 = if rch <= 127 {
        2 * rch
    } else {
        255
    };
    (0xFF00_0000 + r2 * 0x1_0000 + g2 * 0x100 + b2) as u32
}

/// A decoded sprite: palette-indexed, true color, or a format this loader
/// does not support.
pub enum BmpSprite {
    Paletted { width: usize, height: usize, palette: Vec<u32>, palette_indexes: Vec<u8> },
    TrueColor { width: usize, height: usize, colors: Vec<u32> },
    NotSupported,
}

impl BmpSprite {
    /// Decodes a sprite from BMP bytes.  Bottom-up (positive height)
    /// 8-bit images get their scanlines unpadded and flipped and their
    /// palette transformed; rows land so that output row `r` holds stored
    /// row `height - 1 - r`.  The other stored layouts keep the format's
    /// own pixel walk, with writes bounds-checked instead of aborting.
    #[verifier::loop_isolation(false)]
    #[verifier::rlimit(60)]
    pub fn read_from(bytes: &Vec<u8>) -> (r: Result<BmpSprite, DecodeError>)
        ensures
            match r {
                Ok(sp) => match sp {
                    BmpSprite::Paletted { width, height, palette, palette_indexes } => {
                        &&& spec_bmp_recognized(bytes@)
                        &&& le16_at(bytes@, 28) == 8
                        &&& palette@.len() == 256
                        &&& forall|i: int|
                            0 <= i < 256 ==> palette@[i] == spec_sprite_palette_color(
                                le32_at(bytes@, 54 + 4 * i) as u32,
                            )
                        &&& width == le32_at(bytes@, 18)
                        &&& ({
                            let h = (le32_at(bytes@, 22) as u32) as i32;
                            height == (if h < 0 {
                                -(h as int)
                            } else {
                                h as int
                            })
                        })
                        &&& palette_indexes@.len() == spec_bmp_data_size(bytes@)
                        &&& ((le32_at(bytes@, 22) as u32) as i32 > 0 ==> forall|rr: int, cc: int|
                            0 <= rr < height && 0 <= cc < width
                                ==> #[trigger] palette_indexes@[(height - 1 - rr) * width + cc]
                                == spec_bmp_byte(bytes@, rr * spec_bmp_row8(bytes@) + cc))
                    },
                    BmpSprite::TrueColor { width, height, colors } => {
                        &&& spec_bmp_recognized(bytes@)
                        &&& le16_at(bytes@, 28) == 24
                        &&& width == le32_at(bytes@, 18)
                        &&& ({
                            let h = (le32_at(bytes@, 22) as u32) as i32;
                            height == (if h < 0 {
                                -(h as int)
                            } else {
                                h as int
                            })
                        })
                        &&& colors@.len() == spec_bmp_data_size(bytes@) / 3
                        &&& forall|i: int|
                            0 <= i < colors@.len() ==> (#[trigger] colors@[i]) / 0x100_0000 == 0xFF
                    },
                    BmpSprite::NotSupported => !spec_bmp_recognized(bytes@) || (le16_at(bytes@, 28)
                        != 8 && le16_at(bytes@, 28) != 24),
                },
                Err(e) => e == DecodeError::UnexpectedEnd || e == DecodeError::InvalidTag,
            },
    {
        let raw_bmp = RawBmp::read_from(bytes)?;
        let bmp = match raw_bmp {
            None => {
                return Ok(BmpSprite::NotSupported);
            },
            Some(b) => b,
        };
        let upside_down = bmp.header.height > 0;
        let width = bmp.header.width as usize;
        let height: usize = if bmp.header.height < 0 {
            if bmp.header.height == i32::MIN {
                return Err(DecodeError::InvalidTag);
            }
            (-(bmp.header.height)) as usize
        } else {
            bmp.header.height as usize
        };
        if bmp.header.bi_bit_count == 8 {
            let mut palette_indexes: Vec<u8> = vec![0u8; bmp.raw_data.len()];
            let remainder = width % 4;
            let scanline_padding: usize = if remainder == 0 {
                0
            } else {
                4 - remainder
            };
            let row_len = match width.checked_add(scanline_padding) {
                Some(v) => v,
                None => {
                    return Err(DecodeError::InvalidTag);
                },
            };
            let ghost rl = row_len as int;
            let ghost wi = width as int;
            let ghost hi = height as int;
            let mut s_offset: usize = 0;
            let mut row: usize = 0;
            while row < height
                invariant
                    row <= height,
                    palette_indexes@.len() == bmp.raw_data@.len(),
                    s_offset == row * rl,
                    upside_down ==> forall|rr: int, cc: int|
                        0 <= rr < row && 0 <= cc < wi
                            ==> #[trigger] palette_indexes@[(hi - 1 - rr) * wi + cc]
                            == spec_bmp_byte(bytes@, rr * rl + cc),
                decreases height - row,
            {
                let d_row: usize = if upside_down {
                    height - 1 - row
                } else {
                    if row > usize::MAX / 2 {
                        return Err(DecodeError::InvalidTag);
                    }
                    2 * row
                };
                let mut c: usize = 0;
                while c < width
                    invariant
                        c <= width,
                        palette_indexes@.len() == bmp.raw_data@.len(),
                        s_offset == row * rl,
                        row < height,
                        d_row == (if upside_down {
                            hi - 1 - row
                        } else {
                            2 * (row as int)
                        }),
                        upside_down ==> forall|rr: int, cc: int|
                            0 <= rr < row && 0 <= cc < wi
                                ==> #[trigger] palette_indexes@[(hi - 1 - rr) * wi + cc]
                                == spec_bmp_byte(bytes@, rr * rl + cc),
                        upside_down ==> forall|cc: int|
                            0 <= cc < c ==> #[trigger] palette_indexes@[(hi - 1 - row) * wi + cc]
                                == spec_bmp_byte(bytes@, row * rl + cc),
                    decreases width - c,
                {
                    let src = match s_offset.checked_add(c) {
                        Some(v) => v,
                        None => {
                            return Err(DecodeError::InvalidTag);
                        },
                    };
                    let dst64 = match (d_row as u64).checked_mul(width as u64) {
                        Some(v) => v,
                        None => {
                            return Err(DecodeError::InvalidTag);
                        },
                    };
                    if dst64 > usize::MAX as u64 - c as u64 {
                        return Err(DecodeError::InvalidTag);
                    }
                    let dst = (dst64 as usize) + c;
                    if src >= bmp.raw_data.len() || dst >= palette_indexes.len() {
                        return Err(DecodeError::InvalidTag);
                    }
                    let v = bmp.raw_data[src];
                    let ghost idx0 = palette_indexes@;
                    proof {
                        if upside_down {
                            assert(row * rl + c < spec_bmp_data_size(bytes@)) by (nonlinear_arith)
                                requires
                                    0 <= row < hi,
                                    0 <= c < wi,
                                    wi <= rl,
                                    spec_bmp_data_size(bytes@) == rl * hi,
                            ;
                            assert(bmp.raw_data@[src as int] == spec_bmp_byte(
                                bytes@,
                                row * rl + c,
                            ));
                        }
                    }
                    palette_indexes[dst] = v;
                    proof {
                        if upside_down {
                            assert(dst == (hi - 1 - row) * wi + c);
                            assert forall|rr: int, cc: int|
                                0 <= rr < row && 0 <= cc < wi implies #[trigger] palette_indexes@[(
                            hi - 1 - rr) * wi + cc] == spec_bmp_byte(bytes@, rr * rl + cc) by {
                                lemma_raster_index_distinct(
                                    hi - 1 - rr,
                                    hi - 1 - (row as int),
                                    cc,
                                    c as int,
                                    wi,
                                );
                                assert((hi - 1 - rr) * wi + cc != dst);
                                assert(0 <= (hi - 1 - rr) * wi + cc < idx0.len())
                                    by (nonlinear_arith)
                                    requires
                                        0 <= rr < hi,
                                        0 <= cc < wi,
                                        wi <= rl,
                                        idx0.len() == rl * hi,
                                ;
                                assert(palette_indexes@[(hi - 1 - rr) * wi + cc] == idx0[(hi - 1
                                    - rr) * wi + cc]);
                            }
                            assert forall|cc: int|
                                0 <= cc < c + 1 implies #[trigger] palette_indexes@[(hi - 1 - row)
                                * wi + cc] == spec_bmp_byte(bytes@, row * rl + cc) by {
                                if cc < c {
                                    assert((hi - 1 - row) * wi + cc != dst);
                                    assert(0 <= (hi - 1 - row) * wi + cc < idx0.len())
                                        by (nonlinear_arith)
                                        requires
                                            0 <= row < hi,
                                            0 <= cc < wi,
                                            wi <= rl,
                                            idx0.len() == rl * hi,
                                    ;
                                    assert(palette_indexes@[(hi - 1 - row) * wi + cc] == idx0[(hi
                                        - 1 - row) * wi + cc]);
                                }
                            }
                        }
                    }
                    c = c + 1;
                }
                s_offset = match s_offset.checked_add(row_len) {
                    Some(v) => v,
                    None => {
                        return Err(DecodeError::InvalidTag);
                    },
                };
                proof {
                    assert((row + 1) * rl == row * rl + rl) by (nonlinear_arith);
                }
                row = row + 1;
            }
            let src_palette = match bmp.palette {
                Some(p) => p,
                None => {
                    return Err(DecodeError::InvalidTag);
                },
            };
            let mut palette: Vec<u32> = Vec::new();
            let mut i: usize = 0;
            while i < 256
                invariant
                    i <= 256,
                    src_palette@.len() == 256,
                    palette@.len() == i,
                    forall|j: int|
                        0 <= j < i ==> palette@[j] == spec_sprite_palette_color(src_palette@[j]),
                decreases 256 - i,
            {
                let clr = src_palette[i];
                let bch = clr % 0x100;
                let gch = (clr / 0x100) % 0x100;
                let rch = (clr / 0x1_0000) % 0x100;
                let b2 = if bch <= 127 {
                    2 * bch
                } else {
                    255
                };
                let g1 = if gch <= 127 {
                    2 * gch
                } else {
                    255
                };
                let g2 = (g1 * 900) / 1000;
                let r2 = if rch <= 127 {
                    2 * rch
                } else {
                    255
                };
                palette.push(0xFF00_0000 + r2 * 0x1_0000 + g2 * 0x100 + b2);
                i = i + 1;
            }
            Ok(BmpSprite::Paletted { width, height, palette, palette_indexes })
        } else if bmp.header.bi_bit_count == 24 {
            let mut colors: Vec<u32> = vec![0xFF00_0000u32; bmp.raw_data.len() / 3];
            let remainder = (width as u64 * 3 % 4) as usize;
            let scanline_padding: usize = if remainder == 0 {
                0
            } else {
                4 - remainder
            };
            let mut s_offset: usize = 0;
            let mut row: usize = 0;
            while row < height
                invariant
                    row <= height,
                    colors@.len() == bmp.raw_data@.len() / 3,
                    forall|i: int|
                        0 <= i < colors@.len() ==> (#[trigger] colors@[i]) / 0x100_0000 == 0xFF,
                decreases height - row,
            {
                let d_row: usize = if upside_down {
                    height - 1 - row
                } else {
                    if row > usize::MAX / 2 {
                        return Err(DecodeError::InvalidTag);
                    }
                    2 * row
                };
                let mut c: usize = 0;
                while c < width
                    invariant
                        c <= width,
                        colors@.len() == bmp.raw_data@.len() / 3,
                        forall|i: int|
                            0 <= i < colors@.len() ==> (#[trigger] colors@[i]) / 0x100_0000 == 0xFF,
                    decreases width - c,
                {
                    let dst64 = match (d_row as u64).checked_mul(width as u64) {
                        Some(v) => v,
                        None => {
                            return Err(DecodeError::InvalidTag);
                        },
                    };
                    if dst64 > usize::MAX as u64 - c as u64 {
                        return Err(DecodeError::InvalidTag);
                    }
                    let dst = (dst64 as usize) + c;
                    let c3 = match c.checked_mul(3) {
                        Some(v) => v,
                        None => {
                            return Err(DecodeError::InvalidTag);
                        },
                    };
                    let src = match s_offset.checked_add(c3) {
                        Some(v) => v,
                        None => {
                            return Err(DecodeError::InvalidTag);
                        },
                    };
                    if src >= bmp.raw_data.len() || bmp.raw_data.len() - src < 3 || dst
                        >= colors.len() {
                        return Err(DecodeError::InvalidTag);
                    }
                    let bch = bmp.raw_data[src] as u32;
                    let gch = bmp.raw_data[src + 1] as u32;
                    let rch = bmp.raw_data[src + 2] as u32;
                    colors[dst] = 0xFF00_0000 + rch * 0x1_0000 + gch * 0x100 + bch;
                    c = c + 1;
                }
                let w3 = match width.checked_mul(3) {
                    Some(v) => v,
                    None => {
                        return Err(DecodeError::InvalidTag);
                    },
                };
                let w3p = match w3.checked_add(scanline_padding) {
                    Some(v) => v,
                    None => {
                        return Err(DecodeError::InvalidTag);
                    },
                };
                s_offset = match s_offset.checked_add(w3p) {
                    Some(v) => v,
                    None => {
                        return Err(DecodeError::InvalidTag);
                    },
                };
                row = row + 1;
            }
            Ok(BmpSprite::TrueColor { width, height, colors })
        } else {
            Ok(BmpSprite::NotSupported)
        }
    }
}

/// One frame of an in-game sprite: its size and where its bytes lie in
/// the shared pixel buffer.
#[derive(Clone, Copy, PartialEq, Eq, Structural, Debug)]
pub struct ImageFrameData {
    pub width: u32,
    pub height: u32,
    pub range_start: usize,
    pub range_end: usize,
}

/// The pixel encoding of an in-game sprite file.
#[derive(Clone, Copy, PartialEq, Eq, Structural, Debug)]
pub enum ImageType {
    Dot256,
    Dot16,
    Dot16a,
}

/// A whole in-game sprite: its encoding, raw frame bytes and frame table.
pub struct ImageData {
    pub image_type: ImageType,
    pub raw: Vec<u8>,
    pub frames: Vec<ImageFrameData>,
}

/// The trailer word of a sprite file: the low bits count sprites, the top
/// bit marks an embedded palette.
pub fn read_sprite_count_info(bytes: &Vec<u8>) -> (r: Result<(u32, bool), DecodeError>)
    ensures
        match r {
            Ok((count, has_palette)) => {
                &&& bytes@.len() >= 4
                &&& count == (le32_at(bytes@, bytes@.len() - 4) as u32) & 0x7FFF_FFFF
                &&& has_palette == ((le32_at(bytes@, bytes@.len() - 4) as u32) & 0x8000_0000 != 0)
            },
            Err(e) => e == DecodeError::UnexpectedEnd && bytes@.len() < 4,
        },
{
    if bytes.len() < 4 {
        return Err(DecodeError::UnexpectedEnd);
    }
    let mut p = bytes.len() - 4;
    let w = read_u32(bytes, &mut p)?;
    Ok((w & 0x7FFF_FFFF, (w & 0x8000_0000) != 0))
}

/// Reads the embedded palette of a sprite file, when its encoding and
/// trailer say one is present.
#[verifier::loop_isolation(false)]
pub fn read_palette(bytes: &Vec<u8>, image_type: ImageType) -> (r: Result<
    Option<Vec<u32>>,
    DecodeError,
>)
    ensures
        match r {
            Ok(opt) => match opt {
                Option::Some(p) => p@.len() == 256 && forall|i: int|
                    0 <= i < 256 ==> p@[i] == le32_at(bytes@, 4 * i),
                Option::None => true,
            },
            Err(e) => e == DecodeError::UnexpectedEnd,
        },
{
    let (_, has_palette) = read_sprite_count_info(bytes)?;
    match image_type {
        ImageType::Dot16 => Ok(None),
        _ => {
            if !has_palette {
                return Ok(None);
            }
            if bytes.len() < 1024 {
                return Err(DecodeError::UnexpectedEnd);
            }
            let mut v: Vec<u32> = Vec::new();
            let mut i: usize = 0;
            let mut p: usize = 0;
            while i < 256
                invariant
                    i <= 256,
                    p == 4 * i,
                    1024 <= bytes@.len(),
                    v@.len() == i,
                    forall|j: int| 0 <= j < i ==> v@[j] == le32_at(bytes@, 4 * j),
                decreases 256 - i,
            {
                let w = match read_u32(bytes, &mut p) {
                    Ok(x) => x,
                    Err(_) => {
                        proof {
                            assert(false);
                        }
                        0
                    },
                };
                v.push(w);
                i = i + 1;
            }
            Ok(Some(v))
        },
    }
}

/// Reads the frame table and frame bytes of a sprite file: each frame is
/// a width, a height, a byte count and that many pixel bytes.
#[verifier::loop_isolation(false)]
pub fn read_image_frames(bytes: &Vec<u8>, pos: &mut usize, given_sprite_count: u32, image_type: ImageType)
    -> (r: Result<ImageData, DecodeError>)
    requires
        *old(pos) <= bytes@.len(),
    ensures
        match r {
            Ok(d) => d.frames@.len() == given_sprite_count,
            Err(e) => e == DecodeError::UnexpectedEnd,
        },
{
    let mut p = *pos;
    let mut raw: Vec<u8> = Vec::new();
    let mut frames: Vec<ImageFrameData> = Vec::new();
    let mut k: u32 = 0;
    while k < given_sprite_count
        invariant
            k <= given_sprite_count,
            p <= bytes@.len(),
            frames@.len() == k,
        decreases given_sprite_count - k,
    {
        let width = read_u32(bytes, &mut p)?;
        let height = read_u32(bytes, &mut p)?;
        let data_size = read_u32(bytes, &mut p)?;
        if (data_size as u64) > (bytes.len() - p) as u64 {
            return Err(DecodeError::UnexpectedEnd);
        }
        let sz = data_size as usize;
        let mut chunk = read_padded(bytes, p, sz);
        let range_start = raw.len();
        raw.append(&mut chunk);
        let range_end = raw.len();
        p = p + sz;
        frames.push(ImageFrameData { width, height, range_start, range_end });
        k = k + 1;
    }
    *pos = p;
    Ok(ImageData { image_type, raw, frames })
}

/// Reads a whole in-game sprite file: the palette block is skipped for
/// encodings that carry one, then the frames.
pub fn read_image(bytes: &Vec<u8>, image_type: ImageType) -> (r: Result<ImageData, DecodeError>)
    ensures
        match r {
            Ok(d) => true,
            Err(e) => e == DecodeError::UnexpectedEnd,
        },
{
    let (count, has_palette) = read_sprite_count_info(bytes)?;
    let mut pos: usize = 0;
    match image_type {
        ImageType::Dot16 => {},
        _ => {
            if has_palette {
                if bytes.len() < 1024 {
                    return Err(DecodeError::UnexpectedEnd);
                }
                pos = 1024;
            }
        },
    }
    read_image_frames(bytes, &mut pos, count, image_type)
}

} // verus!
