use vstd::prelude::*;
use crate::bit_reader::{bit_at, bits_value, clamped_advance, lemma_bit_at_le_1, BitReader};
use crate::byte_stream::{le32_at, read_u32, read_u8};
use crate::errors::DecodeError;
use crate::huffman::{header_tree_end, header_tree_parsed, HeaderTree, HuffmanNode};
use crate::video::{
    opt_ht_wf, spec_video_run, ts_opt, unpack_video, TreeState, VideoState,
};

verus! {

/// Container-level header flags (one extra loop-back "ring" frame, and two
/// interlacing hints).
#[derive(Clone, Copy, PartialEq, Eq, Structural, Debug)]
pub struct HeaderFlags {
    pub has_ring_frame: bool,
    pub y_interlaced: bool,
    pub y_doubled: bool,
}

impl HeaderFlags {
    /// Splits the header flag byte; bits outside the three defined ones are
    /// a malformed container.
    pub fn from_bits(bits: u8) -> (r: Result<HeaderFlags, DecodeError>)
        ensures
            match r {
                Ok(f) => {
                    &&& bits & 0xF8 == 0
                    &&& f.has_ring_frame == ((bits & 0x01) != 0)
                    &&& f.y_interlaced == ((bits & 0x02) != 0)
                    &&& f.y_doubled == ((bits & 0x04) != 0)
                },
                Err(e) => e == DecodeError::InvalidTag && bits & 0xF8 != 0,
            },
    {
        if bits & 0xF8 != 0 {
            return Err(DecodeError::InvalidTag);
        }
        Ok(
            HeaderFlags {
                has_ring_frame: (bits & 0x01) != 0,
                y_interlaced: (bits & 0x02) != 0,
                y_doubled: (bits & 0x04) != 0,
            },
        )
    }
}

/// Per-track audio capability bits, stored in the top byte of the packed
/// audio-rate word.
#[derive(Clone, Copy, PartialEq, Eq, Structural, Debug)]
pub struct AudioFlags {
    pub compressed_bink: bool,
    pub is_stereo: bool,
    pub is_16_bit: bool,
    pub present: bool,
    pub compressed: bool,
}

impl AudioFlags {
    /// Splits the top six bits of a packed audio-rate word.  Every bit of
    /// the mask is defined, so this cannot fail.
    pub fn from_rate_word(word: u32) -> (r: AudioFlags)
        ensures
            r.compressed_bink == ((word & 0x0C00_0000) == 0x0C00_0000),
            r.is_stereo == ((word & 0x1000_0000) != 0),
            r.is_16_bit == ((word & 0x2000_0000) != 0),
            r.present == ((word & 0x4000_0000) != 0),
            r.compressed == ((word & 0x8000_0000) != 0),
    {
        AudioFlags {
            compressed_bink: (word & 0x0C00_0000) == 0x0C00_0000,
            is_stereo: (word & 0x1000_0000) != 0,
            is_16_bit: (word & 0x2000_0000) != 0,
            present: (word & 0x4000_0000) != 0,
            compressed: (word & 0x8000_0000) != 0,
        }
    }
}

/// Per-frame flags from the low two bits of the frame's size word.
#[derive(Clone, Copy, PartialEq, Eq, Structural, Debug)]
pub struct FrameFlags {
    pub keyframe: bool,
    pub unknown: bool,
}

impl FrameFlags {
    pub fn from_bits(bits: u8) -> (r: FrameFlags)
        ensures
            r.keyframe == ((bits & 0x01) != 0),
            r.unknown == ((bits & 0x02) != 0),
    {
        FrameFlags { keyframe: (bits & 0x01) != 0, unknown: (bits & 0x02) != 0 }
    }
}

/// Per-frame feature byte: a palette chunk and up to seven audio chunks.
#[derive(Clone, Copy, PartialEq, Eq, Debug)]
pub struct FrameFeatureFlags {
    pub has_palette: bool,
    pub has_audio: [bool; 7],
}

impl FrameFeatureFlags {
    pub open spec fn spec_audio_bit(bits: u8, track: int) -> bool {
        bits >> ((track + 1) as u8) & 1 == 1
    }

    /// Splits the frame feature byte.  All eight bits are defined.
    pub fn from_bits(bits: u8) -> (r: FrameFeatureFlags)
        ensures
            r.has_palette == ((bits & 0x01) != 0),
            forall|t: int| 0 <= t < 7 ==> r.has_audio@[t] == Self::spec_audio_bit(bits, t),
    {
        let mut has_audio = [false;7];
        let mut t: usize = 0;
        while t < 7
            invariant
                t <= 7,
                forall|j: int| 0 <= j < t ==> has_audio@[j] == Self::spec_audio_bit(bits, j),
            decreases 7 - t,
        {
            let sh = (t + 1) as u8;
            has_audio[t] = ((bits >> sh) & 1) == 1;
            t = t + 1;
        }
        FrameFeatureFlags { has_palette: (bits & 0x01) != 0, has_audio }
    }
}

/// The fixed 104-byte container header, fields little-endian in file order.
#[derive(PartialEq, Clone, Debug)]
pub struct SmackerFileHeader {
    pub signature: u32,
    pub width: u32,
    pub height: u32,
    pub num_frames: u32,
    pub frame_rate: i32,
    pub header_flags: u32,
    pub audio_size: [u32; 7],
    pub trees_size: u32,
    pub m_map_size: u32,
    pub m_clr_size: u32,
    pub full_size: u32,
    pub type_size: u32,
    pub audio_rate: [u32; 7],
    pub dummy: u32,
}

impl SmackerFileHeader {
    /// The header starts at `pos` and every field is the little-endian word
    /// at its fixed offset.
    pub open spec fn parsed_at(self, b: Seq<u8>, pos: int) -> bool {
        &&& self.signature == le32_at(b, pos)
        &&& self.width == le32_at(b, pos + 4)
        &&& self.height == le32_at(b, pos + 8)
        &&& self.num_frames == le32_at(b, pos + 12)
        &&& self.frame_rate == (le32_at(b, pos + 16) as u32) as i32
        &&& self.header_flags == le32_at(b, pos + 20)
        &&& forall|i: int| 0 <= i < 7 ==> self.audio_size@[i] == le32_at(b, pos + 24 + 4 * i)
        &&& self.trees_size == le32_at(b, pos + 52)
        &&& self.m_map_size == le32_at(b, pos + 56)
        &&& self.m_clr_size == le32_at(b, pos + 60)
        &&& self.full_size == le32_at(b, pos + 64)
        &&& self.type_size == le32_at(b, pos + 68)
        &&& forall|i: int| 0 <= i < 7 ==> self.audio_rate@[i] == le32_at(b, pos + 72 + 4 * i)
        &&& self.dummy == le32_at(b, pos + 100)
    }

    /// Reads the fixed header, advancing the cursor by 104 bytes.
    pub fn read(bytes: &Vec<u8>, pos: &mut usize) -> (r: Result<SmackerFileHeader, DecodeError>)
        ensures
            match r {
                Ok(h) => {
                    &&& *old(pos) + 104 <= bytes@.len()
                    &&& h.parsed_at(bytes@, *old(pos) as int)
                    &&& *final(pos) == *old(pos) + 104
                },
                Err(e) => {
                    &&& e == DecodeError::UnexpectedEnd
                    &&& *old(pos) + 104 > bytes@.len()
                    &&& *final(pos) == *old(pos)
                },
            },
    {
        let start = *pos;
        let mut p = start;
        if bytes.len() < 104 || start > bytes.len() - 104 {
            return Err(DecodeError::UnexpectedEnd);
        }
        let signature = read_u32(bytes, &mut p)?;
        let width = read_u32(bytes, &mut p)?;
        let height = read_u32(bytes, &mut p)?;
        let num_frames = read_u32(bytes, &mut p)?;
        let frame_rate = read_u32(bytes, &mut p)? as i32;
        let header_flags = read_u32(bytes, &mut p)?;
        let mut audio_size = [0u32;7];
        let mut i: usize = 0;
        while i < 7
            invariant
                i <= 7,
                p == start + 24 + 4 * i,
                start + 104 <= bytes@.len(),
                forall|j: int| 0 <= j < i ==> audio_size@[j] == le32_at(bytes@, start + 24 + 4 * j),
            decreases 7 - i,
        {
            audio_size[i] = read_u32(bytes, &mut p)?;
            i = i + 1;
        }
        let trees_size = read_u32(bytes, &mut p)?;
        let m_map_size = read_u32(bytes, &mut p)?;
        let m_clr_size = read_u32(bytes, &mut p)?;
        let full_size = read_u32(bytes, &mut p)?;
        let type_size = read_u32(bytes, &mut p)?;
        let mut audio_rate = [0u32;7];
        let mut k: usize = 0;
        while k < 7
            invariant
                k <= 7,
                p == start + 72 + 4 * k,
                start + 104 <= bytes@.len(),
                forall|j: int| 0 <= j < k ==> audio_rate@[j] == le32_at(bytes@, start + 72 + 4 * j),
            decreases 7 - k,
        {
            audio_rate[k] = read_u32(bytes, &mut p)?;
            k = k + 1;
        }
        let dummy = read_u32(bytes, &mut p)?;
        *pos = p;
        Ok(
            SmackerFileHeader {
                signature,
                width,
                height,
                num_frames,
                frame_rate,
                header_flags,
                audio_size,
                trees_size,
                m_map_size,
                m_clr_size,
                full_size,
                type_size,
                audio_rate,
                dummy,
            },
        )
    }
}

/// One frame's byte range inside the shared compressed buffer, with its
/// flags from the two frame tables.
#[derive(Clone, Copy, PartialEq, Eq, Debug)]
pub struct SmackerFrameInfo {
    pub range_start: usize,
    pub range_end: usize,
    pub frame_flags: FrameFlags,
    pub frame_feature_flags: FrameFeatureFlags,
}

/// A frame extracted with its own copy of the payload bytes.
pub struct SmackerFrame {
    pub frame_bytes: Vec<u8>,
    pub frame_flags: FrameFlags,
    pub frame_feature_flags: FrameFeatureFlags,
    pub audio_flags: [AudioFlags; 7],
    pub audio_rate: [u32; 7],
}

/// The persistent decode state carried from frame to frame: a 256-entry
/// packed-color palette and one palette index per pixel.
pub struct SmackerDecodeContext {
    pub palette: Vec<u32>,
    pub image: Vec<u8>,
}

impl SmackerDecodeContext {
    pub open spec fn wf(self, width: int, height: int) -> bool {
        &&& self.palette@.len() == 256
        &&& self.image@.len() == width * height
    }

    /// A fresh context: all palette entries and all pixels zero.
    pub fn new(width: u32, height: u32) -> (r: SmackerDecodeContext)
        requires
            width * height <= usize::MAX,
        ensures
            r.wf(width as int, height as int),
            forall|i: int| 0 <= i < 256 ==> r.palette@[i] == 0u32,
            forall|i: int| 0 <= i < r.image@.len() ==> r.image@[i] == 0u8,
    {
        let size_overall = (width as usize) * (height as usize);
        SmackerDecodeContext { palette: vec![0u32; 256], image: vec![0u8; size_overall] }
    }
}

/// The run length of a block chain, from the six length bits of a type
/// descriptor: indices up to 58 mean themselves plus one, the top five
/// indices mean 128, 256, 512, 1024 and 2048.  This table is part of the
/// format.
pub open spec fn spec_block_size(idx: int) -> int {
    if idx < 59 {
        idx + 1
    } else if idx == 59 {
        128
    } else if idx == 60 {
        256
    } else if idx == 61 {
        512
    } else if idx == 62 {
        1024
    } else {
        2048
    }
}

pub fn block_size_lookup(idx: u16) -> (r: usize)
    requires
        idx < 64,
    ensures
        r == spec_block_size(idx as int),
        1 <= r <= 2048,
{
    if idx < 59 {
        (idx as usize) + 1
    } else if idx == 59 {
        128
    } else if idx == 60 {
        256
    } else if idx == 61 {
        512
    } else if idx == 62 {
        1024
    } else {
        2048
    }
}

/// The 64-entry channel expansion table used by palette ops: a six-bit
/// channel value scaled onto eight bits.  Equal, entry for entry, to the
/// format's fixed table.
pub open spec fn spec_palette_expand(idx: u8) -> u8 {
    (idx << 2) | (idx >> 4)
}

pub fn palette_expand(idx: u8) -> (r: u8)
    requires
        idx < 64,
    ensures
        r == spec_palette_expand(idx),
    {
    (idx << 2u8) | (idx >> 4u8)
}

/// The packed opaque color a literal palette op produces from three
/// six-bit channel values.
pub open spec fn spec_pack_color(rc: u8, gc: u8, bc: u8) -> u32 {
    (0xFF00_0000 + (spec_palette_expand(bc & 0x3F) as int) + (spec_palette_expand(gc & 0x3F)
        as int) * 0x100 + (spec_palette_expand(rc & 0x3F) as int) * 0x1_0000) as u32
}

/// One palette copied with `cnt` entries taken from `prev` at `src`,
/// starting at `dest`.
pub open spec fn spec_copy_entries(
    pal: Seq<u32>,
    prev: Seq<u32>,
    dest: int,
    src: int,
    cnt: int,
) -> Seq<u32> {
    Seq::new(pal.len(), |i: int| if dest <= i < dest + cnt {
        prev[src + (i - dest)]
    } else {
        pal[i]
    })
}

/// The delta palette op walk (spec side).  `None` marks a malformed op
/// stream: an op truncated mid-way, or a copy run past either palette end.
/// A skip op (high bit) advances the destination; a copy op (`01` bits)
/// takes a run from the previous palette; any other flag byte is a literal
/// three-channel color.  The walk ends when the destination reaches 256 or
/// the ops are exhausted.
pub open spec fn spec_palette_walk(
    ops: Seq<u8>,
    prev: Seq<u32>,
    pal: Seq<u32>,
    off: int,
    dest: int,
) -> Option<Seq<u32>>
    decreases ops.len() - off,
{
    if off >= ops.len() || off < 0 || dest >= 256 {
        Option::Some(pal)
    } else {
        let flag = ops[off];
        if flag & 0x80 != 0 {
            spec_palette_walk(ops, prev, pal, off + 1, dest + (flag & 0x7F) + 1)
        } else if flag & 0xC0 == 0x40 {
            if off + 2 > ops.len() {
                Option::None
            } else {
                let src = ops[off + 1] as int;
                let cnt = (flag & 0x3F) + 1;
                if dest + cnt > 256 || src + cnt > 256 {
                    Option::None
                } else {
                    spec_palette_walk(
                        ops,
                        prev,
                        spec_copy_entries(pal, prev, dest, src, cnt as int),
                        off + 2,
                        dest + cnt,
                    )
                }
            }
        } else {
            if off + 3 > ops.len() {
                Option::None
            } else {
                spec_palette_walk(
                    ops,
                    prev,
                    pal.update(dest, spec_pack_color(flag, ops[off + 1], ops[off + 2])),
                    off + 3,
                    dest + 1,
                )
            }
        }
    }
}

/// Applies a delta op stream to the palette, committing only on success:
/// a malformed stream reports `InvalidTag` and leaves the palette as it
/// was.  On success the palette is exactly the op walk's result.
#[verifier::loop_isolation(false)]
pub fn apply_palette_ops(ops: &Vec<u8>, palette: &mut Vec<u32>) -> (r: Result<(), DecodeError>)
    requires
        old(palette)@.len() == 256,
    ensures
        final(palette)@.len() == 256,
        match r {
            Ok(()) => {
                &&& spec_palette_walk(ops@, old(palette)@, old(palette)@, 0, 0) == Option::Some(
                    final(palette)@,
                )
            },
            Err(e) => {
                &&& e == DecodeError::InvalidTag
                &&& spec_palette_walk(ops@, old(palette)@, old(palette)@, 0, 0) is None
                &&& final(palette)@ == old(palette)@
            },
        },
{
    let ghost prev = palette@;
    let mut next: Vec<u32> = palette.clone();
    proof {
        assert(next@ =~= prev);
    }
    let mut offset: usize = 0;
    let mut pal_offset: usize = 0;
    while offset < ops.len() && pal_offset < 256
        invariant
            next@.len() == 256,
            palette@ == prev,
            spec_palette_walk(ops@, prev, next@, offset as int, pal_offset as int)
                == spec_palette_walk(ops@, prev, prev, 0, 0),
        decreases ops@.len() - offset,
    {
        let flag_byte = ops[offset];
        if (flag_byte & 0x80) != 0 {
            proof {
                assert((flag_byte & 0x7F) < 128) by (bit_vector);
            }
            let increment = ((flag_byte & 0x7F) as usize) + 1;
            pal_offset = pal_offset + increment;
            offset = offset + 1;
        } else if (flag_byte & 0xC0) == 0x40 {
            if ops.len() - offset < 2 {
                return Err(DecodeError::InvalidTag);
            }
            proof {
                assert((flag_byte & 0x3F) < 64) by (bit_vector);
            }
            let prev_pal_offset = ops[offset + 1] as usize;
            let increment = ((flag_byte & 0x3F) as usize) + 1;
            if pal_offset + increment > 256 || prev_pal_offset + increment > 256 {
                return Err(DecodeError::InvalidTag);
            }
            let ghost before = next@;
            let mut i: usize = 0;
            while i < increment
                invariant
                    i <= increment,
                    pal_offset + increment <= 256,
                    prev_pal_offset + increment <= 256,
                    next@.len() == 256,
                    palette@ == prev,
                    forall|j: int|
                        0 <= j < 256 ==> next@[j] == (if pal_offset <= j < pal_offset + i {
                            prev[prev_pal_offset + (j - (pal_offset as int))]
                        } else {
                            before[j]
                        }),
                decreases increment - i,
            {
                let v = palette[prev_pal_offset + i];
                next[pal_offset + i] = v;
                i = i + 1;
            }
            proof {
                assert(next@ =~= spec_copy_entries(
                    before,
                    prev,
                    pal_offset as int,
                    prev_pal_offset as int,
                    increment as int,
                ));
            }
            offset = offset + 2;
            pal_offset = pal_offset + increment;
        } else {
            if ops.len() - offset < 3 {
                return Err(DecodeError::InvalidTag);
            }
            let rc = flag_byte & 0x3F;
            let gc = ops[offset + 1] & 0x3F;
            let bc = ops[offset + 2] & 0x3F;
            proof {
                assert((flag_byte & 0x3F) < 64) by (bit_vector);
                let g0 = ops@[offset + 1];
                let b0 = ops@[offset + 2];
                assert((g0 & 0x3F) < 64) by (bit_vector);
                assert((b0 & 0x3F) < 64) by (bit_vector);
            }
            let r8 = palette_expand(rc);
            let g8 = palette_expand(gc);
            let b8 = palette_expand(bc);
            let color: u32 = 0xFF00_0000u32 + (b8 as u32) + (g8 as u32) * 0x100 + (r8 as u32)
                * 0x1_0000;
            proof {
                assert(spec_palette_expand(ops@[offset + 1] & 0x3F) == spec_palette_expand(gc));
                assert(spec_palette_expand(ops@[offset + 2] & 0x3F) == spec_palette_expand(bc));
                assert(color == spec_pack_color(flag_byte, ops@[offset + 1], ops@[offset + 2]));
            }
            next[pal_offset] = color;
            offset = offset + 3;
            pal_offset = pal_offset + 1;
        }
    }
    *palette = next;
    Ok(())
}

/// `size` bytes starting at `start`, zero-padded past the end of `b`: the
/// container tolerates truncated payloads by reading them as zeroes.
pub open spec fn spec_padded_slice(b: Seq<u8>, start: int, size: nat) -> Seq<u8> {
    Seq::new(size, |i: int| if 0 <= start + i < b.len() {
        b[start + i]
    } else {
        0u8
    })
}

/// Copies `size` bytes from `start`, substituting zeroes past the end.
#[verifier::loop_isolation(false)]
pub fn read_padded(bytes: &Vec<u8>, start: usize, size: usize) -> (r: Vec<u8>)
    ensures
        r@ == spec_padded_slice(bytes@, start as int, size as nat),
{
    let mut out: Vec<u8> = Vec::new();
    let mut i: usize = 0;
    while i < size
        invariant
            i <= size,
            out@.len() == i,
            forall|j: int|
                0 <= j < i ==> out@[j] == spec_padded_slice(bytes@, start as int, size as nat)[j],
        decreases size - i,
    {
        if start <= bytes.len() && i < bytes.len() - start {
            out.push(bytes[start + i]);
        } else {
            out.push(0);
        }
        i = i + 1;
    }
    proof {
        assert(out@ =~= spec_padded_slice(bytes@, start as int, size as nat));
    }
    out
}

/// The payload byte length of frame `j`: its size word with the two flag
/// bits masked off.
pub open spec fn spec_frame_size(b: Seq<u8>, j: int) -> int {
    ((le32_at(b, 104 + 4 * j) as u32) & 0xFFFF_FFFCu32) as int
}

/// Read cursor and shared-buffer length after the first `j` frame
/// payloads are copied out: the read cursor advances by each frame's
/// declared size but never past the end of the file, while the
/// destination always grows by the declared size (truncated payloads are
/// zero-padded).
pub open spec fn spec_load_positions(b: Seq<u8>, ds: int, j: int) -> (int, int)
    decreases j,
{
    if j <= 0 {
        (ds, 0)
    } else {
        let p = spec_load_positions(b, ds, j - 1);
        let sz = spec_frame_size(b, j - 1);
        ((if p.0 + sz <= b.len() {
            p.0 + sz
        } else {
            b.len() as int
        }), p.1 + sz)
    }
}

/// The frame interval in hundredths of the container's tick unit: a
/// negative rate stores minus one hundred times the interval, zero means
/// one hundred ticks, a positive rate is the interval itself.
pub open spec fn spec_frame_interval_centi(rate: i32) -> int {
    if rate < 0 {
        -(rate as int)
    } else if rate == 0 {
        10000
    } else {
        (rate as int) * 100
    }
}

pub open spec fn spec_audio_flags(word: u32) -> AudioFlags {
    AudioFlags {
        compressed_bink: (word & 0x0C00_0000) == 0x0C00_0000,
        is_stereo: (word & 0x1000_0000) != 0,
        is_16_bit: (word & 0x2000_0000) != 0,
        present: (word & 0x4000_0000) != 0,
        compressed: (word & 0x8000_0000) != 0,
    }
}


/// The shared-buffer length grows monotonically with the frame index.
pub proof fn lemma_load_positions_mono(b: Seq<u8>, ds: int, j1: int, j2: int)
    requires
        0 <= j1 <= j2,
    ensures
        spec_load_positions(b, ds, j1).1 <= spec_load_positions(b, ds, j2).1,
    decreases j2,
{
    if j1 < j2 {
        lemma_load_positions_mono(b, ds, j1, j2 - 1);
        let w = le32_at(b, 104 + 4 * (j2 - 1)) as u32;
        assert(spec_frame_size(b, j2 - 1) >= 0);
    }
}



/// The logical frame count: the stored count, plus one when the ring-frame
/// header flag is set.
pub open spec fn spec_adjusted_frame_count(b: Seq<u8>) -> int {
    let hf = (le32_at(b, 20) as u32) as u8;
    le32_at(b, 12) + (if hf & 0x01 != 0 {
        1int
    } else {
        0int
    })
}


/// When each load error may be reported: `UnexpectedEnd` only for bytes
/// too short for the header or the frame tables; `InvalidTag` only for
/// undefined header flag bits or an input past a machine limit (bit
/// positions, the shared payload buffer, or the pixel buffer would not fit
/// a machine word); `TreeDepthExceeded` only when the tree block admits no
/// parse.
pub open spec fn spec_load_error_allows(b: Seq<u8>, e: DecodeError) -> bool {
    let n = spec_adjusted_frame_count(b);
    let hf = (le32_at(b, 20) as u32) as u8;
    let tb_start = 104 + 5 * n;
    let ds_raw = tb_start + le32_at(b, 52);
    let ds = if ds_raw <= b.len() {
        ds_raw
    } else {
        b.len() as int
    };
    match e {
        DecodeError::UnexpectedEnd => b.len() < 104 || 104 + 5 * n > b.len(),
        DecodeError::InvalidTag => {
            ||| b.len() > usize::MAX / 8
            ||| (b.len() >= 104 && hf & 0xF8 != 0)
            ||| spec_load_positions(b, ds, n).1 > usize::MAX / 8
            ||| le32_at(b, 4) * le32_at(b, 8) > usize::MAX / 2
        },
        DecodeError::TreeDepthExceeded => !spec_trees_block_parses(
            b,
            8 * tb_start,
            le32_at(b, 56),
            le32_at(b, 60),
            le32_at(b, 64),
            le32_at(b, 68),
        ),
        _ => false,
    }
}

/// The whole tree block parsed: four optional trees, each introduced by a
/// presence bit, chained by their end positions in map, color, full, type
/// order.
pub open spec fn trees_block_parsed(
    m_map_tree: Option<HeaderTree>,
    m_clr_tree: Option<HeaderTree>,
    full_tree: Option<HeaderTree>,
    type_tree: Option<HeaderTree>,
    b: Seq<u8>,
    q0: int,
    m_map_size: int,
    m_clr_size: int,
    full_size: int,
    type_size: int,
) -> bool {
    let pm = clamped_advance(b, q0, 1);
    let am = match m_map_tree {
        Option::None => pm,
        Option::Some(t) => header_tree_end(t, b, pm),
    };
    let pc = clamped_advance(b, am, 1);
    let ac = match m_clr_tree {
        Option::None => pc,
        Option::Some(t) => header_tree_end(t, b, pc),
    };
    let pf = clamped_advance(b, ac, 1);
    let af = match full_tree {
        Option::None => pf,
        Option::Some(t) => header_tree_end(t, b, pf),
    };
    let pt = clamped_advance(b, af, 1);
    &&& (m_map_tree is Some <==> bit_at(b, q0) == 1)
    &&& match m_map_tree {
        Option::None => true,
        Option::Some(t) => header_tree_parsed(t, b, pm, m_map_size),
    }
    &&& (m_clr_tree is Some <==> bit_at(b, am) == 1)
    &&& match m_clr_tree {
        Option::None => true,
        Option::Some(t) => header_tree_parsed(t, b, pc, m_clr_size),
    }
    &&& (full_tree is Some <==> bit_at(b, ac) == 1)
    &&& match full_tree {
        Option::None => true,
        Option::Some(t) => header_tree_parsed(t, b, pf, full_size),
    }
    &&& (type_tree is Some <==> bit_at(b, af) == 1)
    &&& match type_tree {
        Option::None => true,
        Option::Some(t) => header_tree_parsed(t, b, pt, type_size),
    }
}

/// Some assignment of four optional trees parses the tree block at `q0`.
pub open spec fn spec_trees_block_parses(
    b: Seq<u8>,
    q0: int,
    m_map_size: int,
    m_clr_size: int,
    full_size: int,
    type_size: int,
) -> bool {
    exists|
        mm: Option<HeaderTree>,
        mc: Option<HeaderTree>,
        ft: Option<HeaderTree>,
        tt: Option<HeaderTree>,
    |
        trees_block_parsed(mm, mc, ft, tt, b, q0, m_map_size, m_clr_size, full_size, type_size)
}

/// One frame's compressed payload together with the raw bytes all frames
/// share.
pub struct FrameBytesShared {
    pub data: Vec<u8>,
}

/// Everything the container load produces: metadata, the four decode
/// trees, the frame table, and the persistent decode state.  The audio
/// sample path is a stub (`AudioNotImplemented`), so no sample buffers are
/// kept.  `next_frame` enforces the strictly increasing decode order the
/// format requires; a failed frame decode poisons it.
pub struct SmackerFileInfo {
    pub width: u32,
    pub height: u32,
    pub frame_interval_centi: u64,
    pub sample_rate_per_frame: u64,
    pub audio_rate: [u32; 7],
    pub audio_flags: [AudioFlags; 7],
    pub smacker_decode_context: SmackerDecodeContext,
    pub frames: Vec<SmackerFrameInfo>,
    pub m_map_tree: Option<HeaderTree>,
    pub m_clr_tree: Option<HeaderTree>,
    pub full_tree: Option<HeaderTree>,
    pub type_tree: Option<HeaderTree>,
    pub next_frame: usize,
}

impl SmackerFileInfo {
    /// Structural validity, independent of any particular input file.
    pub open spec fn wf(self) -> bool {
        &&& opt_ht_wf(self.m_map_tree)
        &&& opt_ht_wf(self.m_clr_tree)
        &&& opt_ht_wf(self.full_tree)
        &&& opt_ht_wf(self.type_tree)
        &&& self.smacker_decode_context.palette@.len() == 256
        &&& self.smacker_decode_context.image@.len() == self.width * self.height
        &&& self.width * self.height <= usize::MAX
    }

    /// The load-time relation between a parsed container and its bytes:
    /// every header-derived field, the frame table, the shared payload
    /// buffer and the four trees are exactly what the bytes dictate.
    pub open spec fn loaded_from(self, shared: FrameBytesShared, b: Seq<u8>) -> bool {
        let hf = (le32_at(b, 20) as u32) as u8;
        let ring = hf & 0x01 != 0;
        let n = le32_at(b, 12) + (if ring {
            1int
        } else {
            0int
        });
        let feat = 104 + 4 * n;
        let tb_start = 104 + 5 * n;
        let ds_raw = tb_start + le32_at(b, 52);
        let ds = if ds_raw <= b.len() {
            ds_raw
        } else {
            b.len() as int
        };
        let q0 = 8 * tb_start;
        let pm = clamped_advance(b, q0, 1);
        let am = match self.m_map_tree {
            Option::None => pm,
            Option::Some(t) => header_tree_end(t, b, pm),
        };
        let pc = clamped_advance(b, am, 1);
        let ac = match self.m_clr_tree {
            Option::None => pc,
            Option::Some(t) => header_tree_end(t, b, pc),
        };
        let pf = clamped_advance(b, ac, 1);
        let af = match self.full_tree {
            Option::None => pf,
            Option::Some(t) => header_tree_end(t, b, pf),
        };
        let pt = clamped_advance(b, af, 1);
        &&& b.len() >= 104
        &&& 8 * b.len() <= usize::MAX
        &&& hf & 0xF8 == 0
        &&& self.width == le32_at(b, 4)
        &&& self.height == le32_at(b, 8)
        &&& self.width * self.height <= usize::MAX
        &&& self.frame_interval_centi == spec_frame_interval_centi(
            (le32_at(b, 16) as u32) as i32,
        )
        &&& self.sample_rate_per_frame == (self.audio_rate@[0] * self.frame_interval_centi)
            / 100000
        &&& forall|i: int|
            0 <= i < 7 ==> self.audio_rate@[i] == (le32_at(b, 72 + 4 * i) as u32) & 0x00FF_FFFF
        &&& forall|i: int|
            0 <= i < 7 ==> self.audio_flags@[i] == spec_audio_flags(le32_at(b, 72 + 4 * i) as u32)
        &&& 104 + 5 * n <= b.len()
        &&& self.frames@.len() == n
        &&& forall|j: int|
            0 <= j < n ==> {
                let w = le32_at(b, 104 + 4 * j) as u32;
                let fbyte = b[feat + j];
                let fr = #[trigger] self.frames@[j];
                &&& fr.frame_flags.keyframe == ((w as u8) & 0x01 != 0)
                &&& fr.frame_flags.unknown == ((w as u8) & 0x02 != 0)
                &&& fr.frame_feature_flags.has_palette == (fbyte & 0x01 != 0)
                &&& forall|t: int|
                    0 <= t < 7 ==> fr.frame_feature_flags.has_audio@[t]
                        == FrameFeatureFlags::spec_audio_bit(fbyte, t)
                &&& fr.range_start == spec_load_positions(b, ds, j).1
                &&& fr.range_end == fr.range_start + spec_frame_size(b, j)
                &&& shared.data@.subrange(fr.range_start as int, fr.range_end as int)
                    == spec_padded_slice(
                    b,
                    spec_load_positions(b, ds, j).0,
                    spec_frame_size(b, j) as nat,
                )
            }
        &&& shared.data@.len() == spec_load_positions(b, ds, n).1
        &&& shared.data@.len() <= usize::MAX / 8
        &&& (self.m_map_tree is Some <==> bit_at(b, q0) == 1)
        &&& match self.m_map_tree {
            Option::None => true,
            Option::Some(t) => header_tree_parsed(t, b, pm, le32_at(b, 56)),
        }
        &&& (self.m_clr_tree is Some <==> bit_at(b, am) == 1)
        &&& match self.m_clr_tree {
            Option::None => true,
            Option::Some(t) => header_tree_parsed(t, b, pc, le32_at(b, 60)),
        }
        &&& (self.full_tree is Some <==> bit_at(b, ac) == 1)
        &&& match self.full_tree {
            Option::None => true,
            Option::Some(t) => header_tree_parsed(t, b, pf, le32_at(b, 64)),
        }
        &&& (self.type_tree is Some <==> bit_at(b, af) == 1)
        &&& match self.type_tree {
            Option::None => true,
            Option::Some(t) => header_tree_parsed(t, b, pt, le32_at(b, 68)),
        }
        &&& forall|i: int| 0 <= i < 256 ==> self.smacker_decode_context.palette@[i] == 0u32
        &&& forall|i: int|
            0 <= i < self.smacker_decode_context.image@.len()
                ==> self.smacker_decode_context.image@[i] == 0u8
        &&& self.next_frame == 0
    }


    /// Reads the frame size/flag table and the frame feature table.
    #[verifier::loop_isolation(false)]
    fn read_frame_tables(bytes: &Vec<u8>, pos: &mut usize, n: usize) -> (r: (
        Vec<u32>,
        Vec<FrameFlags>,
        Vec<FrameFeatureFlags>,
    ))
        requires
            *old(pos) == 104,
            104 + 5 * n <= bytes@.len(),
        ensures
            ({
                let (sizes, flags, feats) = r;
                &&& *final(pos) == 104 + 5 * n
                &&& sizes@.len() == n
                &&& flags@.len() == n
                &&& feats@.len() == n
                &&& forall|k: int| 0 <= k < n ==> sizes@[k] == spec_frame_size(bytes@, k)
                &&& forall|k: int|
                    0 <= k < n ==> {
                        let w = le32_at(bytes@, 104 + 4 * k) as u32;
                        (#[trigger] flags@[k]).keyframe == ((w as u8) & 0x01 != 0) && flags@[k].unknown
                            == ((w as u8) & 0x02 != 0)
                    }
                &&& forall|q: int|
                    0 <= q < n ==> {
                        let fbyte = bytes@[104 + 4 * n + q];
                        (#[trigger] feats@[q]).has_palette == (fbyte & 0x01 != 0) && forall|t: int|
                            0 <= t < 7 ==> feats@[q].has_audio@[t]
                                == FrameFeatureFlags::spec_audio_bit(fbyte, t)
                    }
            }),
    {
        let ghost b = bytes@;
        let mut frame_sizes: Vec<u32> = Vec::new();
        let mut frame_flags_v: Vec<FrameFlags> = Vec::new();
        let mut j: usize = 0;
        while j < n
            invariant
                j <= n,
                *pos == 104 + 4 * j,
                frame_sizes@.len() == j,
                frame_flags_v@.len() == j,
                forall|k: int| 0 <= k < j ==> frame_sizes@[k] == spec_frame_size(b, k),
                forall|k: int|
                    0 <= k < j ==> {
                        let w = le32_at(b, 104 + 4 * k) as u32;
                        (#[trigger] frame_flags_v@[k]).keyframe == ((w as u8) & 0x01 != 0)
                            && frame_flags_v@[k].unknown == ((w as u8) & 0x02 != 0)
                    },
            decreases n - j,
        {
            let w = match read_u32(bytes, pos) {
                Ok(v) => v,
                Err(_) => {
                    proof {
                        assert(false);
                    }
                    0
                },
            };
            frame_sizes.push(w & 0xFFFF_FFFC);
            frame_flags_v.push(FrameFlags::from_bits((w & 3) as u8));
            proof {
                let wg = le32_at(b, 104 + 4 * (j as int)) as u32;
                assert(((wg & 3) as u8) & 0x01 == (wg as u8) & 0x01) by (bit_vector);
                assert(((wg & 3) as u8) & 0x02 == (wg as u8) & 0x02) by (bit_vector);
            }
            j = j + 1;
        }
        let mut frame_features: Vec<FrameFeatureFlags> = Vec::new();
        let mut k: usize = 0;
        while k < n
            invariant
                k <= n,
                *pos == 104 + 4 * n + k,
                frame_features@.len() == k,
                forall|q: int|
                    0 <= q < k ==> {
                        let fbyte = b[104 + 4 * n + q];
                        (#[trigger] frame_features@[q]).has_palette == (fbyte & 0x01 != 0) && forall|
                            t: int,
                        |
                            0 <= t < 7 ==> frame_features@[q].has_audio@[t]
                                == FrameFeatureFlags::spec_audio_bit(fbyte, t)
                    },
            decreases n - k,
        {
            let fbyte = match read_u8(bytes, pos) {
                Ok(v) => v,
                Err(_) => {
                    proof {
                        assert(false);
                    }
                    0
                },
            };
            frame_features.push(FrameFeatureFlags::from_bits(fbyte));
            k = k + 1;
        }
        (frame_sizes, frame_flags_v, frame_features)
    }

    /// Copies every frame payload out of the file into one shared buffer,
    /// recording each frame's byte range and flags.
    #[verifier::loop_isolation(false)]
    fn copy_frame_payloads(
        bytes: &Vec<u8>,
        data_start: usize,
        frame_sizes: &Vec<u32>,
        frame_flags_v: &Vec<FrameFlags>,
        frame_features: &Vec<FrameFeatureFlags>,
    ) -> (r: (Vec<SmackerFrameInfo>, Vec<u8>))
        requires
            data_start <= bytes@.len(),
            frame_flags_v@.len() == frame_sizes@.len(),
            frame_features@.len() == frame_sizes@.len(),
            forall|k: int|
                0 <= k < frame_sizes@.len() ==> frame_sizes@[k] == spec_frame_size(bytes@, k),
        ensures
            ({
                let n = frame_sizes@.len() as int;
                let dsi = data_start as int;
                let frames = r.0;
                let data = r.1;
                &&& frames@.len() == n
                &&& data@.len() == spec_load_positions(bytes@, dsi, n).1
                &&& forall|q: int|
                    0 <= q < n ==> {
                        let fr = #[trigger] frames@[q];
                        &&& fr.frame_flags == frame_flags_v@[q]
                        &&& fr.frame_feature_flags == frame_features@[q]
                        &&& fr.range_start == spec_load_positions(bytes@, dsi, q).1
                        &&& fr.range_end == fr.range_start + spec_frame_size(bytes@, q)
                        &&& data@.subrange(fr.range_start as int, fr.range_end as int)
                            == spec_padded_slice(
                            bytes@,
                            spec_load_positions(bytes@, dsi, q).0,
                            spec_frame_size(bytes@, q) as nat,
                        )
                    }
            }),
    {
        let ghost b = bytes@;
        let ghost dsi = data_start as int;
        let n = frame_sizes.len();
        let mut data: Vec<u8> = Vec::new();
        let mut frames: Vec<SmackerFrameInfo> = Vec::new();
        let mut src: usize = data_start;
        let mut f: usize = 0;
        while f < n
            invariant
                f <= n,
                n == frame_sizes@.len(),
                n == frame_flags_v@.len(),
                n == frame_features@.len(),
                frames@.len() == f,
                src == spec_load_positions(b, dsi, f as int).0,
                data@.len() == spec_load_positions(b, dsi, f as int).1,
                src <= b.len(),
                forall|q: int|
                    0 <= q < f ==> {
                        let fr = #[trigger] frames@[q];
                        &&& fr.frame_flags == frame_flags_v@[q]
                        &&& fr.frame_feature_flags == frame_features@[q]
                        &&& fr.range_start == spec_load_positions(b, dsi, q).1
                        &&& fr.range_end == fr.range_start + spec_frame_size(b, q)
                        &&& data@.subrange(fr.range_start as int, fr.range_end as int)
                            == spec_padded_slice(
                            b,
                            spec_load_positions(b, dsi, q).0,
                            spec_frame_size(b, q) as nat,
                        )
                    },
            decreases n - f,
        {
            let size32 = frame_sizes[f];
            let size = size32 as usize;
            let start = data.len();
            let ghost d_entry = data@;
            let ghost src_entry = src as int;
            let mut chunk = read_padded(bytes, src, size);
            proof {
                assert(chunk@ == spec_padded_slice(b, src_entry, size as nat));
            }
            data.append(&mut chunk);
            let end = data.len();
            frames.push(
                SmackerFrameInfo {
                    range_start: start,
                    range_end: end,
                    frame_flags: frame_flags_v[f],
                    frame_feature_flags: frame_features[f],
                },
            );
            let rem = bytes.len() - src;
            src = if size <= rem {
                src + size
            } else {
                bytes.len()
            };
            proof {
                let dnow = data@;
                assert forall|q: int| 0 <= q < f + 1 implies {
                    let fr = #[trigger] frames@[q];
                    dnow.subrange(fr.range_start as int, fr.range_end as int) == spec_padded_slice(
                        b,
                        spec_load_positions(b, dsi, q).0,
                        spec_frame_size(b, q) as nat,
                    )
                } by {
                    let fr = frames@[q];
                    let target = spec_padded_slice(
                        b,
                        spec_load_positions(b, dsi, q).0,
                        spec_frame_size(b, q) as nat,
                    );
                    let s0 = fr.range_start as int;
                    let e0 = fr.range_end as int;
                    assert(dnow == d_entry + spec_padded_slice(b, src_entry, size as nat));
                    if q < f {
                        assert(e0 == spec_load_positions(b, dsi, q + 1).1);
                        lemma_load_positions_mono(b, dsi, q + 1, f as int);
                        assert(e0 <= d_entry.len());
                    } else {
                        assert(s0 == d_entry.len());
                    }
                    assert(0 <= s0 <= e0 <= dnow.len());
                    assert(e0 - s0 == spec_frame_size(b, q));
                    assert forall|i: int| 0 <= i < e0 - s0 implies dnow.subrange(s0, e0)[i]
                        == target[i] by {
                        if q < f {
                            assert(dnow[s0 + i] == d_entry[s0 + i]);
                            assert(d_entry.subrange(s0, e0)[i] == target[i]);
                        } else {
                            assert(dnow[s0 + i] == spec_padded_slice(b, src_entry, size as nat)[i]);
                        }
                    }
                    assert(dnow.subrange(s0, e0).len() == target.len());
                    assert(dnow.subrange(s0, e0) =~= target);
                }
            }
            f = f + 1;
        }
        (frames, data)
    }


    /// Reads the four optional decode trees from the tree block, each
    /// introduced by a presence bit.
    #[verifier::spinoff_prover]
    fn load_trees(
        reader: &mut BitReader,
        m_map_size: u32,
        m_clr_size: u32,
        full_size: u32,
        type_size: u32,
    ) -> (r: Result<
        (Option<HeaderTree>, Option<HeaderTree>, Option<HeaderTree>, Option<HeaderTree>),
        DecodeError,
    >)
        requires
            old(reader).wf(),
        ensures
            final(reader).wf(),
            final(reader).bytes@ == old(reader).bytes@,
            match r {
                Ok((m_map_tree, m_clr_tree, full_tree, type_tree)) => trees_block_parsed(
                    m_map_tree,
                    m_clr_tree,
                    full_tree,
                    type_tree,
                    old(reader).bytes@,
                    old(reader).bit_pos as int,
                    m_map_size as int,
                    m_clr_size as int,
                    full_size as int,
                    type_size as int,
                ),
                Err(e) => {
                    &&& e == DecodeError::TreeDepthExceeded
                    &&& !spec_trees_block_parses(
                        old(reader).bytes@,
                        old(reader).bit_pos as int,
                        m_map_size as int,
                        m_clr_size as int,
                        full_size as int,
                        type_size as int,
                    )
                },
            },
    {
        let ghost b = reader.bytes@;
        let mut m_map_tree: Option<HeaderTree> = None;
        let mut m_clr_tree: Option<HeaderTree> = None;
        let mut full_tree: Option<HeaderTree> = None;
        let mut type_tree: Option<HeaderTree> = None;
        let ghost q0 = reader.bit_pos as int;
        let bit_map = reader.read_bits(1);
        proof {
            assert(bits_value(b, q0 + 1, 0) == 0);
            lemma_bit_at_le_1(b, q0);
        }
        if bit_map == 1 {
            let t = match HeaderTree::read(reader, m_map_size as usize) {
                Ok(t) => t,
                Err(e) => {
                    proof {
                        assert forall|
                            mm: Option<HeaderTree>,
                            mc: Option<HeaderTree>,
                            ft: Option<HeaderTree>,
                            tt: Option<HeaderTree>,
                        |
                            !trees_block_parsed(
                                mm,
                                mc,
                                ft,
                                tt,
                                b,
                                q0,
                                m_map_size as int,
                                m_clr_size as int,
                                full_size as int,
                                type_size as int,
                            ) by {
                            if trees_block_parsed(mm, mc, ft, tt, b, q0, m_map_size as int,
                                m_clr_size as int, full_size as int, type_size as int) {
                                assert(header_tree_parsed(
                                    mm.unwrap(),
                                    b,
                                    clamped_advance(b, q0, 1),
                                    m_map_size as int,
                                ));
                            }
                        }
                    }
                    return Err(e);
                },
            };
            m_map_tree = Some(t);
        }
        let ghost qc = reader.bit_pos as int;
        let bit_clr = reader.read_bits(1);
        proof {
            assert(bits_value(b, qc + 1, 0) == 0);
            lemma_bit_at_le_1(b, qc);
        }
        if bit_clr == 1 {
            let t = match HeaderTree::read(reader, m_clr_size as usize) {
                Ok(t) => t,
                Err(e) => {
                    proof {
                        assert forall|
                            mm: Option<HeaderTree>,
                            mc: Option<HeaderTree>,
                            ft: Option<HeaderTree>,
                            tt: Option<HeaderTree>,
                        |
                            !trees_block_parsed(
                                mm,
                                mc,
                                ft,
                                tt,
                                b,
                                q0,
                                m_map_size as int,
                                m_clr_size as int,
                                full_size as int,
                                type_size as int,
                            ) by {
                            if trees_block_parsed(mm, mc, ft, tt, b, q0, m_map_size as int,
                                m_clr_size as int, full_size as int, type_size as int) {
                                match mm {
                                    Option::None => {},
                                    Option::Some(t2) => {
                                        crate::huffman::lemma_header_tree_parsed_deterministic(
                                            t2,
                                            m_map_tree.unwrap(),
                                            b,
                                            clamped_advance(b, q0, 1),
                                            m_map_size as int,
                                        );
                                    },
                                }
                                assert(header_tree_parsed(
                                    mc.unwrap(),
                                    b,
                                    clamped_advance(b, qc, 1),
                                    m_clr_size as int,
                                ));
                            }
                        }
                    }
                    return Err(e);
                },
            };
            m_clr_tree = Some(t);
        }
        let ghost qf = reader.bit_pos as int;
        let bit_full = reader.read_bits(1);
        proof {
            assert(bits_value(b, qf + 1, 0) == 0);
            lemma_bit_at_le_1(b, qf);
        }
        if bit_full == 1 {
            let t = match HeaderTree::read(reader, full_size as usize) {
                Ok(t) => t,
                Err(e) => {
                    proof {
                        assert forall|
                            mm: Option<HeaderTree>,
                            mc: Option<HeaderTree>,
                            ft: Option<HeaderTree>,
                            tt: Option<HeaderTree>,
                        |
                            !trees_block_parsed(
                                mm,
                                mc,
                                ft,
                                tt,
                                b,
                                q0,
                                m_map_size as int,
                                m_clr_size as int,
                                full_size as int,
                                type_size as int,
                            ) by {
                            if trees_block_parsed(mm, mc, ft, tt, b, q0, m_map_size as int,
                                m_clr_size as int, full_size as int, type_size as int) {
                                match mm {
                                    Option::None => {},
                                    Option::Some(t2) => {
                                        crate::huffman::lemma_header_tree_parsed_deterministic(
                                            t2,
                                            m_map_tree.unwrap(),
                                            b,
                                            clamped_advance(b, q0, 1),
                                            m_map_size as int,
                                        );
                                    },
                                }
                                match mc {
                                    Option::None => {},
                                    Option::Some(t2) => {
                                        crate::huffman::lemma_header_tree_parsed_deterministic(
                                            t2,
                                            m_clr_tree.unwrap(),
                                            b,
                                            clamped_advance(b, qc, 1),
                                            m_clr_size as int,
                                        );
                                    },
                                }
                                assert(header_tree_parsed(
                                    ft.unwrap(),
                                    b,
                                    clamped_advance(b, qf, 1),
                                    full_size as int,
                                ));
                            }
                        }
                    }
                    return Err(e);
                },
            };
            full_tree = Some(t);
        }
        let ghost qt = reader.bit_pos as int;
        let bit_type = reader.read_bits(1);
        proof {
            assert(bits_value(b, qt + 1, 0) == 0);
            lemma_bit_at_le_1(b, qt);
        }
        if bit_type == 1 {
            let t = match HeaderTree::read(reader, type_size as usize) {
                Ok(t) => t,
                Err(e) => {
                    proof {
                        assert forall|
                            mm: Option<HeaderTree>,
                            mc: Option<HeaderTree>,
                            ft: Option<HeaderTree>,
                            tt: Option<HeaderTree>,
                        |
                            !trees_block_parsed(
                                mm,
                                mc,
                                ft,
                                tt,
                                b,
                                q0,
                                m_map_size as int,
                                m_clr_size as int,
                                full_size as int,
                                type_size as int,
                            ) by {
                            if trees_block_parsed(mm, mc, ft, tt, b, q0, m_map_size as int,
                                m_clr_size as int, full_size as int, type_size as int) {
                                match mm {
                                    Option::None => {},
                                    Option::Some(t2) => {
                                        crate::huffman::lemma_header_tree_parsed_deterministic(
                                            t2,
                                            m_map_tree.unwrap(),
                                            b,
                                            clamped_advance(b, q0, 1),
                                            m_map_size as int,
                                        );
                                    },
                                }
                                match mc {
                                    Option::None => {},
                                    Option::Some(t2) => {
                                        crate::huffman::lemma_header_tree_parsed_deterministic(
                                            t2,
                                            m_clr_tree.unwrap(),
                                            b,
                                            clamped_advance(b, qc, 1),
                                            m_clr_size as int,
                                        );
                                    },
                                }
                                match ft {
                                    Option::None => {},
                                    Option::Some(t2) => {
                                        crate::huffman::lemma_header_tree_parsed_deterministic(
                                            t2,
                                            full_tree.unwrap(),
                                            b,
                                            clamped_advance(b, qf, 1),
                                            full_size as int,
                                        );
                                    },
                                }
                                assert(header_tree_parsed(
                                    tt.unwrap(),
                                    b,
                                    clamped_advance(b, qt, 1),
                                    type_size as int,
                                ));
                            }
                        }
                    }
                    return Err(e);
                },
            };
            type_tree = Some(t);
        }
        Ok((m_map_tree, m_clr_tree, full_tree, type_tree))
    }

    /// Parses a whole container out of its bytes.  Fails atomically: a bad
    /// structure (short header or tables, undefined header flag bits, an
    /// over-large pixel buffer) or a malformed tree yields an error and no
    /// state.  The signature word is read but deliberately not validated:
    /// the container family carries more than one magic value, so the
    /// frame tables and trees are the effective format checks; a caller
    /// wanting a strict magic policy can test the first four bytes itself.
    #[verifier::loop_isolation(false)]
    #[verifier::rlimit(100)]
    #[verifier::spinoff_prover]
    pub fn load(bytes: &Vec<u8>) -> (r: Result<(SmackerFileInfo, FrameBytesShared), DecodeError>)
        ensures
            match r {
                Ok((info, shared)) => info.wf() && info.loaded_from(shared, bytes@),
                Err(e) => spec_load_error_allows(bytes@, e),
            },
    {
        let ghost b = bytes@;
        if bytes.len() > usize::MAX / 8 {
            return Err(DecodeError::InvalidTag);
        }
        let mut pos: usize = 0;
        let header = SmackerFileHeader::read(bytes, &mut pos)?;
        let header_flags = HeaderFlags::from_bits(header.header_flags as u8)?;
        let num_frames64: u64 = (header.num_frames as u64) + (if header_flags.has_ring_frame {
            1u64
        } else {
            0u64
        });
        if 104u64 + 5 * num_frames64 > bytes.len() as u64 {
            return Err(DecodeError::UnexpectedEnd);
        }
        let n = num_frames64 as usize;
        let frame_interval_centi: u64 = if header.frame_rate < 0 {
            (-(header.frame_rate as i64)) as u64
        } else if header.frame_rate == 0 {
            10000
        } else {
            (header.frame_rate as u64) * 100
        };
        let mut audio_rate = [0u32;7];
        let af0 = AudioFlags {
            compressed_bink: false,
            is_stereo: false,
            is_16_bit: false,
            present: false,
            compressed: false,
        };
        let mut audio_flags = [af0, af0, af0, af0, af0, af0, af0];
        let mut i: usize = 0;
        while i < 7
            invariant
                i <= 7,
                forall|j: int|
                    0 <= j < i ==> audio_rate@[j] == (le32_at(b, 72 + 4 * j) as u32) & 0x00FF_FFFF,
                forall|j: int|
                    0 <= j < i ==> audio_flags@[j] == spec_audio_flags(le32_at(b, 72 + 4 * j)
                        as u32),
            decreases 7 - i,
        {
            audio_flags[i] = AudioFlags::from_rate_word(header.audio_rate[i]);
            audio_rate[i] = header.audio_rate[i] & 0x00FF_FFFF;
            i = i + 1;
        }
        let (frame_sizes, frame_flags_v, frame_features) = Self::read_frame_tables(
            bytes,
            &mut pos,
            n,
        );
        let trees_start = pos;
        let mut reader = BitReader::at_byte(bytes.clone(), trees_start);
        proof {
            assert(reader.bytes@ =~= b);
        }
        let (m_map_tree, m_clr_tree, full_tree, type_tree) = Self::load_trees(
            &mut reader,
            header.m_map_size,
            header.m_clr_size,
            header.full_size,
            header.type_size,
        )?;
        let ds64 = (trees_start as u64) + (header.trees_size as u64);
        let data_start: usize = if ds64 > bytes.len() as u64 {
            bytes.len()
        } else {
            ds64 as usize
        };
        let (frames, data) = Self::copy_frame_payloads(
            bytes,
            data_start,
            &frame_sizes,
            &frame_flags_v,
            &frame_features,
        );
        if data.len() > usize::MAX / 8 {
            return Err(DecodeError::InvalidTag);
        }
        proof {
            assert(((header.width as u64) as int) * ((header.height as u64) as int) < 0x1_0000_0000
                * 0x1_0000_0000) by (nonlinear_arith)
                requires
                    (header.width as u64) < 0x1_0000_0000,
                    (header.height as u64) < 0x1_0000_0000,
            ;
        }
        let wh64 = (header.width as u64) * (header.height as u64);
        if wh64 > (usize::MAX / 2) as u64 {
            return Err(DecodeError::InvalidTag);
        }
        let smacker_decode_context = SmackerDecodeContext::new(header.width, header.height);
        proof {
            let w0 = le32_at(b, 72) as u32;
            assert((w0 & 0x00FF_FFFF) < 0x100_0000) by (bit_vector);
            assert(((audio_rate@[0]) as int) * (frame_interval_centi as int) < 0x100_0000
                * 0x40_0000_0000) by (nonlinear_arith)
                requires
                    (audio_rate@[0] as int) < 0x100_0000,
                    0 <= frame_interval_centi as int,
                    (frame_interval_centi as int) < 0x40_0000_0000,
            ;
        }
        let sample_rate_per_frame = ((audio_rate[0] as u64) * frame_interval_centi) / 100000;
        Ok(
            (
                SmackerFileInfo {
                    width: header.width,
                    height: header.height,
                    frame_interval_centi,
                    sample_rate_per_frame,
                    audio_rate,
                    audio_flags,
                    smacker_decode_context,
                    frames,
                    m_map_tree,
                    m_clr_tree,
                    full_tree,
                    type_tree,
                    next_frame: 0,
                },
                FrameBytesShared { data },
            ),
        )
    }
}

/// A tree state with all three register slots zeroed, as `reset_last`
/// leaves it before each frame.
pub open spec fn spec_reset(s: TreeState) -> TreeState {
    TreeState {
        arena: s.arena.update(s.l0, HuffmanNode::Leaf { value: 0u16 }).update(
            s.l1,
            HuffmanNode::Leaf { value: 0u16 },
        ).update(s.l2, HuffmanNode::Leaf { value: 0u16 }),
        l0: s.l0,
        l1: s.l1,
        l2: s.l2,
    }
}

pub open spec fn spec_reset_opt(o: Option<TreeState>) -> Option<TreeState> {
    match o {
        Option::None => Option::None,
        Option::Some(s) => Option::Some(spec_reset(s)),
    }
}

/// The cursor position after the audio sections of tracks `track..7`:
/// each track that this frame carries and that is marked present declares
/// its own length word and is skipped whole.  `None` marks a truncated
/// length word, or a frame whose audio would have to be decoded
/// (unimplemented).
pub open spec fn spec_skip_audio(
    flags: Seq<AudioFlags>,
    feat: FrameFeatureFlags,
    fb: Seq<u8>,
    pos: int,
    track: int,
    skip_audio: bool,
) -> Option<int>
    decreases 7 - track,
{
    if track >= 7 {
        Option::Some(pos)
    } else if !(feat.has_audio@[track] && flags[track].present) {
        spec_skip_audio(flags, feat, fb, pos, track + 1, skip_audio)
    } else if pos + 4 > fb.len() {
        Option::None
    } else if !skip_audio {
        Option::None
    } else {
        let alen = le32_at(fb, pos) as u32;
        let np = if pos + alen <= fb.len() {
            pos + alen
        } else {
            fb.len() as int
        };
        spec_skip_audio(flags, feat, fb, np, track + 1, skip_audio)
    }
}


/// The palette chunk of one frame: its declared length, and either the op
/// walk's result or (when video is skipped) the chunk passed over
/// verbatim.  `None` marks a zero length byte, a truncated chunk, or a
/// malformed op stream.
pub open spec fn spec_palette_section(
    pal0: Seq<u32>,
    has_palette: bool,
    skip_video: bool,
    fb: Seq<u8>,
) -> Option<(Seq<u32>, int)> {
    if has_palette {
        if fb.len() < 1 {
            Option::None
        } else if fb[0] == 0 {
            Option::None
        } else {
            let psz = (fb[0] as int) * 4 - 1;
            if 1 + psz > fb.len() {
                Option::None
            } else if skip_video {
                Option::Some((pal0, 1 + psz))
            } else {
                match spec_palette_walk(fb.subrange(1, 1 + psz), pal0, pal0, 0, 0) {
                    Option::None => Option::None,
                    Option::Some(p) => Option::Some((p, 1 + psz)),
                }
            }
        }
    } else {
        Option::Some((pal0, 0int))
    }
}

/// Applies one frame's palette chunk; the cursor ends after the chunk.
/// On failure the palette keeps its (possibly keyframe-cleared) value.
pub fn do_palette_section(
    palette: &mut Vec<u32>,
    has_palette: bool,
    skip_video: bool,
    frame_bytes: &Vec<u8>,
) -> (r: Result<usize, DecodeError>)
    requires
        old(palette)@.len() == 256,
    ensures
        final(palette)@.len() == 256,
        match r {
            Ok(p) => {
                &&& spec_palette_section(old(palette)@, has_palette, skip_video, frame_bytes@)
                    == Option::Some((final(palette)@, p as int))
                &&& p <= frame_bytes@.len()
            },
            Err(_) => {
                &&& spec_palette_section(old(palette)@, has_palette, skip_video, frame_bytes@)
                    is None
                &&& final(palette)@ == old(palette)@
            },
        },
{
    if !has_palette {
        return Ok(0);
    }
    let mut pos: usize = 0;
    let psb = read_u8(frame_bytes, &mut pos)?;
    if psb == 0 {
        return Err(DecodeError::InvalidTag);
    }
    let psz = (psb as usize) * 4 - 1;
    if frame_bytes.len() - 1 < psz {
        return Err(DecodeError::UnexpectedEnd);
    }
    if !skip_video {
        let ops = match crate::byte_stream::read_exact(frame_bytes, &mut pos, psz) {
            Ok(v) => v,
            Err(_) => {
                proof {
                    assert(false);
                }
                Vec::new()
            },
        };
        apply_palette_ops(&ops, palette)?;
        Ok(pos)
    } else {
        Ok(1 + psz)
    }
}

/// Everything one frame's decode changes.
pub ghost struct FrameOutcome {
    pub palette: Seq<u32>,
    pub image: Seq<u8>,
    pub mmap: Option<TreeState>,
    pub mclr: Option<TreeState>,
    pub full: Option<TreeState>,
    pub typ: Option<TreeState>,
}

/// One frame decoded against the previous frame's state: registers reset,
/// palette zeroed on a keyframe, the delta palette chunk applied (or
/// skipped verbatim), audio chunks skipped, and the block loop run over
/// the rest of the payload.  `None` marks a malformed frame or one whose
/// decode is unsupported.
pub open spec fn spec_unpack_frame(
    mmap: Option<TreeState>,
    mclr: Option<TreeState>,
    full: Option<TreeState>,
    typ: Option<TreeState>,
    palette: Seq<u32>,
    image: Seq<u8>,
    audio_flags: Seq<AudioFlags>,
    keyframe: bool,
    feat: FrameFeatureFlags,
    fb: Seq<u8>,
    width: int,
    height: int,
    skip_video: bool,
    skip_audio: bool,
) -> Option<FrameOutcome> {
    let mmap1 = spec_reset_opt(mmap);
    let mclr1 = spec_reset_opt(mclr);
    let full1 = spec_reset_opt(full);
    let typ1 = spec_reset_opt(typ);
    let pal0 = if keyframe {
        Seq::new(256, |i: int| 0u32)
    } else {
        palette
    };
    let psec = spec_palette_section(pal0, feat.has_palette, skip_video, fb);
    match psec {
        Option::None => Option::None,
        Option::Some(ps) => match spec_skip_audio(audio_flags, feat, fb, ps.1, 0, skip_audio) {
            Option::None => Option::None,
            Option::Some(ap) => if skip_video {
                Option::Some(
                    FrameOutcome {
                        palette: ps.0,
                        image,
                        mmap: mmap1,
                        mclr: mclr1,
                        full: full1,
                        typ: typ1,
                    },
                )
            } else {
                let wb = width / 4;
                let hb = height / 4;
                let count = wb * hb;
                match spec_video_run(
                    VideoState {
                        mmap: mmap1,
                        mclr: mclr1,
                        full: full1,
                        typ: typ1,
                        image,
                        pos: 8 * ap,
                        cur: 0,
                    },
                    fb,
                    width,
                    wb,
                    count,
                    count as nat,
                ) {
                    Option::None => Option::None,
                    Option::Some(vs) => Option::Some(
                        FrameOutcome {
                            palette: ps.0,
                            image: vs.image,
                            mmap: vs.mmap,
                            mclr: vs.mclr,
                            full: vs.full,
                            typ: vs.typ,
                        },
                    ),
                }
            },
        },
    }
}

/// Zeroes all 256 palette entries (keyframes start from a blank palette).
#[verifier::loop_isolation(false)]
pub fn zero_palette(palette: &mut Vec<u32>)
    requires
        old(palette)@.len() == 256,
    ensures
        final(palette)@ == Seq::new(256, |i: int| 0u32),
{
    let mut i: usize = 0;
    while i < 256
        invariant
            i <= 256,
            palette@.len() == 256,
            forall|j: int| 0 <= j < i ==> palette@[j] == 0u32,
        decreases 256 - i,
    {
        palette[i] = 0;
        i = i + 1;
    }
    proof {
        assert(palette@ =~= Seq::new(256, |i: int| 0u32));
    }
}

/// Resets the register slots of an optional tree.
pub fn reset_opt_tree(tree: &mut Option<HeaderTree>)
    requires
        opt_ht_wf(*old(tree)),
    ensures
        opt_ht_wf(*final(tree)),
        ((*final(tree)) is Some <==> (*old(tree)) is Some),
        ((*old(tree)) is Some ==> (*final(tree)).unwrap().head == (*old(tree)).unwrap().head
            && (*final(tree)).unwrap().tree.root_node_id == (*old(tree)).unwrap().tree.root_node_id),
        ts_opt(*final(tree)) == spec_reset_opt(ts_opt(*old(tree))),
{
    match tree.as_mut() {
        Option::Some(t) => {
            t.reset_last();
        },
        Option::None => {},
    }
}

impl SmackerFileInfo {
    /// Skips one audio track's chunk of the frame payload.  The track's
    /// declared byte length (which includes the length word itself) is
    /// consumed whole; decoding the samples is not implemented and is
    /// reported as such, never silently.
    pub fn unpack_audio(
        &self,
        frame_bytes: &Vec<u8>,
        pos: &mut usize,
        track_number: usize,
        skip_audio: bool,
    ) -> (r: Result<(), DecodeError>)
        requires
            track_number < 7,
            *old(pos) <= frame_bytes@.len(),
        ensures
            *final(pos) <= frame_bytes@.len(),
            match r {
                Ok(()) => {
                    if !self.audio_flags@[track_number as int].present {
                        *final(pos) == *old(pos)
                    } else {
                        &&& *old(pos) + 4 <= frame_bytes@.len()
                        &&& skip_audio
                        &&& ({
                            let alen = le32_at(frame_bytes@, *old(pos) as int) as u32;
                            *final(pos) == (if *old(pos) + alen <= frame_bytes@.len() {
                                *old(pos) + alen
                            } else {
                                frame_bytes@.len() as int
                            })
                        })
                    }
                },
                Err(e) => {
                    &&& self.audio_flags@[track_number as int].present
                    &&& match e {
                        DecodeError::UnexpectedEnd => *old(pos) + 4 > frame_bytes@.len()
                            && *final(pos) == *old(pos),
                        DecodeError::AudioNotImplemented => *old(pos) + 4 <= frame_bytes@.len()
                            && !skip_audio,
                        _ => false,
                    }
                },
            },
    {
        if !self.audio_flags[track_number].present {
            return Ok(());
        }
        let start = *pos;
        let audio_length = read_u32(frame_bytes, pos)?;
        if skip_audio {
            let rem = frame_bytes.len() - start;
            *pos = if (audio_length as u64) <= rem as u64 {
                start + (audio_length as usize)
            } else {
                frame_bytes.len()
            };
            Ok(())
        } else {
            Err(DecodeError::AudioNotImplemented)
        }
    }


    /// Skips the audio chunks of every track this frame carries; the
    /// cursor ends after the last of them.
    #[verifier::loop_isolation(false)]
    pub fn skip_audio_sections(
        &self,
        feat: FrameFeatureFlags,
        frame_bytes: &Vec<u8>,
        pos: &mut usize,
        skip_audio: bool,
    ) -> (r: Result<(), DecodeError>)
        requires
            *old(pos) <= frame_bytes@.len(),
        ensures
            *final(pos) <= frame_bytes@.len(),
            match r {
                Ok(()) => spec_skip_audio(
                    self.audio_flags@,
                    feat,
                    frame_bytes@,
                    *old(pos) as int,
                    0,
                    skip_audio,
                ) == Option::Some(*final(pos) as int),
                Err(e) => {
                    &&& spec_skip_audio(
                        self.audio_flags@,
                        feat,
                        frame_bytes@,
                        *old(pos) as int,
                        0,
                        skip_audio,
                    ) is None
                    &&& (e == DecodeError::UnexpectedEnd || e == DecodeError::AudioNotImplemented)
                },
            },
    {
        let ghost fb = frame_bytes@;
        let ghost flags = self.audio_flags@;
        let mut t: usize = 0;
        while t < 7
            invariant
                t <= 7,
                *pos <= fb.len(),
                spec_skip_audio(flags, feat, fb, *pos as int, t as int, skip_audio)
                    == spec_skip_audio(flags, feat, fb, *old(pos) as int, 0, skip_audio),
            decreases 7 - t,
        {
            if feat.has_audio[t] {
                match self.unpack_audio(frame_bytes, pos, t, skip_audio) {
                    Ok(()) => {},
                    Err(e) => {
                        return Err(e);
                    },
                }
            }
            t = t + 1;
        }
        Ok(())
    }

    /// Decodes one frame's payload in place: most-recently-used registers
    /// reset, keyframe palette clear, delta palette chunk, audio chunk
    /// skips, then the video block loop.  On success the whole mutable
    /// state equals the spec-level frame outcome; any error leaves the
    /// structure well formed but the frame must be considered spoiled.
    #[verifier::loop_isolation(false)]
    #[verifier::rlimit(100)]
    pub fn unpack_impl(
        &mut self,
        frame_id: usize,
        frame_bytes: &Vec<u8>,
        skip_video: bool,
        skip_audio: bool,
    ) -> (r: Result<(), DecodeError>)
        requires
            old(self).wf(),
            frame_id < old(self).frames@.len(),
            8 * frame_bytes@.len() <= usize::MAX,
        ensures
            final(self).wf(),
            final(self).frames@ == old(self).frames@,
            final(self).width == old(self).width,
            final(self).height == old(self).height,
            final(self).audio_rate == old(self).audio_rate,
            final(self).audio_flags == old(self).audio_flags,
            final(self).next_frame == old(self).next_frame,
            final(self).frame_interval_centi == old(self).frame_interval_centi,
            final(self).sample_rate_per_frame == old(self).sample_rate_per_frame,
            ({
                let fr = old(self).frames@[frame_id as int];
                let out = spec_unpack_frame(
                    ts_opt(old(self).m_map_tree),
                    ts_opt(old(self).m_clr_tree),
                    ts_opt(old(self).full_tree),
                    ts_opt(old(self).type_tree),
                    old(self).smacker_decode_context.palette@,
                    old(self).smacker_decode_context.image@,
                    old(self).audio_flags@,
                    fr.frame_flags.keyframe,
                    fr.frame_feature_flags,
                    frame_bytes@,
                    old(self).width as int,
                    old(self).height as int,
                    skip_video,
                    skip_audio,
                );
                match r {
                    Ok(()) => {
                        &&& out is Some
                        &&& final(self).smacker_decode_context.palette@ == out.unwrap().palette
                        &&& final(self).smacker_decode_context.image@ == out.unwrap().image
                        &&& ts_opt(final(self).m_map_tree) == out.unwrap().mmap
                        &&& ts_opt(final(self).m_clr_tree) == out.unwrap().mclr
                        &&& ts_opt(final(self).full_tree) == out.unwrap().full
                        &&& ts_opt(final(self).type_tree) == out.unwrap().typ
                    },
                    Err(_) => out is None,
                }
            }),
    {
        let ghost fb = frame_bytes@;
        let fr = self.frames[frame_id];
        reset_opt_tree(&mut self.m_map_tree);
        reset_opt_tree(&mut self.m_clr_tree);
        reset_opt_tree(&mut self.full_tree);
        reset_opt_tree(&mut self.type_tree);
        if fr.frame_flags.keyframe {
            zero_palette(&mut self.smacker_decode_context.palette);
        }
        let mut pos: usize = do_palette_section(
            &mut self.smacker_decode_context.palette,
            fr.frame_feature_flags.has_palette,
            skip_video,
            frame_bytes,
        )?;
        self.skip_audio_sections(fr.frame_feature_flags, frame_bytes, &mut pos, skip_audio)?;
        if !skip_video {
            let mut reader = BitReader::at_byte(frame_bytes.clone(), pos);
            proof {
                assert(reader.bytes@ =~= fb);
            }
            unpack_video(
                &mut self.m_map_tree,
                &mut self.m_clr_tree,
                &mut self.full_tree,
                &mut self.type_tree,
                &mut self.smacker_decode_context.image,
                self.width,
                self.height,
                &mut reader,
            )?;
        }
        Ok(())
    }
}


impl SmackerFileInfo {
    /// Decodes frame `frame_id` from the shared payload buffer.  Frames
    /// must be decoded in strictly increasing order starting at zero:
    /// VOID blocks and palette skip runs only have meaning over the
    /// immediately preceding frame's result, so any other order is
    /// refused outright rather than producing silently wrong pixels.  A
    /// failed decode poisons the order counter: the session is over.
    pub fn unpack(
        &mut self,
        frame_bytes_shared: &FrameBytesShared,
        frame_id: usize,
        skip_video: bool,
        skip_audio: bool,
    ) -> (r: Result<(), DecodeError>)
        requires
            old(self).wf(),
            forall|j: int|
                0 <= j < old(self).frames@.len() ==> (#[trigger] old(self).frames@[j]).range_start
                    <= old(self).frames@[j].range_end <= frame_bytes_shared.data@.len(),
            8 * frame_bytes_shared.data@.len() <= usize::MAX,
        ensures
            final(self).wf(),
            final(self).frames@ == old(self).frames@,
            final(self).width == old(self).width,
            final(self).height == old(self).height,
            ({
                if frame_id >= old(self).frames@.len() {
                    r == Result::<(), DecodeError>::Err(DecodeError::InvalidTag) && *final(self)
                        == *old(self)
                } else if frame_id != old(self).next_frame {
                    r == Result::<(), DecodeError>::Err(DecodeError::OutOfOrderFrame) && *final(self)
                        == *old(self)
                } else {
                    let fr = old(self).frames@[frame_id as int];
                    let fb = frame_bytes_shared.data@.subrange(
                        fr.range_start as int,
                        fr.range_end as int,
                    );
                    let out = spec_unpack_frame(
                        ts_opt(old(self).m_map_tree),
                        ts_opt(old(self).m_clr_tree),
                        ts_opt(old(self).full_tree),
                        ts_opt(old(self).type_tree),
                        old(self).smacker_decode_context.palette@,
                        old(self).smacker_decode_context.image@,
                        old(self).audio_flags@,
                        fr.frame_flags.keyframe,
                        fr.frame_feature_flags,
                        fb,
                        old(self).width as int,
                        old(self).height as int,
                        skip_video,
                        skip_audio,
                    );
                    match r {
                        Ok(()) => {
                            &&& out is Some
                            &&& final(self).smacker_decode_context.palette@ == out.unwrap().palette
                            &&& final(self).smacker_decode_context.image@ == out.unwrap().image
                            &&& ts_opt(final(self).m_map_tree) == out.unwrap().mmap
                            &&& ts_opt(final(self).m_clr_tree) == out.unwrap().mclr
                            &&& ts_opt(final(self).full_tree) == out.unwrap().full
                            &&& ts_opt(final(self).type_tree) == out.unwrap().typ
                            &&& final(self).next_frame == frame_id + 1
                        },
                        Err(_) => out is None && final(self).next_frame == usize::MAX,
                    }
                }
            }),
    {
        if frame_id >= self.frames.len() {
            return Err(DecodeError::InvalidTag);
        }
        if frame_id != self.next_frame {
            return Err(DecodeError::OutOfOrderFrame);
        }
        let fr = self.frames[frame_id];
        let mut c = fr.range_start;
        let frame_bytes = match crate::byte_stream::read_exact(
            &frame_bytes_shared.data,
            &mut c,
            fr.range_end - fr.range_start,
        ) {
            Ok(v) => v,
            Err(_) => {
                proof {
                    assert(false);
                }
                Vec::new()
            },
        };
        match self.unpack_impl(frame_id, &frame_bytes, skip_video, skip_audio) {
            Ok(()) => {
                self.next_frame = frame_id + 1;
                Ok(())
            },
            Err(e) => {
                self.next_frame = usize::MAX;
                Err(e)
            },
        }
    }
}

/// A loaded container: its parsed state plus the shared compressed frame
/// payload buffer.
pub struct SmackerFile {
    pub file_info: SmackerFileInfo,
    pub frame_bytes_shared: FrameBytesShared,
}

impl SmackerFile {
    pub open spec fn wf(self) -> bool {
        &&& self.file_info.wf()
        &&& forall|j: int|
            0 <= j < self.file_info.frames@.len() ==> (
            #[trigger] self.file_info.frames@[j]).range_start
                <= self.file_info.frames@[j].range_end <= self.frame_bytes_shared.data@.len()
        &&& 8 * self.frame_bytes_shared.data@.len() <= usize::MAX
    }

    /// Loads a container from its bytes.
    pub fn load(bytes: &Vec<u8>) -> (r: Result<SmackerFile, DecodeError>)
        ensures
            match r {
                Ok(f) => f.wf() && f.file_info.loaded_from(f.frame_bytes_shared, bytes@),
                Err(e) => spec_load_error_allows(bytes@, e),
            },
    {
        let (file_info, frame_bytes_shared) = SmackerFileInfo::load(bytes)?;
        let f = SmackerFile { file_info, frame_bytes_shared };
        proof {
            let b = bytes@;
            let shared = f.frame_bytes_shared;
            let info = f.file_info;
            let hf = (le32_at(b, 20) as u32) as u8;
            let ring = hf & 0x01 != 0;
            let n = le32_at(b, 12) + (if ring {
                1int
            } else {
                0int
            });
            let tb_start = 104 + 5 * n;
            let ds_raw = tb_start + le32_at(b, 52);
            let ds = if ds_raw <= b.len() {
                ds_raw
            } else {
                b.len() as int
            };
            assert forall|j: int| 0 <= j < info.frames@.len() implies (
            #[trigger] info.frames@[j]).range_start <= info.frames@[j].range_end
                <= shared.data@.len() by {
                lemma_load_positions_mono(b, ds, j + 1, n);
                assert(info.frames@[j].range_end == spec_load_positions(b, ds, j + 1).1);
                assert(spec_frame_size(b, j) >= 0);
            }
        }
        Ok(f)
    }

    /// Decodes one frame in place.  Frames must be decoded in strictly
    /// increasing order starting at zero; any other order is refused with
    /// `OutOfOrderFrame` and no state change.  On success the whole decode
    /// state equals the spec-level frame outcome over this frame's payload
    /// bytes; a failed decode poisons the order counter.
    pub fn unpack(&mut self, frame_id: usize, skip_video: bool, skip_audio: bool) -> (r: Result<
        (),
        DecodeError,
    >)
        requires
            old(self).wf(),
        ensures
            final(self).wf(),
            final(self).frame_bytes_shared == old(self).frame_bytes_shared,
            final(self).file_info.frames@ == old(self).file_info.frames@,
            final(self).file_info.width == old(self).file_info.width,
            final(self).file_info.height == old(self).file_info.height,
            ({
                let info0 = old(self).file_info;
                let info1 = final(self).file_info;
                if frame_id >= info0.frames@.len() {
                    r == Result::<(), DecodeError>::Err(DecodeError::InvalidTag) && info1 == info0
                } else if frame_id != info0.next_frame {
                    r == Result::<(), DecodeError>::Err(DecodeError::OutOfOrderFrame) && info1
                        == info0
                } else {
                    let fr = info0.frames@[frame_id as int];
                    let fb = old(self).frame_bytes_shared.data@.subrange(
                        fr.range_start as int,
                        fr.range_end as int,
                    );
                    let out = spec_unpack_frame(
                        ts_opt(info0.m_map_tree),
                        ts_opt(info0.m_clr_tree),
                        ts_opt(info0.full_tree),
                        ts_opt(info0.type_tree),
                        info0.smacker_decode_context.palette@,
                        info0.smacker_decode_context.image@,
                        info0.audio_flags@,
                        fr.frame_flags.keyframe,
                        fr.frame_feature_flags,
                        fb,
                        info0.width as int,
                        info0.height as int,
                        skip_video,
                        skip_audio,
                    );
                    match r {
                        Ok(()) => {
                            &&& out is Some
                            &&& info1.smacker_decode_context.palette@ == out.unwrap().palette
                            &&& info1.smacker_decode_context.image@ == out.unwrap().image
                            &&& ts_opt(info1.m_map_tree) == out.unwrap().mmap
                            &&& ts_opt(info1.m_clr_tree) == out.unwrap().mclr
                            &&& ts_opt(info1.full_tree) == out.unwrap().full
                            &&& ts_opt(info1.type_tree) == out.unwrap().typ
                            &&& info1.next_frame == frame_id + 1
                        },
                        Err(_) => out is None && info1.next_frame == usize::MAX,
                    }
                }
            }),
    {
        self.file_info.unpack(&self.frame_bytes_shared, frame_id, skip_video, skip_audio)
    }
}


} // verus!
