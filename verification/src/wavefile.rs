use vstd::prelude::*;
use crate::byte_stream::{le16_at, le32_at, read_u16, read_u32, skip_bytes};
use crate::errors::DecodeError;

verus! {

/// One RIFF chunk header: a four-byte tag and a length.
#[derive(Clone, Copy, PartialEq, Eq, Structural, Debug)]
pub struct ChunkHeader {
    pub signature: u32,
    pub size: u32,
}

impl ChunkHeader {
    pub fn read_from_stream(bytes: &Vec<u8>, pos: &mut usize) -> (r: Result<
        ChunkHeader,
        DecodeError,
    >)
        ensures
            match r {
                Ok(v) => {
                    &&& *old(pos) + 8 <= bytes@.len()
                    &&& v.signature == le32_at(bytes@, *old(pos) as int)
                    &&& v.size == le32_at(bytes@, *old(pos) + 4)
                    &&& *final(pos) == *old(pos) + 8
                },
                Err(e) => e == DecodeError::UnexpectedEnd && *final(pos) == *old(pos),
            },
    {
        let start = *pos;
        if bytes.len() < 8 || start > bytes.len() - 8 {
            return Err(DecodeError::UnexpectedEnd);
        }
        let mut p = start;
        let signature = read_u32(bytes, &mut p)?;
        let size = read_u32(bytes, &mut p)?;
        *pos = p;
        Ok(ChunkHeader { signature, size })
    }
}

/// The PCM format chunk.
#[derive(Clone, Copy, PartialEq, Eq, Structural, Debug)]
pub struct FmtChunk {
    pub format: u16,
    pub channels: u16,
    pub sampling_rate: u32,
    pub data_rate: u32,
    pub bytes_per_sample: u16,
    pub bits_per_sample: u16,
}

impl FmtChunk {
    pub open spec fn parsed_at(self, b: Seq<u8>, pos: int) -> bool {
        &&& self.format == le16_at(b, pos)
        &&& self.channels == le16_at(b, pos + 2)
        &&& self.sampling_rate == le32_at(b, pos + 4)
        &&& self.data_rate == le32_at(b, pos + 8)
        &&& self.bytes_per_sample == le16_at(b, pos + 12)
        &&& self.bits_per_sample == le16_at(b, pos + 14)
    }

    /// Reads the sixteen-byte format chunk; a non-PCM format tag is
    /// malformed for this reader.
    pub fn read_from_stream(bytes: &Vec<u8>, pos: &mut usize) -> (r: Result<FmtChunk, DecodeError>)
        ensures
            match r {
                Ok(v) => {
                    &&& *old(pos) + 16 <= bytes@.len()
                    &&& v.parsed_at(bytes@, *old(pos) as int)
                    &&& v.format == 1
                    &&& *final(pos) == *old(pos) + 16
                },
                Err(e) => (e == DecodeError::UnexpectedEnd || e == DecodeError::InvalidTag)
                    && *final(pos) == *old(pos),
            },
    {
        let start = *pos;
        if bytes.len() < 16 || start > bytes.len() - 16 {
            return Err(DecodeError::UnexpectedEnd);
        }
        let mut p = start;
        let format = read_u16(bytes, &mut p)?;
        let channels = read_u16(bytes, &mut p)?;
        let sampling_rate = read_u32(bytes, &mut p)?;
        let data_rate = read_u32(bytes, &mut p)?;
        let bytes_per_sample = read_u16(bytes, &mut p)?;
        let bits_per_sample = read_u16(bytes, &mut p)?;
        if format != 1 {
            return Err(DecodeError::InvalidTag);
        }
        *pos = p;
        Ok(
            FmtChunk {
                format,
                channels,
                sampling_rate,
                data_rate,
                bytes_per_sample,
                bits_per_sample,
            },
        )
    }
}

/// A PCM WAV file reduced to its format and 16-bit samples.
#[derive(Clone, PartialEq, Debug)]
pub struct WavContent {
    pub fmt: FmtChunk,
    pub data: Vec<u16>,
}

impl WavContent {
    /// Parses a RIFF/WAVE buffer: signature checks, the format chunk,
    /// then chunks are skipped until the data chunk, whose samples are
    /// read as little-endian words.
    #[verifier::loop_isolation(false)]
    pub fn read(bytes: &Vec<u8>) -> (r: Result<WavContent, DecodeError>)
        ensures
            match r {
                Ok(v) => {
                    &&& le32_at(bytes@, 0) == 0x4646_4952
                    &&& le32_at(bytes@, 8) == 0x4556_4157
                    &&& v.fmt.parsed_at(bytes@, 20)
                    &&& exists|dp: int|
                        0 <= dp && #[trigger] le32_at(bytes@, dp) == 0x6174_6164 && v.data@.len()
                            == le32_at(bytes@, dp + 4) / 2 && forall|k: int|
                            0 <= k < v.data@.len() ==> v.data@[k] == le16_at(bytes@, dp + 8 + 2 * k)
                },
                Err(e) => e == DecodeError::UnexpectedEnd || e == DecodeError::InvalidTag,
            },
    {
        let mut pos: usize = 0;
        let riff = ChunkHeader::read_from_stream(bytes, &mut pos)?;
        if riff.signature != 0x4646_4952 {
            return Err(DecodeError::InvalidTag);
        }
        let mut wave_id_pos = pos;
        let wave_id = read_u32(bytes, &mut wave_id_pos)?;
        if wave_id != 0x4556_4157 {
            return Err(DecodeError::InvalidTag);
        }
        pos = wave_id_pos;
        let fmt_header = ChunkHeader::read_from_stream(bytes, &mut pos)?;
        if fmt_header.signature != 0x2074_6D66 || fmt_header.size != 0x10 {
            return Err(DecodeError::InvalidTag);
        }
        let fmt = FmtChunk::read_from_stream(bytes, &mut pos)?;
        let mut data_header = ChunkHeader::read_from_stream(bytes, &mut pos)?;
        let ghost mut dh_pos: int = pos - 8;
        while data_header.signature != 0x6174_6164
            invariant
                pos <= bytes@.len(),
                dh_pos == pos - 8,
                0 <= dh_pos,
                data_header.signature == le32_at(bytes@, dh_pos),
                data_header.size == le32_at(bytes@, dh_pos + 4),
            decreases bytes@.len() - pos,
        {
            let before = pos;
            skip_bytes(bytes, &mut pos, data_header.size as usize)?;
            if pos == before {
                return Err(DecodeError::UnexpectedEnd);
            }
            data_header = ChunkHeader::read_from_stream(bytes, &mut pos)?;
            proof {
                dh_pos = pos - 8;
            }
        }
        let data_size = (data_header.size / 2) as usize;
        let mut data: Vec<u16> = Vec::new();
        let mut k: usize = 0;
        let ghost sample_base: int = pos as int;
        while k < data_size
            invariant
                k <= data_size,
                pos == sample_base + 2 * k,
                data@.len() == k,
                forall|j: int| 0 <= j < k ==> data@[j] == le16_at(bytes@, sample_base + 2 * j),
            decreases data_size - k,
        {
            let sample = read_u16(bytes, &mut pos)?;
            data.push(sample);
            k = k + 1;
        }
        Ok(WavContent { fmt, data })
    }

    /// The serialized bytes of this content: RIFF header, format chunk,
    /// data chunk, all fields little-endian.
    pub open spec fn spec_wav_bytes_len(self) -> int {
        44 + 2 * (self.data@.len() as int)
    }

    /// Serializes this content back to WAV bytes.
    #[verifier::loop_isolation(false)]
    pub fn write(&self) -> (r: Result<Vec<u8>, DecodeError>)
        ensures
            match r {
                Ok(out) => {
                    &&& out@.len() == self.spec_wav_bytes_len()
                    &&& le32_at(out@, 0) == 0x4646_4952
                    &&& le32_at(out@, 4) == (2 * self.data@.len() + 36) as u32
                    &&& le32_at(out@, 8) == 0x4556_4157
                    &&& le32_at(out@, 12) == 0x2074_6D66
                    &&& le32_at(out@, 16) == 0x10
                    &&& self.fmt.parsed_at(out@, 20)
                    &&& le32_at(out@, 36) == 0x6174_6164
                    &&& le32_at(out@, 40) == (2 * self.data@.len()) as u32
                    &&& forall|k: int|
                        0 <= k < self.data@.len() ==> le16_at(out@, 44 + 2 * k) == self.data@[k]
                },
                Err(e) => e == DecodeError::InvalidTag && 2 * self.data@.len() + 36
                    > u32::MAX,
            },
    {
        if self.data.len() > ((u32::MAX - 36) / 2) as usize {
            return Err(DecodeError::InvalidTag);
        }
        let mut out: Vec<u8> = Vec::new();
        push_u32(&mut out, 0x4646_4952);
        push_u32(&mut out, (2 * self.data.len() + 36) as u32);
        push_u32(&mut out, 0x4556_4157);
        push_u32(&mut out, 0x2074_6D66);
        push_u32(&mut out, 0x10);
        push_u16(&mut out, self.fmt.format);
        push_u16(&mut out, self.fmt.channels);
        push_u32(&mut out, self.fmt.sampling_rate);
        push_u32(&mut out, self.fmt.data_rate);
        push_u16(&mut out, self.fmt.bytes_per_sample);
        push_u16(&mut out, self.fmt.bits_per_sample);
        push_u32(&mut out, 0x6174_6164);
        push_u32(&mut out, (2 * self.data.len()) as u32);
        let mut k: usize = 0;
        while k < self.data.len()
            invariant
                k <= self.data@.len(),
                out@.len() == 44 + 2 * k,
                le32_at(out@, 0) == 0x4646_4952,
                le32_at(out@, 4) == (2 * self.data@.len() + 36) as u32,
                le32_at(out@, 8) == 0x4556_4157,
                le32_at(out@, 12) == 0x2074_6D66,
                le32_at(out@, 16) == 0x10,
                self.fmt.parsed_at(out@, 20),
                le32_at(out@, 36) == 0x6174_6164,
                le32_at(out@, 40) == (2 * self.data@.len()) as u32,
                forall|j: int| 0 <= j < k ==> le16_at(out@, 44 + 2 * j) == self.data@[j],
            decreases self.data@.len() - k,
        {
            push_u16(&mut out, self.data[k]);
            k = k + 1;
        }
        Ok(out)
    }
}

/// Appends a little-endian word.
pub fn push_u16(out: &mut Vec<u8>, v: u16)
    ensures
        final(out)@.len() == old(out)@.len() + 2,
        final(out)@ == old(out)@ + seq![(v & 0xFF) as u8, (v / 0x100) as u8],
        le16_at(final(out)@, old(out)@.len() as int) == v,
        forall|j: int| 0 <= j < old(out)@.len() ==> final(out)@[j] == old(out)@[j],
{
    let b0 = (v & 0xFF) as u8;
    let b1 = (v / 0x100) as u8;
    out.push(b0);
    out.push(b1);
    proof {
        assert(out@ =~= old(out)@ + seq![(v & 0xFF) as u8, (v / 0x100) as u8]);
        assert((v & 0xFF) == v % 0x100) by (bit_vector);
        assert(le16_at(out@, old(out)@.len() as int) == (v % 0x100) + 0x100 * ((v / 0x100) % 0x100));
    }
}

/// Appends a little-endian double word.
pub fn push_u32(out: &mut Vec<u8>, v: u32)
    ensures
        final(out)@.len() == old(out)@.len() + 4,
        le32_at(final(out)@, old(out)@.len() as int) == v,
        forall|j: int| 0 <= j < old(out)@.len() ==> final(out)@[j] == old(out)@[j],
{
    let b0 = (v & 0xFF) as u8;
    let b1 = ((v / 0x100) & 0xFF) as u8;
    let b2 = ((v / 0x1_0000) & 0xFF) as u8;
    let b3 = ((v / 0x100_0000) & 0xFF) as u8;
    out.push(b0);
    out.push(b1);
    out.push(b2);
    out.push(b3);
    proof {
        assert((v & 0xFF) == v % 0x100) by (bit_vector);
        let q1 = v / 0x100;
        let q2 = v / 0x1_0000;
        let q3 = v / 0x100_0000;
        assert((q1 & 0xFF) == q1 % 0x100) by (bit_vector);
        assert((q2 & 0xFF) == q2 % 0x100) by (bit_vector);
        assert((q3 & 0xFF) == q3 % 0x100) by (bit_vector);
    }
}

} // verus!
