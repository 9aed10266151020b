use vstd::prelude::*;

verus! {

/// Powers of two, used to state what packed bit reads mean.
pub open spec fn pow2(n: nat) -> nat
    decreases n,
{
    if n == 0 {
        1
    } else {
        2 * pow2((n - 1) as nat)
    }
}

/// The bit at position `i` of a byte sequence, bits numbered from the least
/// significant bit of byte 0 upward.  Positions past the end read as zero:
/// end-of-stream is not an error for this format, the tail behaves as if
/// padded with zero bytes.
pub open spec fn bit_at(b: Seq<u8>, i: int) -> u8 {
    if 0 <= i && i < 8 * b.len() {
        (b[i / 8] >> ((i % 8) as u8)) & 1
    } else {
        0
    }
}

/// The value of `count` bits starting at bit position `pos`, packed with the
/// first bit read in the lowest output position.
pub open spec fn bits_value(b: Seq<u8>, pos: int, count: nat) -> nat
    decreases count,
{
    if count == 0 {
        0nat
    } else {
        (bit_at(b, pos) + 2 * bits_value(b, pos + 1, (count - 1) as nat)) as nat
    }
}

/// Bit positions advance by `count` but never past the end of the bytes:
/// reads beyond the end consume nothing.
pub open spec fn clamped_advance(b: Seq<u8>, pos: int, count: int) -> int {
    if pos + count <= 8 * b.len() {
        pos + count
    } else {
        8 * b.len() as int
    }
}

pub proof fn lemma_pow2_mono(a: nat, b: nat)
    requires
        a <= b,
    ensures
        pow2(a) <= pow2(b),
    decreases b,
{
    if a < b {
        lemma_pow2_mono(a, (b - 1) as nat);
    }
}

pub proof fn lemma_pow2_16()
    ensures
        pow2(16) == 0x1_0000,
{
    assert(pow2(0) == 1);
    assert(pow2(1) == 2);
    assert(pow2(2) == 4);
    assert(pow2(3) == 8);
    assert(pow2(4) == 16);
    assert(pow2(5) == 32);
    assert(pow2(6) == 64);
    assert(pow2(7) == 128);
    assert(pow2(8) == 256);
    assert(pow2(9) == 512);
    assert(pow2(10) == 1024);
    assert(pow2(11) == 2048);
    assert(pow2(12) == 4096);
    assert(pow2(13) == 8192);
    assert(pow2(14) == 16384);
    assert(pow2(15) == 32768);
    assert(pow2(16) == 65536);
}

pub proof fn lemma_bit_at_le_1(b: Seq<u8>, i: int)
    ensures
        bit_at(b, i) <= 1,
{
    if 0 <= i && i < 8 * b.len() {
        let byte = b[i / 8];
        let sh = (i % 8) as u8;
        assert((byte >> sh) & 1 <= 1) by (bit_vector);
    }
}

/// Reading one more bit appends it at the top of the packed value.
pub proof fn lemma_bits_value_snoc(b: Seq<u8>, pos: int, i: nat)
    ensures
        bits_value(b, pos, (i + 1) as nat) == bits_value(b, pos, i) + bit_at(b, pos + i) * pow2(i),
    decreases i,
{
    if i == 0 {
        assert(bits_value(b, pos, 1) == bit_at(b, pos) + 2 * bits_value(b, pos + 1, 0));
        assert(pow2(0) == 1);
        assert(pos + 0 == pos);
    } else {
        lemma_bits_value_snoc(b, pos + 1, (i - 1) as nat);
        let x = bit_at(b, pos + i) as int;
        let p = pow2((i - 1) as nat) as int;
        let v = bits_value(b, pos + 1, (i - 1) as nat) as int;
        assert(bits_value(b, pos + 1, i) == v + x * p);
        assert(2 * (v + x * p) == 2 * v + x * (2 * p)) by (nonlinear_arith);
        assert(pow2(i) == 2 * p);
        assert(x * (pow2(i) as int) == x * (2 * p)) by (nonlinear_arith)
            requires
                pow2(i) as int == 2 * p,
        ;
        assert(bits_value(b, pos, (i + 1) as nat) == bit_at(b, pos) + 2 * (v + x * p));
        assert(bits_value(b, pos, i) == bit_at(b, pos) + 2 * v);
    }
}

pub proof fn lemma_bits_value_bound(b: Seq<u8>, pos: int, count: nat)
    ensures
        bits_value(b, pos, count) < pow2(count),
    decreases count,
{
    if count > 0 {
        lemma_bit_at_le_1(b, pos);
        lemma_bits_value_bound(b, pos + 1, (count - 1) as nat);
    }
}

/// Pulls bits from a byte buffer, least-significant-bit of each byte first —
/// the order this video format stores its variable-width fields in.
pub struct BitReader {
    pub bytes: Vec<u8>,
    pub bit_pos: usize,
}

impl BitReader {
    /// The reader never moves past the end of its bytes, and the byte count
    /// is small enough that bit positions fit a machine word.
    pub open spec fn wf(self) -> bool {
        &&& self.bit_pos <= 8 * self.bytes@.len()
        &&& 8 * self.bytes@.len() <= usize::MAX
    }

    pub fn from_bytes(bytes: Vec<u8>) -> (r: BitReader)
        requires
            8 * bytes@.len() <= usize::MAX,
        ensures
            r.bytes == bytes,
            r.bit_pos == 0,
            r.wf(),
    {
        BitReader { bytes, bit_pos: 0 }
    }

    /// A reader positioned at the start of the byte at `byte_offset`.
    pub fn at_byte(bytes: Vec<u8>, byte_offset: usize) -> (r: BitReader)
        requires
            8 * bytes@.len() <= usize::MAX,
            byte_offset <= bytes@.len(),
        ensures
            r.bytes == bytes,
            r.bit_pos == 8 * byte_offset,
            r.wf(),
    {
        proof {
            assert(8 * byte_offset <= 8 * bytes@.len()) by (nonlinear_arith)
                requires
                    byte_offset <= bytes@.len(),
            ;
        }
        BitReader { bytes, bit_pos: 8 * byte_offset }
    }

    /// Reads `count` bits (`count <= 16` in this codec), packing the first
    /// bit read into the lowest bit of the result.  Reads past the end of
    /// the byte source silently yield zero bits.
    pub fn read_bits(&mut self, count: usize) -> (r: usize)
        requires
            old(self).wf(),
            count <= 16,
        ensures
            final(self).wf(),
            final(self).bytes@ == old(self).bytes@,
            r == bits_value(old(self).bytes@, old(self).bit_pos as int, count as nat),
            final(self).bit_pos == clamped_advance(
                old(self).bytes@,
                old(self).bit_pos as int,
                count as int,
            ),
            final(self).bit_pos >= old(self).bit_pos,
    {
        let ghost b = self.bytes@;
        let ghost start = self.bit_pos as int;
        let mut output: u32 = 0;
        let mut p: u32 = 1;
        let mut i: usize = 0;
        while i < count
            invariant
                self.bytes@ == b,
                self.wf(),
                i <= count,
                count <= 16,
                self.bit_pos == clamped_advance(b, start, i as int),
                self.bit_pos >= start,
                p == pow2(i as nat),
                output == bits_value(b, start, i as nat),
                output < p,
                p <= 0x1_0000,
            decreases count - i,
        {
            proof {
                lemma_bits_value_snoc(b, start, i as nat);
                lemma_bit_at_le_1(b, start + i);
                lemma_pow2_mono((i + 1) as nat, 16);
                lemma_pow2_16();
            }
            let byte_idx = self.bit_pos / 8;
            if byte_idx < self.bytes.len() {
                proof {
                    assert(self.bit_pos < 8 * b.len()) by (nonlinear_arith)
                        requires
                            self.bit_pos / 8 < b.len(),
                            byte_idx == self.bit_pos / 8,
                            byte_idx < b.len(),
                    ;
                }
                let sh = (self.bit_pos % 8) as u8;
                let byte = self.bytes[byte_idx];
                let bit = (byte >> sh) & 1;
                proof {
                    assert((byte >> sh) & 1 <= 1) by (bit_vector);
                    assert(bit == bit_at(b, start + i));
                    if bit == 0 {
                        assert((bit as u32) * p == 0);
                    } else {
                        assert((bit as u32) * p == p);
                    }
                }
                output = output + (bit as u32) * p;
                self.bit_pos = self.bit_pos + 1;
            } else {
                proof {
                    assert(self.bit_pos >= 8 * b.len()) by (nonlinear_arith)
                        requires
                            self.bit_pos / 8 >= b.len(),
                    ;
                    assert(bit_at(b, start + i) == 0);
                }
            }
            p = 2 * p;
            i = i + 1;
        }
        output as usize
    }
}

} // verus!
