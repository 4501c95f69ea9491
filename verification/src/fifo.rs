use vstd::prelude::*;

verus! {

/// The value of bit `i` (counting from the least significant end) of `b`.
pub open spec fn bit_of(b: u8, i: u8) -> bool
    recommends
        i < 8,
{
    (b >> i) & 1 == 1
}

/// The value of bit `i` of a byte sequence read as one bit stream, least
/// significant bit of each byte first — the order bits travel on the air
/// interface.
pub open spec fn stream_bit(bytes: Seq<u8>, i: int) -> bool
    recommends
        0 <= i < 8 * bytes.len(),
{
    bit_of(bytes[i / 8], (i % 8) as u8)
}

/// A snapshot of the reader's receive FIFO.
///
/// `valid_bytes` is the number of bytes drained from the FIFO (equal to the
/// buffer's length), and `valid_bits` the number of valid bits in the last
/// byte, `0` meaning the last byte is fully valid. Frames that are not a
/// multiple of 8 bits long arise during bit-level anticollision.
pub struct FifoData {
    /// The drained FIFO contents.
    pub buffer: Vec<u8>,
    /// The number of valid bytes in the buffer.
    pub valid_bytes: usize,
    /// The number of valid bits in the last byte; 0 means all 8.
    pub valid_bits: usize,
}

impl FifoData {
    /// Well-formedness: the byte count matches the buffer and the bit count
    /// stays below one byte.
    pub open spec fn wf(&self) -> bool {
        &&& self.valid_bytes == self.buffer@.len()
        &&& self.valid_bits <= 7
    }

    /// Builds a FIFO snapshot from its parts.
    pub fn new(buffer: Vec<u8>, valid_bits: usize) -> (r: FifoData)
        requires
            valid_bits <= 7,
        ensures
            r.wf(),
            r.buffer@ == buffer@,
            r.valid_bytes == buffer@.len(),
            r.valid_bits == valid_bits,
    {
        let valid_bytes = buffer.len();
        FifoData { buffer, valid_bytes, valid_bits }
    }

    /// Splices the received bits into `dst` directly after the `dst_valid_bits`
    /// bits already known there.
    ///
    /// The received data is assumed to be bit-aligned for the append (the
    /// receiver was told to store the first received bit at the matching bit
    /// offset), so the first received byte is merged under a mask that keeps
    /// the low `dst_valid_bits % 8` bits of the destination byte, and the
    /// remaining bytes are copied whole. Returns the number of valid bits in
    /// `dst` after the copy.
    pub fn copy_bits_to(&self, dst: &mut Vec<u8>, dst_valid_bits: u8) -> (r: u8)
        requires
            self.wf(),
            self.valid_bytes > 0 ==> dst_valid_bits / 8 + self.valid_bytes <= old(dst)@.len(),
            dst_valid_bits + 8 * self.valid_bytes <= 256,
        ensures
            final(dst)@.len() == old(dst)@.len(),
            self.valid_bytes == 0 ==> final(dst)@ == old(dst)@ && r == dst_valid_bits,
            self.valid_bytes > 0 ==> {
                let lead = dst_valid_bits / 8;
                let keep = dst_valid_bits % 8;
                &&& r == dst_valid_bits + 8 * (self.valid_bytes - 1) + self.valid_bits
                &&& forall|j: int|
                    0 <= j < old(dst)@.len() && !(lead <= j < lead + self.valid_bytes)
                        ==> final(dst)@[j] == old(dst)@[j]
                &&& forall|b: u8|
                    b < keep ==> bit_of(#[trigger] final(dst)@[lead as int], b) == bit_of(
                        old(dst)@[lead as int],
                        b,
                    )
                &&& forall|b: u8|
                    keep <= b < 8 ==> bit_of(#[trigger] final(dst)@[lead as int], b) == bit_of(
                        self.buffer@[0],
                        b,
                    )
                &&& forall|k: int|
                    1 <= k < self.valid_bytes ==> final(dst)@[lead + k] == self.buffer@[k]
                // read as a bit stream: the bits already known stay, and the
                // received bits follow them, in order
                &&& forall|i: int|
                    0 <= i < dst_valid_bits ==> #[trigger] stream_bit(final(dst)@, i)
                        == stream_bit(old(dst)@, i)
                &&& forall|i: int|
                    dst_valid_bits <= i < 8 * (lead + self.valid_bytes)
                        ==> #[trigger] stream_bit(final(dst)@, i) == stream_bit(
                        self.buffer@,
                        i - 8 * lead,
                    )
            },
    {
        if self.valid_bytes == 0 {
            // nothing to copy
            return dst_valid_bits;
        }
        let lead: usize = (dst_valid_bits / 8) as usize;
        let keep: u8 = dst_valid_bits % 8;
        let mask: u8 = 0xFFu8 << keep;
        let merged: u8 = (self.buffer[0] & mask) | (dst[lead] & !mask);
        proof {
            lemma_mask_merge(self.buffer@[0], old(dst)@[lead as int], keep);
        }
        dst.set(lead, merged);
        let total: usize = dst.len();
        let len: usize = self.valid_bytes - 1;
        let mut k: usize = 0;
        while k < len
            invariant
                len == self.valid_bytes - 1,
                self.wf(),
                self.valid_bytes > 0,
                dst@.len() == total,
                lead + self.valid_bytes <= total,
                k <= len,
                dst@.len() == old(dst)@.len(),
                dst@[lead as int] == merged,
                forall|j: int|
                    0 <= j < old(dst)@.len() && !(lead <= j < lead + self.valid_bytes)
                        ==> dst@[j] == old(dst)@[j],
                forall|t: int| 1 <= t <= k ==> dst@[lead + t] == self.buffer@[t],
            decreases len - k,
        {
            dst.set(lead + 1 + k, self.buffer[1 + k]);
            k = k + 1;
        }
        proof {
            lemma_bytes_to_stream(old(dst)@, dst@, self.buffer@, dst_valid_bits, self.valid_bytes as int);
        }
        dst_valid_bits + (8 * len + self.valid_bits) as u8
    }
}

/// Lifts the byte-level reading of a finished splice to the bit-stream
/// level: bits below `dvb` kept, bits from `dvb` on taken from the received
/// buffer in stream order.
proof fn lemma_bytes_to_stream(pre: Seq<u8>, post: Seq<u8>, buf: Seq<u8>, dvb: u8, vb: int)
    requires
        0 < vb == buf.len(),
        dvb / 8 + vb <= pre.len(),
        post.len() == pre.len(),
        forall|j: int|
            0 <= j < pre.len() && !(dvb / 8 <= j < dvb / 8 + vb) ==> post[j] == pre[j],
        forall|b: u8|
            b < dvb % 8 ==> #[trigger] bit_of(post[dvb as int / 8], b) == bit_of(
                pre[dvb as int / 8],
                b,
            ),
        forall|b: u8|
            dvb % 8 <= b < 8 ==> #[trigger] bit_of(post[dvb as int / 8], b) == bit_of(buf[0], b),
        forall|t: int| 1 <= t < vb ==> post[dvb / 8 + t] == buf[t],
    ensures
        forall|i: int|
            0 <= i < dvb ==> #[trigger] stream_bit(post, i) == stream_bit(pre, i),
        forall|i: int|
            dvb <= i < 8 * (dvb / 8 + vb) ==> #[trigger] stream_bit(post, i) == stream_bit(
                buf,
                i - 8 * (dvb / 8),
            ),
{
    let lead = dvb as int / 8;
    let keep = dvb as int % 8;
    assert forall|i: int| 0 <= i < dvb implies #[trigger] stream_bit(post, i) == stream_bit(
        pre,
        i,
    ) by {
        let j = i / 8;
        let t = i % 8;
        if j < lead {
            assert(post[j] == pre[j]);
        } else {
            // the byte holding the boundary: below it, i / 8 cannot exceed
            // dvb / 8, and the bit offset stays below dvb % 8
            assert(j == lead && t < keep);
            assert(bit_of(post[lead], t as u8) == bit_of(pre[lead], t as u8));
        }
    }
    assert forall|i: int| dvb <= i < 8 * (lead + vb) implies #[trigger] stream_bit(post, i)
        == stream_bit(buf, i - 8 * lead) by {
        let j = i / 8;
        let t = i % 8;
        assert(i == 8 * j + t);
        assert(lead <= j < lead + vb);
        let s = i - 8 * lead;
        assert(s == 8 * (j - lead) + t);
        assert(s / 8 == j - lead && s % 8 == t);
        if j == lead {
            assert(keep <= t);
            assert(bit_of(post[lead], t as u8) == bit_of(buf[0], t as u8));
        } else {
            assert(post[j] == buf[j - lead]);
        }
    }
}

/// Bitwise reading of the mask merge: bits at and above `keep` come from `x`,
/// bits below `keep` stay those of `y`.
proof fn lemma_mask_merge(x: u8, y: u8, keep: u8)
    requires
        keep < 8,
    ensures
        forall|b: u8|
            b < keep ==> bit_of(#[trigger] ((x & (0xFFu8 << keep)) | (y & !(0xFFu8 << keep))), b)
                == bit_of(y, b),
        forall|b: u8|
            keep <= b < 8 ==> bit_of(
                #[trigger] ((x & (0xFFu8 << keep)) | (y & !(0xFFu8 << keep))),
                b,
            ) == bit_of(x, b),
{
    assert forall|b: u8| b < keep implies bit_of(
        ((x & (0xFFu8 << keep)) | (y & !(0xFFu8 << keep))),
        b,
    ) == bit_of(y, b) by {
        assert(b < keep && keep < 8 ==> ((((x & (0xFFu8 << keep)) | (y & !(0xFFu8 << keep))) >> b)
            & 1 == 1) == (((y >> b) & 1) == 1)) by (bit_vector);
    }
    assert forall|b: u8| keep <= b < 8 implies bit_of(
        ((x & (0xFFu8 << keep)) | (y & !(0xFFu8 << keep))),
        b,
    ) == bit_of(x, b) by {
        assert(keep <= b < 8 ==> ((((x & (0xFFu8 << keep)) | (y & !(0xFFu8 << keep))) >> b) & 1
            == 1) == (((x >> b) & 1) == 1)) by (bit_vector);
    }
}

} // verus!
