use vstd::prelude::*;

verus! {

/// Number of bytes in one express-scan frame.
pub const FRAME_LEN: usize = 132;

/// Number of cabins carried by one frame.
pub const CABINS_PER_FRAME: usize = 32;

#[verifier::external_type_specification]
#[verifier::external_body]
pub struct ExInstant(std::time::Instant);

/// Relies on `std::time::Instant::now`: it hands back the current instant; nothing
/// is claimed of its value.
pub assume_specification[ std::time::Instant::now ]() -> std::time::Instant;

/// Why a frame was refused.
#[derive(Debug, Clone, Copy, PartialEq, Eq, Structural)]
pub enum FrameError {
    /// The high nibbles of the first two bytes do not spell the sync value `0xA5`.
    Desync,
    /// The XOR of the payload does not match the checksum in the low nibbles.
    ChecksumMismatch,
}

/// One validated express-scan frame.
pub struct ScanPacket {
    pub timestamp: std::time::Instant,
    pub start_bit: bool,
    pub start_angle_q6: u16,
    pub ultra_cabins: [u32; 32],
}

/// The high nibbles of bytes 0 and 1 form the sync value `0xA5`.
pub open spec fn frame_sync_ok(b: Seq<u8>) -> bool {
    b[0] / 16 == 0xA && b[1] / 16 == 0x5
}

/// The checksum stored in the low nibbles of bytes 0 (low half) and 1 (high half).
pub open spec fn frame_stored_checksum(b: Seq<u8>) -> int {
    (b[0] % 16) + (b[1] % 16) * 16
}

/// XOR of all bytes of `s`.
pub open spec fn xor_fold(s: Seq<u8>) -> u8
    decreases s.len(),
{
    if s.len() == 0 {
        0
    } else {
        xor_fold(s.drop_last()) ^ s.last()
    }
}

/// The XOR of every byte from offset 2 to the end equals the stored checksum.
pub open spec fn frame_checksum_ok(b: Seq<u8>) -> bool {
    xor_fold(b.subrange(2, b.len() as int)) == frame_stored_checksum(b)
}

/// The top bit of byte 3 flags the start of a new revolution.
pub open spec fn frame_start_bit(b: Seq<u8>) -> bool {
    b[3] >= 128
}

/// Little-endian 16 bits of bytes 2 and 3 without the start bit.
pub open spec fn frame_start_angle(b: Seq<u8>) -> int {
    b[2] + (b[3] % 128) * 256
}

/// Little-endian 32-bit word at byte `off`.
pub open spec fn le_u32_at(b: Seq<u8>, off: int) -> int {
    b[off] + b[off + 1] * 0x100 + b[off + 2] * 0x1_0000 + b[off + 3] * 0x100_0000
}

/// Cabin `k` of a frame: the little-endian word at byte `4 + 4k`.
pub open spec fn frame_cabin(b: Seq<u8>, k: int) -> int {
    le_u32_at(b, 4 + 4 * k)
}

impl ScanPacket {
    /// The packet's contents as decoded from the frame `b`, the timestamp aside.
    pub open spec fn decodes_from(&self, b: Seq<u8>) -> bool {
        &&& self.start_bit == frame_start_bit(b)
        &&& self.start_angle_q6 == frame_start_angle(b)
        &&& forall|k: int| 0 <= k < 32 ==> #[trigger] self.ultra_cabins@[k] == frame_cabin(b, k)
    }

    /// Validates one 132-byte frame and splits it into start flag, start angle
    /// and 32 cabins. The sync value is checked first, then the checksum.
    pub fn from_buffer(bytes: &[u8; 132]) -> (r: Result<ScanPacket, FrameError>)
        ensures
            r matches Err(FrameError::Desync) <==> !frame_sync_ok(bytes@),
            r matches Err(FrameError::ChecksumMismatch) <==> frame_sync_ok(bytes@)
                && !frame_checksum_ok(bytes@),
            r is Ok <==> frame_sync_ok(bytes@) && frame_checksum_ok(bytes@),
            r matches Ok(p) ==> p.decodes_from(bytes@),
    {
        if !(bytes[0] / 16 == 0xA && bytes[1] / 16 == 0x5) {
            return Err(FrameError::Desync);
        }
        let checksum: u8 = bytes[0] % 16 + (bytes[1] % 16) * 16;
        let mut check: u8 = 0;
        let mut i: usize = 2;
        while i < FRAME_LEN
            invariant
                2 <= i <= FRAME_LEN,
                bytes@.len() == FRAME_LEN,
                check == xor_fold(bytes@.subrange(2, i as int)),
            decreases FRAME_LEN - i,
        {
            assert(bytes@.subrange(2, i + 1).drop_last() == bytes@.subrange(2, i as int));
            check = check ^ bytes[i];
            i = i + 1;
        }
        if check != checksum {
            return Err(FrameError::ChecksumMismatch);
        }
        let start_bit = bytes[3] >= 128;
        let start_angle_q6: u16 = bytes[2] as u16 + (bytes[3] % 128) as u16 * 256;
        let mut ultra_cabins = [0u32; 32];
        let mut k: usize = 0;
        while k < CABINS_PER_FRAME
            invariant
                k <= CABINS_PER_FRAME,
                bytes@.len() == FRAME_LEN,
                ultra_cabins@.len() == 32,
                forall|m: int| 0 <= m < k ==> #[trigger] ultra_cabins@[m] == frame_cabin(bytes@, m),
            decreases CABINS_PER_FRAME - k,
        {
            let off = 4 + 4 * k;
            let cabin: u32 = bytes[off] as u32 + bytes[off + 1] as u32 * 0x100 + bytes[off + 2] as u32
                * 0x1_0000 + bytes[off + 3] as u32 * 0x100_0000;
            ultra_cabins[k] = cabin;
            k = k + 1;
        }
        Ok(ScanPacket { timestamp: std::time::Instant::now(), start_bit, start_angle_q6, ultra_cabins })
    }
}

proof fn lemma_xor_fold_flip(s: Seq<u8>, k: int, mask: u8)
    requires
        0 <= k < s.len(),
    ensures
        xor_fold(s.update(k, s[k] ^ mask)) == xor_fold(s) ^ mask,
    decreases s.len(),
{
    let t = s.update(k, s[k] ^ mask);
    let a = xor_fold(s.drop_last());
    let l = s.last();
    if k == s.len() - 1 {
        assert(t.drop_last() == s.drop_last());
        assert(a ^ (l ^ mask) == (a ^ l) ^ mask) by (bit_vector);
    } else {
        assert(t.drop_last() == s.drop_last().update(k, s[k] ^ mask));
        lemma_xor_fold_flip(s.drop_last(), k, mask);
        assert((a ^ mask) ^ l == (a ^ l) ^ mask) by (bit_vector);
    }
}

/// Flipping any single bit of the payload (bytes 2 to the end) of a valid frame
/// leaves its sync value intact and makes its checksum fail.
pub proof fn lemma_checksum_detects_bit_flip(b: Seq<u8>, i: int, bit: u8)
    requires
        b.len() == FRAME_LEN,
        2 <= i < FRAME_LEN,
        bit < 8,
        frame_sync_ok(b),
        frame_checksum_ok(b),
    ensures
        frame_sync_ok(b.update(i, b[i] ^ (1u8 << bit))),
        !frame_checksum_ok(b.update(i, b[i] ^ (1u8 << bit))),
{
    let mask: u8 = 1u8 << bit;
    let f = b.update(i, b[i] ^ mask);
    let p = b.subrange(2, b.len() as int);
    assert(f.subrange(2, f.len() as int) == p.update(i - 2, p[i - 2] ^ mask));
    lemma_xor_fold_flip(p, i - 2, mask);
    let x = xor_fold(p);
    assert(x ^ mask != x) by (bit_vector)
        requires
            mask == 1u8 << bit,
            bit < 8,
    ;
}

} // verus!
