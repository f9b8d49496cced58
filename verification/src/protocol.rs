//! The wire format: numeric field encodings, the payload checksum, and the
//! meaning of a checksum-verified payload as a sequence of records.

use vstd::prelude::*;

use crate::records::AsicEeg;
use crate::records::PacketType;

verus! {

/// The sync marker byte. Two in a row open a frame. The byte is reserved as
/// a marker, so a declared payload length is always below this value.
pub const SYNC: u8 = 0xaa;

/// The largest payload length a frame may declare: one less than [`SYNC`].
pub const MAX_PAYLOAD_LEN: u8 = 0xa9;

/// Big-endian unsigned 16-bit value of two bytes.
pub open spec fn be_u16(hi: u8, lo: u8) -> u16 {
    (hi * 256 + lo) as u16
}

/// Big-endian two's-complement signed 16-bit value of two bytes.
pub open spec fn be_i16(hi: u8, lo: u8) -> i16 {
    if hi >= 0x80 {
        (hi * 256 + lo - 0x10000) as i16
    } else {
        (hi * 256 + lo) as i16
    }
}

/// Big-endian unsigned 24-bit value of three bytes, zero-extended to 32 bits.
pub open spec fn be_u24(b0: u8, b1: u8, b2: u8) -> u32 {
    (b0 * 0x10000 + b1 * 0x100 + b2) as u32
}

/// The 8-bit wrapping sum of a byte sequence, as the checksum accumulator
/// forms it.
pub open spec fn sum_bytes(s: Seq<u8>) -> u8
    decreases s.len(),
{
    if s.len() == 0 {
        0
    } else {
        ((sum_bytes(s.drop_last()) + s.last()) % 256) as u8
    }
}

/// Appending one byte advances the wrapping sum by that byte.
pub proof fn lemma_sum_bytes_push(s: Seq<u8>, b: u8)
    ensures
        sum_bytes(s.push(b)) == ((sum_bytes(s) + b) % 256) as u8,
{
    assert(s.push(b).drop_last() =~= s);
}

/// The checksum byte a valid frame carries: the one's complement (bitwise
/// NOT) of the wrapping sum of its payload, which for one byte is the
/// difference from 255.
pub open spec fn checksum_complement(sum: u8) -> u8 {
    (255 - sum) as u8
}

/// Whether the record whose tag stands at cursor `n` of payload `p` requires
/// bytes that run past the end of `p`.
///
/// Only the bytes a tag's decoding rule actually reads count: a tag whose
/// nominal width overhangs the end, but whose remaining reads all land
/// inside, still decodes.
pub open spec fn truncated_at(p: Seq<u8>, n: int) -> bool
    recommends
        0 <= n < p.len(),
{
    let tag = p[n];
    if tag == 0xd0 || tag == 0xd1 || tag == 0xd2 {
        n + 1 >= p.len() || (p[n + 1] == 0x02 && n + 3 >= p.len())
    } else if tag == 0xd3 || tag == 0x02 || tag == 0x04 || tag == 0x05 || tag == 0x16 {
        n + 1 >= p.len()
    } else if tag == 0xd4 {
        n + 1 >= p.len() || (p[n + 1] == 0x01 && n + 2 >= p.len())
    } else if tag == 0x80 {
        n + 3 >= p.len()
    } else if tag == 0x83 {
        n + 25 >= p.len()
    } else {
        false
    }
}

/// The record a decode of payload `p` emits at cursor `n`.
pub open spec fn record_at(p: Seq<u8>, n: int) -> PacketType
    recommends
        0 <= n < p.len(),
{
    let tag = p[n];
    if truncated_at(p, n) {
        PacketType::PacketTruncated(tag)
    } else if tag == 0xd0 {
        if p[n + 1] == 0x02 {
            PacketType::HeadsetConnected(be_u16(p[n + 2], p[n + 3]))
        } else {
            PacketType::HeadsetConnectedUndefined
        }
    } else if tag == 0xd1 {
        if p[n + 1] == 0x02 {
            PacketType::HeadsetNotFound(be_u16(p[n + 2], p[n + 3]))
        } else if p[n + 1] == 0x00 {
            PacketType::NoHeadsetFound
        } else {
            PacketType::NotFoundUndefined
        }
    } else if tag == 0xd2 {
        if p[n + 1] == 0x02 {
            PacketType::HeadsetDisconnected(be_u16(p[n + 2], p[n + 3]))
        } else {
            PacketType::HeadsetDisconnectedUndefined
        }
    } else if tag == 0xd3 {
        if p[n + 1] == 0x00 {
            PacketType::RequestDenied
        } else {
            PacketType::HeadsetDisconnectedUndefined
        }
    } else if tag == 0xd4 {
        if p[n + 1] == 0x01 {
            if p[n + 2] == 0x00 {
                PacketType::Standby
            } else if p[n + 2] == 0x01 {
                PacketType::FindHeadset
            } else {
                PacketType::StandbyPacketUndefined
            }
        } else {
            PacketType::StandbyLengthUndefined
        }
    } else if tag == 0x02 {
        PacketType::PoorSignal(p[n + 1])
    } else if tag == 0x04 {
        PacketType::Attention(p[n + 1])
    } else if tag == 0x05 {
        PacketType::Meditation(p[n + 1])
    } else if tag == 0x16 {
        PacketType::Blink(p[n + 1])
    } else if tag == 0x80 {
        PacketType::RawValue(be_i16(p[n + 2], p[n + 3]))
    } else if tag == 0x83 {
        PacketType::AsicEeg(AsicEeg {
            delta: be_u24(p[n + 2], p[n + 3], p[n + 4]),
            theta: be_u24(p[n + 5], p[n + 6], p[n + 7]),
            low_alpha: be_u24(p[n + 8], p[n + 9], p[n + 10]),
            high_alpha: be_u24(p[n + 11], p[n + 12], p[n + 13]),
            low_beta: be_u24(p[n + 14], p[n + 15], p[n + 16]),
            high_beta: be_u24(p[n + 17], p[n + 18], p[n + 19]),
            low_gamma: be_u24(p[n + 20], p[n + 21], p[n + 22]),
            mid_gamma: be_u24(p[n + 23], p[n + 24], p[n + 25]),
        })
    } else {
        PacketType::PacketUndefined(tag)
    }
}

/// How many payload bytes the record at cursor `n` consumes, clipped to the
/// end of the payload.
///
/// A truncated record consumes everything that remains: decoding stops
/// there. The unrecognized sub-code of tag `0xd1` consumes the tag and the
/// sub-code byte, so that scanning always makes progress.
pub open spec fn width_at(p: Seq<u8>, n: int) -> int
    recommends
        0 <= n < p.len(),
{
    let tag = p[n];
    if truncated_at(p, n) {
        p.len() - n
    } else if tag == 0xd0 || tag == 0xd2 {
        if n + 4 <= p.len() {
            4
        } else {
            p.len() - n
        }
    } else if tag == 0xd1 {
        if p[n + 1] == 0x02 {
            4
        } else {
            2
        }
    } else if tag == 0xd3 || tag == 0x02 || tag == 0x04 || tag == 0x05 || tag == 0x16 {
        2
    } else if tag == 0xd4 {
        if n + 3 <= p.len() {
            3
        } else {
            p.len() - n
        }
    } else if tag == 0x80 {
        4
    } else if tag == 0x83 {
        26
    } else {
        1
    }
}

/// The scan always advances, and never past the end of the payload.
pub proof fn lemma_width_at_bounds(p: Seq<u8>, n: int)
    requires
        0 <= n < p.len(),
    ensures
        1 <= width_at(p, n),
        n + width_at(p, n) <= p.len(),
{
}

/// The records of a payload from cursor `n` on: one record per recognized
/// tag, a catch-all record per unrecognized tag, and a final truncation
/// record if a tag's required bytes run out.
pub open spec fn decode_from(p: Seq<u8>, n: int) -> Seq<PacketType>
    decreases p.len() - n,
{
    if n < 0 || n >= p.len() {
        Seq::empty()
    } else {
        seq![record_at(p, n)] + decode_from(p, n + width_at(p, n))
    }
}

/// The full decode of a checksum-verified payload.
pub open spec fn decode_payload(p: Seq<u8>) -> Seq<PacketType> {
    decode_from(p, 0)
}

/// Reads a big-endian unsigned 16-bit field.
pub(crate) fn read_be_u16(hi: u8, lo: u8) -> (r: u16)
    ensures
        r == be_u16(hi, lo),
{
    (hi as u16) * 256 + (lo as u16)
}

/// Reads a big-endian two's-complement signed 16-bit field.
pub(crate) fn read_be_i16(hi: u8, lo: u8) -> (r: i16)
    ensures
        r == be_i16(hi, lo),
{
    let magnitude: u32 = (hi as u32) * 256 + (lo as u32);
    if magnitude >= 0x8000 {
        ((magnitude as i32) - 0x10000) as i16
    } else {
        magnitude as i16
    }
}

/// Reads a big-endian unsigned 24-bit field into 32 bits.
pub(crate) fn read_be_u24(b0: u8, b1: u8, b2: u8) -> (r: u32)
    ensures
        r == be_u24(b0, b1, b2),
{
    (b0 as u32) * 0x10000 + (b1 as u32) * 0x100 + (b2 as u32)
}

} // verus!
