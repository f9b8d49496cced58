//! The typed records that a decoded telemetry frame carries.

use vstd::prelude::*;

verus! {

/// One report of the eight EEG band-power values.
///
/// Each field holds an unsigned 24-bit big-endian value from the wire,
/// widened to 32 bits with zero-extension.
#[derive(PartialEq, Eq, Structural, Debug, Clone, Copy)]
pub struct AsicEeg {
    pub delta: u32,
    pub theta: u32,
    pub low_alpha: u32,
    pub high_alpha: u32,
    pub low_beta: u32,
    pub high_beta: u32,
    pub low_gamma: u32,
    pub mid_gamma: u32,
}

impl AsicEeg {
    /// A report with every band power set to zero.
    pub fn new() -> (r: AsicEeg)
        ensures
            r == (AsicEeg {
                delta: 0,
                theta: 0,
                low_alpha: 0,
                high_alpha: 0,
                low_beta: 0,
                high_beta: 0,
                low_gamma: 0,
                mid_gamma: 0,
            }),
    {
        AsicEeg {
            delta: 0,
            theta: 0,
            low_alpha: 0,
            high_alpha: 0,
            low_beta: 0,
            high_beta: 0,
            low_gamma: 0,
            mid_gamma: 0,
        }
    }
}

/// One decoded record: headset lifecycle events, command acknowledgements,
/// and telemetry values.
///
/// `PacketTruncated` reports a recognized tag whose required trailing bytes
/// were absent from the payload; it carries the tag byte and ends the decode
/// of that payload.
#[derive(PartialEq, Eq, Structural, Debug)]
pub enum PacketType {
    HeadsetConnected(u16),
    HeadsetConnectedUndefined,
    HeadsetNotFound(u16),
    NoHeadsetFound,
    NotFoundUndefined,
    HeadsetDisconnected(u16),
    HeadsetDisconnectedUndefined,
    RequestDenied,
    Standby,
    FindHeadset,
    StandbyPacketUndefined,
    StandbyLengthUndefined,
    PoorSignal(u8),
    Attention(u8),
    Meditation(u8),
    Blink(u8),
    RawValue(i16),
    AsicEeg(AsicEeg),
    PacketUndefined(u8),
    PacketTruncated(u8),
}

} // verus!
