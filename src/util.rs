use vstd::prelude::*;

verus! {

/// First payload byte of a node's configuration pull request, and of the pushed reply.
pub const PACKET_CONFIG: u8 = 0x02;

/// First payload byte of a telemetry report.
pub const PACKET_DATA: u8 = 0x08;

/// Length of a telemetry report, marker byte included.
pub const DATA_PACKET_LEN: usize = 18;

/// Number of digital pins, and of bits in a pin mask.
pub const PIN_SLOTS: u8 = 8;

/// Number of analog channels that a telemetry report carries.
pub const ANALOG_CHANNELS: u8 = 3;

/// One-character command payload that switches an output on.
pub const PAYLOAD_ON_BYTE: u8 = 0x31;

} // verus!
