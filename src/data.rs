use vstd::prelude::*;

use crate::error::Error;

verus! {

/// Length of a telemetry buffer: the report without its marker byte.
pub const TELEMETRY_LEN: usize = 17;

/// A big-endian unsigned 16-bit value.
pub open spec fn be_u16(hi: u8, lo: u8) -> u16 {
    (hi as nat * 256 + lo as nat) as u16
}

/// A big-endian two's-complement 16-bit value.
pub open spec fn be_i16(hi: u8, lo: u8) -> i16 {
    if hi < 128 {
        (hi as int * 256 + lo as int) as i16
    } else {
        (hi as int * 256 + lo as int - 65536) as i16
    }
}

/// A big-endian 24-bit value, zero-extended.
pub open spec fn be_u24(hi: u8, mid: u8, lo: u8) -> u32 {
    (hi as nat * 65536 + mid as nat * 256 + lo as nat) as u32
}

/// One telemetry report of the node.
///
/// Buffer layout, offsets in bytes: 0 digital bitmap; 1, 3, 5 the analog channels;
/// 7 battery; 9 temperature, signed; 11 unused top byte of the pressure; 12 pressure
/// in three bytes; 15 humidity. Every multi-byte value is big-endian.
#[derive(Debug, PartialEq, Eq, Clone, Copy)]
pub struct Data {
    pub gpio_value: u8,
    pub adc_value: [u16; 3],
    pub bat_value: u16,
    pub temperature: i16,
    pub pressure: u32,
    pub humidity: u16,
}

/// The report that a buffer of at least `TELEMETRY_LEN` bytes holds.
pub open spec fn data_fields(b: Seq<u8>, d: Data) -> bool {
    &&& d.gpio_value == b[0]
    &&& d.adc_value@ == seq![be_u16(b[1], b[2]), be_u16(b[3], b[4]), be_u16(b[5], b[6])]
    &&& d.bat_value == be_u16(b[7], b[8])
    &&& d.temperature == be_i16(b[9], b[10])
    &&& d.pressure == be_u24(b[12], b[13], b[14])
    &&& d.humidity == be_u16(b[15], b[16])
}

fn read_u16(hi: u8, lo: u8) -> (r: u16)
    ensures
        r == be_u16(hi, lo),
{
    (hi as u16) * 256 + (lo as u16)
}

fn read_i16(hi: u8, lo: u8) -> (r: i16)
    ensures
        r == be_i16(hi, lo),
{
    let u: u16 = read_u16(hi, lo);
    if hi < 128 {
        u as i16
    } else {
        ((u - 32768) as i16) - 32767 - 1
    }
}

fn read_u24(hi: u8, mid: u8, lo: u8) -> (r: u32)
    ensures
        r == be_u24(hi, mid, lo),
{
    (hi as u32) * 65536 + (mid as u32) * 256 + (lo as u32)
}

impl Data {
    /// Decodes a telemetry buffer; fails when it is shorter than the layout.
    pub fn try_from(bytes: &[u8]) -> (r: Result<Data, Error>)
        ensures
            r is Ok <==> bytes@.len() >= TELEMETRY_LEN,
            r matches Ok(d) ==> data_fields(bytes@, d),
            r is Err ==> r == Err::<Data, Error>(
                Error::TelemetryTooShort { size: bytes@.len() as usize, needed: TELEMETRY_LEN },
            ),
    {
        if bytes.len() < TELEMETRY_LEN {
            return Err(Error::TelemetryTooShort { size: bytes.len(), needed: TELEMETRY_LEN });
        }
        let adc_value = [
            read_u16(bytes[1], bytes[2]),
            read_u16(bytes[3], bytes[4]),
            read_u16(bytes[5], bytes[6]),
        ];
        let d = Data {
            gpio_value: bytes[0],
            adc_value,
            bat_value: read_u16(bytes[7], bytes[8]),
            temperature: read_i16(bytes[9], bytes[10]),
            pressure: read_u24(bytes[12], bytes[13], bytes[14]),
            humidity: read_u16(bytes[15], bytes[16]),
        };
        assert(d.adc_value@ =~= seq![
            be_u16(bytes@[1], bytes@[2]),
            be_u16(bytes@[3], bytes@[4]),
            be_u16(bytes@[5], bytes@[6]),
        ]);
        Ok(d)
    }
}

} // verus!
