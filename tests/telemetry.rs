use proxy::data::{Data, TELEMETRY_LEN};
use proxy::error::Error;

fn report() -> Vec<u8> {
    vec![
        0b1010_0101, // digital bitmap
        0x01, 0x02, // analog 0
        0x03, 0x04, // analog 1
        0x0F, 0xFF, // analog 2
        0x0C, 0x80, // battery
        0x09, 0xC4, // temperature
        0x00, // unused top byte of the pressure
        0x01, 0x8A, 0x88, // pressure
        0x12, 0x34, // humidity
    ]
}

#[test]
fn decodes_every_field() {
    let d = Data::try_from(&report()).unwrap();
    assert_eq!(d.gpio_value, 0b1010_0101);
    assert_eq!(d.adc_value, [0x0102, 0x0304, 0x0FFF]);
    assert_eq!(d.bat_value, 0x0C80);
    assert_eq!(d.temperature, 2500);
    assert_eq!(d.pressure, 101_000);
    assert_eq!(d.humidity, 0x1234);
}

#[test]
fn negative_temperature_is_signed() {
    let mut b = report();
    b[9] = 0xFF;
    b[10] = 0x9C;
    let d = Data::try_from(&b).unwrap();
    assert_eq!(d.temperature, -100);
}

#[test]
fn lowest_temperature() {
    let mut b = report();
    b[9] = 0x80;
    b[10] = 0x00;
    assert_eq!(Data::try_from(&b).unwrap().temperature, i16::MIN);
}

#[test]
fn pressure_ignores_top_byte() {
    let mut b = report();
    b[11] = 0xFF;
    b[12] = 0xFF;
    b[13] = 0xFF;
    b[14] = 0xFF;
    assert_eq!(Data::try_from(&b).unwrap().pressure, 0x00FF_FFFF);
}

#[test]
fn short_buffer_is_rejected() {
    let b = report();
    let r = Data::try_from(&b[..16]);
    assert_eq!(r.unwrap_err(), Error::TelemetryTooShort { size: 16, needed: TELEMETRY_LEN });
}

#[test]
fn empty_buffer_is_rejected() {
    let r = Data::try_from(&[]);
    assert_eq!(r.unwrap_err(), Error::TelemetryTooShort { size: 0, needed: 17 });
}

#[test]
fn longer_buffer_is_accepted() {
    let mut b = report();
    b.push(0xEE);
    assert_eq!(Data::try_from(&b).unwrap(), Data::try_from(&report()).unwrap());
}
