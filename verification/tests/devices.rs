use pico_http::dht11::{decode_measurement, Error, Measurement};
use pico_http::Display;

fn bits_of_bytes(bytes: [u8; 5]) -> Vec<bool> {
    let mut bits = Vec::new();
    for byte in bytes {
        for k in 0..8 {
            bits.push((byte >> (7 - k)) & 1 == 1);
        }
    }
    bits
}

#[test]
fn decode_reads_humidity_and_temperature_in_tenths() {
    // humidity 65.2 %, temperature 21.3 degrees
    let data = [65u8, 2, 21, 3, 65 + 2 + 21 + 3];
    let m = decode_measurement(&bits_of_bytes(data)).unwrap();
    assert_eq!(m, Measurement { temperature: 213, humidity: 652 });
}

#[test]
fn decode_reads_negative_temperature() {
    // the top bit of the third byte carries the sign
    let data = [30u8, 0, 0x80 | 2, 5, 30u8.wrapping_add(0x82).wrapping_add(5)];
    let m = decode_measurement(&bits_of_bytes(data)).unwrap();
    assert_eq!(m.temperature, -25);
    assert_eq!(m.humidity, 300);
}

#[test]
fn decode_rejects_checksum_mismatch() {
    let data = [65u8, 2, 21, 3, 99];
    let r = decode_measurement(&bits_of_bytes(data));
    assert_eq!(r, Err(Error::CrcMismatch));
}

#[test]
fn decode_accepts_wrapping_checksum() {
    // the checksum is the wrapping sum of the four data bytes
    let data = [200u8, 200, 200, 200, 200u8.wrapping_mul(4)];
    let m = decode_measurement(&bits_of_bytes(data)).unwrap();
    assert_eq!(m.humidity, 2200);
}

#[test]
fn display_u8_lights_bits_most_significant_first() {
    let mut d = Display::new(false, false, false, false, false, false, false, false);
    d.display_u8(0b1010_0001);
    let levels = d.levels().clone();
    assert_eq!(levels, vec![true, false, true, false, false, false, false, true]);
}

#[test]
fn enable_and_disable_drive_every_led() {
    let mut d = Display::new(false, true, false, true, false, true, false, true);
    d.enable_all();
    assert!(d.levels().iter().all(|&l| l));
    d.disable_all();
    assert!(d.levels().iter().all(|&l| !l));
}

#[test]
fn display_new_stores_wiring_order() {
    let d = Display::new(true, false, false, false, false, false, false, true);
    // leftmost stored level is the last mantissa pin, rightmost the sign pin
    assert_eq!(
        d.levels().clone(),
        vec![true, false, false, false, false, false, false, true]
    );
}
