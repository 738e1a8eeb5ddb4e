//! Decoding a humidity/temperature sensor transfer.
//!
//! The sensor answers a handshake with forty pulses, each carrying one bit.
//! The embedding program times the pulses on the data pin and hands the
//! bits here; decoding assembles them into five bytes, checks the checksum,
//! and computes the reading. Timing the pin itself is hardware work and
//! stays with the embedding program.

use vstd::prelude::*;

verus! {

/// How a sensor transfer can fail.
#[derive(Clone, Copy, Debug, PartialEq, Eq, Structural)]
pub enum Error {
    /// A pulse did not arrive in time.
    Timeout,
    /// The checksum byte does not match the four data bytes.
    CrcMismatch,
    /// The data pin could not be driven or read.
    Gpio,
}

/// One sensor reading.
#[derive(Clone, Copy, Debug, Default, PartialEq, Eq, Structural)]
pub struct Measurement {
    /// The measured temperature in tenths of degrees Celsius.
    pub temperature: i16,
    /// The measured humidity in tenths of a percent.
    pub humidity: u16,
}

/// The number the bit sequence denotes, most significant bit first.
pub open spec fn bits_value(bits: Seq<bool>) -> nat
    decreases bits.len(),
{
    if bits.len() == 0 {
        0
    } else {
        bits_value(bits.drop_last()) * 2 + (if bits.last() {
            1nat
        } else {
            0nat
        })
    }
}

/// Two to the power `n`.
pub open spec fn two_pow(n: nat) -> nat
    decreases n,
{
    if n == 0 {
        1
    } else {
        2 * two_pow((n - 1) as nat)
    }
}

/// Two to a smaller power is no larger.
proof fn lemma_two_pow_monotone(a: nat, b: nat)
    requires
        a <= b,
    ensures
        two_pow(a) <= two_pow(b),
    decreases b,
{
    if a < b {
        lemma_two_pow_monotone(a, (b - 1) as nat);
    }
}

/// A sequence of `n` bits denotes a number below two to the `n`.
proof fn lemma_bits_value_bound(bits: Seq<bool>)
    ensures
        bits_value(bits) < two_pow(bits.len()),
    decreases bits.len(),
{
    if bits.len() > 0 {
        lemma_bits_value_bound(bits.drop_last());
    }
}

/// The byte the transfer's bits spell at byte position `j`: bits
/// `8 j .. 8 j + 8`, most significant first.
pub open spec fn byte_of_bits(bits: Seq<bool>, j: int) -> nat {
    bits_value(bits.subrange(8 * j, 8 * j + 8))
}

/// Assembles eight transfer bits into one byte.
fn assemble_byte(bits: &Vec<bool>, j: usize) -> (r: u8)
    requires
        8 * j + 8 <= bits@.len(),
    ensures
        r as nat == byte_of_bits(bits@, j as int),
{
    proof {
        lemma_bits_value_bound(bits@.subrange(8 * j, 8 * j + 8));
        assert(two_pow(8) == 256) by {
            assert(two_pow(0) == 1);
            assert(two_pow(1) == 2);
            assert(two_pow(2) == 4);
            assert(two_pow(3) == 8);
            assert(two_pow(4) == 16);
            assert(two_pow(5) == 32);
            assert(two_pow(6) == 64);
            assert(two_pow(7) == 128);
        }
    }
    let n: usize = bits.len();
    let mut acc: u16 = 0;
    let mut k: usize = 0;
    while k < 8
        invariant
            n == bits@.len(),
            8 * j + 8 <= n,
            0 <= k <= 8,
            acc as nat == bits_value(bits@.subrange(8 * j as int, 8 * j + k)),
            bits_value(bits@.subrange(8 * j as int, 8 * j + k)) < two_pow(k as nat),
            two_pow(8) == 256,
        decreases 8 - k,
    {
        proof {
            assert(bits@.subrange(8 * j as int, 8 * j + k + 1).drop_last() =~= bits@.subrange(
                8 * j as int,
                8 * j + k,
            ));
            assert(bits@.subrange(8 * j as int, 8 * j + k + 1).last() == bits@[8 * j + k]);
            lemma_bits_value_bound(bits@.subrange(8 * j as int, 8 * j + k + 1));
            assert(two_pow((k + 1) as nat) == 2 * two_pow(k as nat));
            lemma_two_pow_monotone(k as nat, 8);
        }
        let bit: u16 = if bits[8 * j + k] {
            1
        } else {
            0
        };
        acc = acc * 2 + bit;
        k = k + 1;
    }
    acc as u8
}

/// What the five transfer bytes decode to: the checksum byte must equal
/// the wrapping sum of the four data bytes; the humidity is the first two
/// bytes read as tenths, and the temperature the next two, the top bit of
/// the third byte carrying the sign.
pub open spec fn spec_decode(d0: u8, d1: u8, d2: u8, d3: u8, d4: u8) -> Result<
    Measurement,
    Error,
> {
    if (d0 + d1 + d2 + d3) % 256 != d4 {
        Err(Error::CrcMismatch)
    } else {
        let magnitude = (d2 & 0x7f) * 10 + d3;
        Ok(
            Measurement {
                temperature: if d2 & 0x80 != 0 {
                    (-magnitude) as i16
                } else {
                    magnitude as i16
                },
                humidity: (d0 * 10 + d1) as u16,
            },
        )
    }
}

/// Decodes the forty bits of one sensor transfer into a reading; fails
/// exactly when the checksum byte does not match the data bytes.
pub fn decode_measurement(bits: &Vec<bool>) -> (r: Result<Measurement, Error>)
    requires
        bits@.len() == 40,
    ensures
        r == spec_decode(
            byte_of_bits(bits@, 0) as u8,
            byte_of_bits(bits@, 1) as u8,
            byte_of_bits(bits@, 2) as u8,
            byte_of_bits(bits@, 3) as u8,
            byte_of_bits(bits@, 4) as u8,
        ),
{
    let d0 = assemble_byte(bits, 0);
    let d1 = assemble_byte(bits, 1);
    let d2 = assemble_byte(bits, 2);
    let d3 = assemble_byte(bits, 3);
    let d4 = assemble_byte(bits, 4);
    let sum: u16 = d0 as u16 + d1 as u16 + d2 as u16 + d3 as u16;
    let crc: u8 = (sum % 256) as u8;
    if crc != d4 {
        return Err(Error::CrcMismatch);
    }
    let masked: u8 = d2 & 0x7f;
    assert(masked <= 0x7f) by (bit_vector)
        requires
            masked == d2 & 0x7f,
    ;
    let magnitude: i16 = (masked as i16) * 10 + (d3 as i16);
    let temperature: i16 = if d2 & 0x80 != 0 {
        -magnitude
    } else {
        magnitude
    };
    let humidity: u16 = (d0 as u16) * 10 + (d1 as u16);
    Ok(Measurement { temperature, humidity })
}

} // verus!
