//! Decoding of the six bytes that the sensor returns for one measurement.
//!
//! Byte 0 is the status byte and plays no part here. Bytes 1 and 2 and the
//! high nibble of byte 3 are the humidity code; the low nibble of byte 3 and
//! bytes 4 and 5 are the temperature code. Both codes have twenty bits.
//!
//! A code `c` stands for the humidity `c / 2^20 * 100` percent, or for the
//! temperature `c / 2^20 * 200 - 50` degrees Celsius. This module gives both
//! in millionths, rounded down, so that everything stays in integers.

use vstd::prelude::*;

verus! {

/// Number of raw codes: two to the twentieth.
pub const CODE_SPAN: u32 = 0x10_0000;

/// Length of the measurement read.
pub const SAMPLE_LEN: usize = 6;

/// The humidity code packed into six raw bytes.
pub open spec fn humidity_code_of(raw: Seq<u8>) -> int
    recommends
        raw.len() == 6,
{
    raw[1] as int * 4096 + raw[2] as int * 16 + raw[3] as int / 16
}

/// The temperature code packed into six raw bytes.
pub open spec fn temperature_code_of(raw: Seq<u8>) -> int
    recommends
        raw.len() == 6,
{
    (raw[3] as int % 16) * 65536 + raw[4] as int * 256 + raw[5] as int
}

/// Relative humidity that a code stands for, in millionths of a percent,
/// rounded down.
pub open spec fn humidity_micro_percent_of(code: int) -> int {
    code * 100_000_000 / 0x10_0000
}

/// Temperature that a code stands for, in millionths of a degree Celsius,
/// rounded down.
pub open spec fn temperature_micro_celsius_of(code: int) -> int {
    code * 200_000_000 / 0x10_0000 - 50_000_000
}

/// The two raw codes of one measurement.
#[derive(Clone, Copy, Debug, PartialEq, Eq, Structural)]
pub struct RawSensorData {
    /// Humidity code, twenty bits.
    pub raw_humidity: u32,
    /// Temperature code, twenty bits.
    pub raw_temp: u32,
}

impl RawSensorData {
    /// Both codes fit in twenty bits.
    pub open spec fn wf(self) -> bool {
        self.raw_humidity < 0x10_0000 && self.raw_temp < 0x10_0000
    }

    /// What six raw bytes decode to.
    pub open spec fn decoded(raw: Seq<u8>) -> RawSensorData
        recommends
            raw.len() == 6,
    {
        RawSensorData {
            raw_humidity: humidity_code_of(raw) as u32,
            raw_temp: temperature_code_of(raw) as u32,
        }
    }

    /// Unpacks the two codes. Total: every six bytes are a valid sample, and
    /// nothing is clamped.
    pub fn from_raw_bytes(data: [u8; 6]) -> (sample: RawSensorData)
        ensures
            sample == Self::decoded(data@),
            sample.raw_humidity == humidity_code_of(data@),
            sample.raw_temp == temperature_code_of(data@),
            sample.wf(),
    {
        let b1: u8 = data[1];
        let b2: u8 = data[2];
        let b3: u8 = data[3];
        let b4: u8 = data[4];
        let b5: u8 = data[5];
        let raw_humidity: u32 = ((b1 as u32) << 12) | ((b2 as u32) << 4) | ((b3 as u32) >> 4);
        let raw_temp: u32 = (((b3 as u32) & 0x0F) << 16) | ((b4 as u32) << 8) | (b5 as u32);
        assert(((b1 as u32) << 12) | ((b2 as u32) << 4) | ((b3 as u32) >> 4) == (b1 as u32) * 4096
            + (b2 as u32) * 16 + (b3 as u32) / 16) by (bit_vector);
        assert((((b3 as u32) & 0x0F) << 16) | ((b4 as u32) << 8) | (b5 as u32) == ((b3 as u32)
            % 16) * 65536 + (b4 as u32) * 256 + (b5 as u32)) by (bit_vector);
        RawSensorData { raw_humidity, raw_temp }
    }

    /// Relative humidity in millionths of a percent, rounded down.
    pub fn humidity_micro_percent(&self) -> (h: u64)
        ensures
            h == humidity_micro_percent_of(self.raw_humidity as int),
            self.wf() ==> h < 100_000_000,
    {
        (self.raw_humidity as u64) * 100_000_000 / 0x10_0000
    }

    /// Temperature in millionths of a degree Celsius, rounded down.
    pub fn temperature_micro_celsius(&self) -> (t: i64)
        ensures
            t == temperature_micro_celsius_of(self.raw_temp as int),
            self.wf() ==> -50_000_000 <= t < 150_000_000,
    {
        ((self.raw_temp as u64) * 200_000_000 / 0x10_0000) as i64 - 50_000_000
    }
}

/// Six bytes that carry the given status byte and the two codes.
pub open spec fn packed(status: u8, humidity: int, temperature: int) -> Seq<u8>
    recommends
        0 <= humidity < 0x10_0000,
        0 <= temperature < 0x10_0000,
{
    seq![
        status,
        (humidity / 4096) as u8,
        (humidity / 16 % 256) as u8,
        ((humidity % 16) * 16 + temperature / 65536) as u8,
        (temperature / 256 % 256) as u8,
        (temperature % 256) as u8,
    ]
}

/// The code nearest to a humidity given in millionths of a percent. The top
/// of the scale, which no code reaches, goes to the largest code.
pub open spec fn nearest_humidity_code(micro_percent: int) -> int {
    let code = (micro_percent * 0x10_0000 + 50_000_000) / 100_000_000;
    if code > 0xF_FFFF {
        0xF_FFFF
    } else {
        code
    }
}

/// The code nearest to a temperature given in millionths of a degree
/// Celsius. The top of the scale goes to the largest code.
pub open spec fn nearest_temperature_code(micro_celsius: int) -> int {
    let code = ((micro_celsius + 50_000_000) * 0x10_0000 + 100_000_000) / 200_000_000;
    if code > 0xF_FFFF {
        0xF_FFFF
    } else {
        code
    }
}

/// Packing two codes and decoding the bytes gives the codes back, whatever
/// the status byte.
pub proof fn lemma_decode_packed(status: u8, humidity: int, temperature: int)
    requires
        0 <= humidity < 0x10_0000,
        0 <= temperature < 0x10_0000,
    ensures
        packed(status, humidity, temperature).len() == 6,
        humidity_code_of(packed(status, humidity, temperature)) == humidity,
        temperature_code_of(packed(status, humidity, temperature)) == temperature,
        RawSensorData::decoded(packed(status, humidity, temperature)) == (RawSensorData {
            raw_humidity: humidity as u32,
            raw_temp: temperature as u32,
        }),
{
}

/// Every six bytes are the packing of their own status byte and codes: the
/// decoder loses nothing but the status byte.
pub proof fn lemma_packed_decode(raw: Seq<u8>)
    requires
        raw.len() == 6,
    ensures
        0 <= humidity_code_of(raw) < 0x10_0000,
        0 <= temperature_code_of(raw) < 0x10_0000,
        packed(raw[0], humidity_code_of(raw), temperature_code_of(raw)) == raw,
{
    let h = humidity_code_of(raw);
    let t = temperature_code_of(raw);
    let p = packed(raw[0], h, t);
    assert(h / 4096 == raw[1] as int);
    assert(h / 16 % 256 == raw[2] as int);
    assert(h % 16 == raw[3] as int / 16);
    assert(t / 65536 == raw[3] as int % 16);
    assert(t / 256 % 256 == raw[4] as int);
    assert(t % 256 == raw[5] as int);
    assert(p[3] == raw[3]);
    assert(p =~= raw);
}

/// The status byte plays no part in decoding.
pub proof fn lemma_status_ignored(a: Seq<u8>, b: Seq<u8>)
    requires
        a.len() == 6,
        b.len() == 6,
        forall|i: int| 1 <= i < 6 ==> a[i] == b[i],
    ensures
        RawSensorData::decoded(a) == RawSensorData::decoded(b),
{
}

/// A humidity between 0 and 100 percent, taken to its nearest code and back,
/// is off by no more than one code step (a step is a little over 95
/// millionths of a percent).
pub proof fn lemma_humidity_round_trip(micro_percent: int)
    requires
        0 <= micro_percent <= 100_000_000,
    ensures
        0 <= nearest_humidity_code(micro_percent) < 0x10_0000,
        -96 <= humidity_micro_percent_of(nearest_humidity_code(micro_percent)) - micro_percent
            <= 96,
{
    let scaled = micro_percent * 0x10_0000 + 50_000_000;
    let code = scaled / 100_000_000;
    assert(100_000_000 * code <= scaled < 100_000_000 * code + 100_000_000);
    let near = nearest_humidity_code(micro_percent);
    let back = near * 100_000_000 / 0x10_0000;
    assert(0x10_0000 * back <= near * 100_000_000 < 0x10_0000 * back + 0x10_0000);
}

/// A temperature between -50 and 150 degrees Celsius, taken to its nearest
/// code and back, is off by no more than one code step (a step is a little
/// under 191 millionths of a degree).
pub proof fn lemma_temperature_round_trip(micro_celsius: int)
    requires
        -50_000_000 <= micro_celsius <= 150_000_000,
    ensures
        0 <= nearest_temperature_code(micro_celsius) < 0x10_0000,
        -191 <= temperature_micro_celsius_of(nearest_temperature_code(micro_celsius))
            - micro_celsius <= 191,
{
    let scaled = (micro_celsius + 50_000_000) * 0x10_0000 + 100_000_000;
    let code = scaled / 200_000_000;
    assert(200_000_000 * code <= scaled < 200_000_000 * code + 200_000_000);
    let near = nearest_temperature_code(micro_celsius);
    let back = near * 200_000_000 / 0x10_0000;
    assert(0x10_0000 * back <= near * 200_000_000 < 0x10_0000 * back + 0x10_0000);
}

/// The whole path: a humidity and a temperature within the sensor's scale are
/// taken to their nearest codes, packed into six bytes behind any status
/// byte, and decoded. What comes out is within one code step of what went in.
/// The bound is met: 100 percent comes back as the largest code, 96
/// millionths lower.
pub proof fn lemma_round_trip(status: u8, micro_percent: int, micro_celsius: int)
    requires
        0 <= micro_percent <= 100_000_000,
        -50_000_000 <= micro_celsius <= 150_000_000,
    ensures
        ({
            let raw = packed(
                status,
                nearest_humidity_code(micro_percent),
                nearest_temperature_code(micro_celsius),
            );
            let sample = RawSensorData::decoded(raw);
            &&& sample.wf()
            &&& -96 <= humidity_micro_percent_of(sample.raw_humidity as int) - micro_percent
                <= 96
            &&& -191 <= temperature_micro_celsius_of(sample.raw_temp as int) - micro_celsius
                <= 191
        }),
{
    lemma_humidity_round_trip(micro_percent);
    lemma_temperature_round_trip(micro_celsius);
    lemma_decode_packed(
        status,
        nearest_humidity_code(micro_percent),
        nearest_temperature_code(micro_celsius),
    );
}

/// A larger code never stands for a smaller value.
pub proof fn lemma_scale_monotonic(a: int, b: int)
    requires
        a <= b,
    ensures
        humidity_micro_percent_of(a) <= humidity_micro_percent_of(b),
        temperature_micro_celsius_of(a) <= temperature_micro_celsius_of(b),
{
}

} // verus!
