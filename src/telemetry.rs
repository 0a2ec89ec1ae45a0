use vstd::prelude::*;

verus! {

/// Bus address of the first temperature sensor; the second one sits at the next address.
pub const SENSOR_BASE_ADDRESS: u8 = 0x48;

/// Number of sensor slots polled each cycle.
pub const SENSOR_SLOTS: usize = 2;

/// The 12-bit register value held in the high bits of a 2-byte read.
pub open spec fn raw_register(b0: u8, b1: u8) -> int {
    b0 * 16 + b1 / 16
}

/// The 12-bit two's-complement reading, sign-extended.
pub open spec fn temperature_of(b0: u8, b1: u8) -> int {
    let raw = raw_register(b0, b1);
    if raw > 2047 {
        raw - 4096
    } else {
        raw
    }
}

/// Decodes the 2-byte register read of a sensor into a signed reading.
pub fn decode_temperature(data: [u8; 2]) -> (r: i16)
    ensures
        r == temperature_of(data@[0], data@[1]),
        -2048 <= r <= 2047,
{
    let b0 = data[0];
    let b1 = data[1];
    assert(((b0 as u16) << 4) | ((b1 as u16) >> 4) == b0 * 16 + b1 / 16) by (bit_vector);
    let raw: u16 = ((b0 as u16) << 4) | ((b1 as u16) >> 4);
    if raw > 2047 {
        (raw as i16) - 4096
    } else {
        raw as i16
    }
}

} // verus!

verus! {

/// The bus address of the sensor in a slot.
pub fn sensor_address(slot: u8) -> (r: u8)
    requires
        slot < SENSOR_SLOTS,
    ensures
        r == SENSOR_BASE_ADDRESS + slot,
{
    SENSOR_BASE_ADDRESS + slot
}

/// The reading a sensor read gives for its slot this cycle: a failed read gives
/// none, and the slot keeps its previous value.
pub fn reading_for(read: Option<[u8; 2]>) -> (r: Option<i16>)
    ensures
        read is None ==> r is None,
        read matches Some(d) ==> r == Some(temperature_of(d@[0], d@[1]) as i16),
{
    match read {
        Some(d) => Some(decode_temperature(d)),
        None => None,
    }
}

/// The power-good flag and the level of its indicator for the level read on
/// the power-good input. The indicator is active low: it is driven low while
/// power is good.
pub fn power_good_outputs(input_high: bool) -> (r: (bool, bool))
    ensures
        r.0 == input_high,
        r.1 == !input_high,
{
    (input_high, !input_high)
}

} // verus!
