//! Binary-coded decimal, as the DS3231 stores its time and date registers:
//! the tens digit in the high nibble, the units digit in the low nibble.
use vstd::prelude::*;

verus! {

/// The number that a BCD byte stands for: ten times its high nibble plus its
/// low nibble (nibbles above nine are taken at face value).
pub open spec fn bcd_value(bcd: u8) -> int {
    (bcd as int / 16) * 10 + (bcd as int % 16)
}

/// The BCD byte of a number: its tens in the high nibble and its units in the
/// low nibble; a tens count above fifteen wraps within the nibble.
pub open spec fn bcd_encoding(bin: u8) -> u8 {
    (((bin as int / 10) % 16) * 16 + bin as int % 10) as u8
}

/// Both nibbles of the byte are decimal digits.
pub open spec fn is_bcd(b: u8) -> bool {
    b as int / 16 < 10 && b as int % 16 < 10
}

/// Converts a binary number to its BCD byte.
pub fn bin_to_bcd(bin: u8) -> (bcd: u8)
    ensures
        bcd == bcd_encoding(bin),
{
    let r: u8 = ((bin / 10) << 4) | (bin % 10);
    assert(r == (((bin / 10) % 16) * 16 + bin % 10) as u8) by (bit_vector)
        requires
            r == ((bin / 10) << 4) | (bin % 10),
    ;
    r
}

/// Converts a BCD byte to the binary number it stands for.
pub fn bcd_to_bin(bcd: u8) -> (bin: u8)
    ensures
        bin == bcd_value(bcd),
{
    let hi: u8 = bcd >> 4;
    let lo: u8 = bcd & 0xF;
    assert(hi == bcd / 16 && lo == bcd % 16) by (bit_vector)
        requires
            hi == bcd >> 4,
            lo == bcd & 0xF,
    ;
    hi * 10 + lo
}

/// Decoding the BCD byte of any number below 160 gives that number back
/// (a tens count up to fifteen fits the high nibble).
pub proof fn lemma_bcd_round_trip(bin: u8)
    requires
        bin < 160,
    ensures
        bcd_value(bcd_encoding(bin)) == bin,
{
}

/// Encoding the value of a BCD byte whose low nibble is a decimal digit gives
/// the byte back.
pub proof fn lemma_bcd_value_round_trip(bcd: u8)
    requires
        bcd % 16 < 10,
    ensures
        0 <= bcd_value(bcd) < 160,
        bcd_encoding(bcd_value(bcd) as u8) == bcd,
{
}

/// The BCD byte of a number below one hundred holds two decimal digits.
pub proof fn lemma_bcd_encoding_is_bcd(bin: u8)
    requires
        bin < 100,
    ensures
        is_bcd(bcd_encoding(bin)),
{
}

} // verus!
