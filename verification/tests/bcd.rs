use async_nucleo::bcd::{bcd_to_bin, bin_to_bcd};

#[test]
fn bin_to_bcd_puts_tens_in_high_nibble() {
    assert_eq!(bin_to_bcd(0), 0x00);
    assert_eq!(bin_to_bcd(7), 0x07);
    assert_eq!(bin_to_bcd(59), 0x59);
    assert_eq!(bin_to_bcd(99), 0x99);
    assert_eq!(bin_to_bcd(123), 0xC3);
}

#[test]
fn bin_to_bcd_wraps_tens_above_fifteen() {
    // 200 has twenty tens: the high nibble keeps 20 mod 16 = 4.
    assert_eq!(bin_to_bcd(200), 0x40);
    assert_eq!(bin_to_bcd(255), 0x95);
}

#[test]
fn bcd_to_bin_reads_both_nibbles() {
    assert_eq!(bcd_to_bin(0x00), 0);
    assert_eq!(bcd_to_bin(0x42), 42);
    assert_eq!(bcd_to_bin(0x59), 59);
    assert_eq!(bcd_to_bin(0xFF), 165);
}

#[test]
fn bcd_round_trip_below_160() {
    for bin in 0u8..160 {
        assert_eq!(bcd_to_bin(bin_to_bcd(bin)), bin);
    }
}

#[test]
fn bcd_value_round_trip_for_decimal_low_nibble() {
    for bcd in 0u8..=255 {
        if bcd % 16 < 10 {
            assert_eq!(bin_to_bcd(bcd_to_bin(bcd)), bcd);
        }
    }
}
