//! A second, smaller DS3231 interface: clock and date in plain fields, with
//! the hour in 12-hour (with meridiem) or 24-hour format.
use vstd::prelude::*;
use crate::bcd::{bcd_encoding, bcd_value, bin_to_bcd, bcd_to_bin, lemma_bcd_round_trip};

verus! {

/// Address of the first clock register (seconds).
pub const CLOCK: u8 = 0x00;

/// Address of the first date register (day of month).
pub const DATE: u8 = 0x04;

/// Address of the control register.
pub const CTRL: u8 = 0x0E;

/// Before or after noon.
#[derive(Clone, Copy, Debug, PartialEq, Eq, Structural)]
pub enum Meridiem {
    AM,
    PM,
}

/// Hour in 12-hour format with its meridiem, or in 24-hour format.
#[derive(Clone, Copy, Debug, PartialEq, Eq)]
pub enum Hour {
    H12((u8, Meridiem)),
    H24(u8),
}

/// Square-wave output frequency.
#[derive(Clone, Copy, Debug, PartialEq, Eq, Structural)]
pub enum Freq {
    Hz1,
    Hz1024,
    Hz4096,
    Hz8192,
}

impl Freq {
    /// The rate-select code (RS2:RS1) of the frequency.
    pub open spec fn spec_code(self) -> u8 {
        match self {
            Freq::Hz1 => 0,
            Freq::Hz1024 => 1,
            Freq::Hz4096 => 2,
            Freq::Hz8192 => 3,
        }
    }
}

/// Clock struct hour, min, sec.
#[derive(Clone, Copy, Debug, PartialEq, Eq)]
pub struct Clock {
    /// seconds 0-59
    pub sec: u8,
    /// minutes 0-59
    pub min: u8,
    /// hours 1-12am/pm or 0-23
    pub hour: Hour,
}

/// Date struct day, month year.
#[derive(Clone, Copy, Debug, PartialEq, Eq, Structural)]
pub struct Date {
    /// day in month
    pub date: u8,
    /// month #
    pub month: u8,
    /// year.
    pub year: u16,
}

/// The frame that `set_clock` writes: from the seconds register on, second,
/// minute and hour in BCD.
pub open spec fn clock_frame(hour: u8, min: u8, sec: u8) -> Seq<u8> {
    seq![CLOCK, bcd_encoding(sec), bcd_encoding(min), bcd_encoding(hour)]
}

/// The frame that `set_clock` writes.
pub fn set_clock_frame(hour: u8, min: u8, sec: u8) -> (frame: [u8; 4])
    ensures
        frame@ == clock_frame(hour, min, sec),
{
    let bcd_hour = bin_to_bcd(hour);
    let bcd_min = bin_to_bcd(min);
    let bcd_sec = bin_to_bcd(sec);
    let frame = [CLOCK, bcd_sec, bcd_min, bcd_hour];
    assert(frame@ =~= clock_frame(hour, min, sec));
    frame
}

/// The frame that `set_date` writes: from the day-of-month register on, day,
/// month with the century's lowest bit as bit 7, and year, in BCD.
pub open spec fn date_frame(century: u8, year: u8, month: u8, date: u8) -> Seq<u8> {
    seq![
        DATE,
        bcd_encoding(date),
        ((bcd_encoding(month) as int) % 128 + if bcd_encoding(month) >= 128 || century % 2 == 1 {
            128int
        } else {
            0int
        }) as u8,
        bcd_encoding(year),
    ]
}

/// The frame that `set_date` writes.
pub fn set_date_frame(century: u8, year: u8, month: u8, date: u8) -> (frame: [u8; 4])
    ensures
        frame@ == date_frame(century, year, month, date),
{
    let bcd_year = bin_to_bcd(year);
    let mut bcd_month = bin_to_bcd(month);
    let bcd_date = bin_to_bcd(date);
    let ghost m = bcd_month;
    bcd_month |= century << 7;
    assert(bcd_month == m % 128 + if m >= 128 || century % 2 == 1 {
        128u8
    } else {
        0u8
    }) by (bit_vector)
        requires
            bcd_month == m | (century << 7u8),
    ;
    let frame = [DATE, bcd_date, bcd_month, bcd_year];
    assert(frame@ =~= date_frame(century, year, month, date));
    frame
}

/// The frame that `enable_sqw` writes: the rate-select code in bits 4..3 of
/// the control register, every other control bit cleared.
pub open spec fn sqw_frame(freq: Freq) -> Seq<u8> {
    seq![CTRL, (freq.spec_code() * 8) as u8]
}

/// The frame that `enable_sqw` writes.
pub fn enable_sqw_frame(freq: Freq) -> (frame: [u8; 2])
    ensures
        frame@ == seq![CTRL, (freq.spec_code() * 8) as u8],
        frame@ == sqw_frame(freq),
{
    assert((0b00u8 << 3u8) == 0u8 && (0b01u8 << 3u8) == 8u8 && (0b10u8 << 3u8) == 16u8 && (0b11u8
        << 3u8) == 24u8) by (bit_vector);
    let rs: u8 = match freq {
        Freq::Hz1 => 0b00 << 3,
        Freq::Hz1024 => 0b01 << 3,
        Freq::Hz4096 => 0b10 << 3,
        Freq::Hz8192 => 0b11 << 3,
    };
    let frame = [CTRL, rs];
    assert(frame@ =~= seq![CTRL, (freq.spec_code() * 8) as u8]);
    frame
}

/// The clock held by the seconds, minutes and hours registers: seconds and
/// minutes in BCD; in 12-hour mode (bit 6 of the hours register) bit 5 is PM
/// and bits 4..0 the BCD hour, otherwise bits 5..0 the BCD hour.
pub open spec fn clock_of_regs(regs: Seq<u8>) -> Clock {
    Clock {
        sec: bcd_value(regs[0]) as u8,
        min: bcd_value(regs[1]) as u8,
        hour: if (regs[2] as int / 64) % 2 == 1 {
            Hour::H12(
                (
                    bcd_value((regs[2] as int % 32) as u8) as u8,
                    if (regs[2] as int / 32) % 2 == 1 {
                        Meridiem::PM
                    } else {
                        Meridiem::AM
                    },
                ),
            )
        } else {
            Hour::H24(bcd_value((regs[2] as int % 64) as u8) as u8)
        },
    }
}

/// Decodes the seconds, minutes and hours registers that `read_clock` reads.
pub fn clock_from_regs(regs: &[u8; 3]) -> (clock: Clock)
    ensures
        clock == clock_of_regs(regs@),
{
    let hour_reg: u8 = regs[2];
    let twelve = hour_reg & 0b0100_0000 == 64;
    let pm = (hour_reg & 0b0010_0000) != 0;
    let low5: u8 = hour_reg & 0b0001_1111;
    let low6: u8 = hour_reg & 0b0011_1111;
    assert(twelve == ((hour_reg / 64) % 2 == 1) && pm == ((hour_reg / 32) % 2 == 1) && low5
        == hour_reg % 32 && low6 == hour_reg % 64) by (bit_vector)
        requires
            twelve == (hour_reg & 0b0100_0000u8 == 64u8),
            pm == (hour_reg & 0b0010_0000u8 != 0u8),
            low5 == hour_reg & 0b0001_1111u8,
            low6 == hour_reg & 0b0011_1111u8,
    ;
    let hour = if twelve {
        let mdm = if !pm {
            Meridiem::AM
        } else {
            Meridiem::PM
        };
        Hour::H12((bcd_to_bin(low5), mdm))
    } else {
        Hour::H24(bcd_to_bin(low6))
    };
    Clock { sec: bcd_to_bin(regs[0]), min: bcd_to_bin(regs[1]), hour }
}

/// The century bit (bit 7) of the month register.
pub open spec fn century_bit(month_reg: u8) -> int {
    month_reg as int / 128
}

/// The date held by the day, month and year registers: day in BCD, month from
/// bits 4..0 in BCD, and year 2000 plus the BCD year plus 100 for the century
/// bit.
pub open spec fn date_of_regs(regs: Seq<u8>) -> Date {
    Date {
        date: bcd_value(regs[0]) as u8,
        month: bcd_value((regs[1] as int % 32) as u8) as u8,
        year: (2000 + bcd_value(regs[2]) + 100 * century_bit(regs[1])) as u16,
    }
}

/// The BCD year plus the century's hundred fits in a byte, as `read_date`
/// adds them in one.
pub open spec fn date_regs_in_range(regs: Seq<u8>) -> bool {
    bcd_value(regs[2]) + 100 * century_bit(regs[1]) <= 255
}

/// Decodes the day, month and year registers that `read_date` reads.
pub fn date_from_regs(regs: &[u8; 3]) -> (date: Date)
    requires
        date_regs_in_range(regs@),
    ensures
        date == date_of_regs(regs@),
{
    let month_reg: u8 = regs[1];
    let top: u8 = month_reg >> 7;
    let low5: u8 = month_reg & 0x1F;
    assert(top == month_reg / 128 && low5 == month_reg % 32) by (bit_vector)
        requires
            top == month_reg >> 7u8,
            low5 == month_reg & 0x1Fu8,
    ;
    let century: u8 = top * 100;
    let century: u16 = (bcd_to_bin(regs[2]) + century) as u16;
    let year: u16 = 2000u16 + century;
    Date { date: bcd_to_bin(regs[0]), month: bcd_to_bin(low5), year }
}

/// Reading back the clock that `set_clock` wrote gives that clock in 24-hour
/// format, for seconds and minutes below 160 and hours below 40.
pub proof fn lemma_set_clock_then_read_clock(hour: u8, min: u8, sec: u8)
    requires
        sec < 160,
        min < 160,
        hour < 40,
    ensures
        clock_of_regs(clock_frame(hour, min, sec).subrange(1, 4)) == (Clock {
            sec,
            min,
            hour: Hour::H24(hour),
        }),
{
    lemma_bcd_round_trip(sec);
    lemma_bcd_round_trip(min);
    lemma_bcd_round_trip(hour);
    let h = bcd_encoding(hour);
    assert(h < 64);
    assert(h as int % 64 == h as int);
    assert(clock_of_regs(clock_frame(hour, min, sec).subrange(1, 4)) =~= (Clock {
        sec,
        min,
        hour: Hour::H24(hour),
    }));
}

/// Reading back the date that `set_date` wrote gives that day and month and
/// the year 2000 plus the year plus 100 for an odd century, for days below
/// 160, months below 20 and years up to 155.
pub proof fn lemma_set_date_then_read_date(century: u8, year: u8, month: u8, date: u8)
    requires
        date < 160,
        month < 20,
        year <= 155,
    ensures
        date_regs_in_range(date_frame(century, year, month, date).subrange(1, 4)),
        date_of_regs(date_frame(century, year, month, date).subrange(1, 4)) == (Date {
            date,
            month,
            year: (2000 + year + 100 * (century % 2)) as u16,
        }),
{
    lemma_bcd_round_trip(date);
    lemma_bcd_round_trip(month);
    lemma_bcd_round_trip(year);
    let m = bcd_encoding(month);
    assert(m < 32);
    let regs = date_frame(century, year, month, date).subrange(1, 4);
    assert(regs[1] as int == m as int + (century as int % 2) * 128);
    assert(regs[1] as int % 32 == m as int);
    assert(century_bit(regs[1]) == century as int % 2);
    assert(date_of_regs(regs) =~= (Date {
        date,
        month,
        year: (2000 + year + 100 * (century % 2)) as u16,
    }));
}

/// `enable_sqw` writes to the control register (0x0E) the DS3231 rate-select
/// code of the frequency in RS2:RS1 (bits 4..3: 00 for 1 Hz, 01 for 1.024 kHz,
/// 10 for 4.096 kHz, 11 for 8.192 kHz) and clears every other control bit.
pub proof fn lemma_enable_sqw_selects_rate(freq: Freq)
    ensures
        sqw_frame(freq)[0] == 0x0E,
        (sqw_frame(freq)[1] as int / 8) % 4 == match freq {
            Freq::Hz1 => 0int,
            Freq::Hz1024 => 1int,
            Freq::Hz4096 => 2int,
            Freq::Hz8192 => 3int,
        },
        sqw_frame(freq)[1] as int % 8 == 0,
        sqw_frame(freq)[1] < 32,
{
}

/// The clock and date frames start at the DS3231's seconds (0x00) and day of
/// month (0x04) registers.
pub proof fn lemma_frame_registers(century: u8, year: u8, month: u8, date: u8, hour: u8, min: u8, sec: u8)
    ensures
        clock_frame(hour, min, sec)[0] == 0x00,
        date_frame(century, year, month, date)[0] == 0x04,
{
}

} // verus!
