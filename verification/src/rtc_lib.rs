//! DS3231 real-time clock: register map, the bytes written to it and the
//! meaning of the bytes read from it.
//!
//! A frame is the byte sequence of one I²C write: the register address
//! followed by the values for it and the registers after it.
use vstd::prelude::*;
use crate::bcd::{bcd_encoding, bcd_value, bin_to_bcd, bcd_to_bin, lemma_bcd_round_trip};
use crate::calendar::{Date, DateTime, Time, iso_weekday};

verus! {

/// The DS3231's seven-bit I²C address.
pub const ADDR: u8 = 0x68;

/// The DS3231 registers.
#[allow(non_camel_case_types, clippy::upper_case_acronyms)]
#[derive(Clone, Copy, Debug, PartialEq, Eq, Structural)]
pub enum Reg {
    SEC,
    MIN,
    HOUR,
    DAY,
    DATE,
    MONTH,
    YEAR,
    ALRM1,
    ALRM2,
    CTRL,
    STAT,
    AGOFS,
    TEMP,
}

impl Reg {
    /// Register address.
    pub open spec fn spec_addr(self) -> u8 {
        match self {
            Reg::SEC => 0x00,
            Reg::MIN => 0x01,
            Reg::HOUR => 0x02,
            Reg::DAY => 0x03,
            Reg::DATE => 0x04,
            Reg::MONTH => 0x05,
            Reg::YEAR => 0x06,
            Reg::ALRM1 => 0x07,
            Reg::ALRM2 => 0x0B,
            Reg::CTRL => 0x0E,
            Reg::STAT => 0x0F,
            Reg::AGOFS => 0x10,
            Reg::TEMP => 0x11,
        }
    }

    /// Register address.
    pub fn addr(self) -> (addr: u8)
        ensures
            addr == self.spec_addr(),
    {
        match self {
            Reg::SEC => 0x00,
            Reg::MIN => 0x01,
            Reg::HOUR => 0x02,
            Reg::DAY => 0x03,
            Reg::DATE => 0x04,
            Reg::MONTH => 0x05,
            Reg::YEAR => 0x06,
            Reg::ALRM1 => 0x07,
            Reg::ALRM2 => 0x0B,
            Reg::CTRL => 0x0E,
            Reg::STAT => 0x0F,
            Reg::AGOFS => 0x10,
            Reg::TEMP => 0x11,
        }
    }
}

/// Square-wave output frequency.
#[derive(Clone, Copy, Debug, PartialEq, Eq, Structural)]
pub enum Freq {
    Sqw1Hz,
    Sqw1024Hz,
    Sqw4096Hz,
    Sqw8192Hz,
}

impl Freq {
    /// The rate-select code (RS2:RS1) of the frequency.
    pub open spec fn spec_code(self) -> u8 {
        match self {
            Freq::Sqw1Hz => 0,
            Freq::Sqw1024Hz => 1,
            Freq::Sqw4096Hz => 2,
            Freq::Sqw8192Hz => 3,
        }
    }

    /// The rate-select code (RS2:RS1) of the frequency.
    pub fn code(self) -> (code: u8)
        ensures
            code == self.spec_code(),
    {
        match self {
            Freq::Sqw1Hz => 0b00,
            Freq::Sqw1024Hz => 0b01,
            Freq::Sqw4096Hz => 0b10,
            Freq::Sqw8192Hz => 0b11,
        }
    }
}

/// Hours in 12-hour (AM/PM) or 24-hour format.
#[derive(Clone, Copy, Debug, PartialEq, Eq, Structural)]
pub enum Hours {
    AM(u8),
    PM(u8),
    H24(u8),
}

impl Hours {
    /// The hour number, whatever the format.
    pub open spec fn value(self) -> u8 {
        match self {
            Hours::AM(h) => h,
            Hours::PM(h) => h,
            Hours::H24(h) => h,
        }
    }
}

/// The meaning of the hours register: bit 6 selects 12-hour mode, where
/// bit 5 is PM and bits 4..0 hold the BCD hour; otherwise bits 5..0 hold the
/// BCD hour of the 24-hour day.
pub open spec fn hours_of_reg(reg: u8) -> Hours {
    if (reg as int / 64) % 2 == 1 {
        let h = bcd_value((reg as int % 32) as u8) as u8;
        if (reg as int / 32) % 2 == 1 {
            Hours::PM(h)
        } else {
            Hours::AM(h)
        }
    } else {
        Hours::H24(bcd_value((reg as int % 64) as u8) as u8)
    }
}

/// Decodes the hours register.
pub fn to_hours(hour: u8) -> (hours: Hours)
    ensures
        hours == hours_of_reg(hour),
{
    let twelve = hour & (1 << 6) != 0;
    let pm = hour & (1 << 5) != 0;
    let low5: u8 = hour & 0b0001_1111;
    let low6: u8 = hour & 0b0011_1111;
    assert(twelve == ((hour / 64) % 2 == 1) && pm == ((hour / 32) % 2 == 1) && low5 == hour % 32
        && low6 == hour % 64) by (bit_vector)
        requires
            twelve == (hour & (1u8 << 6u8) != 0),
            pm == (hour & (1u8 << 5u8) != 0),
            low5 == hour & 0b0001_1111,
            low6 == hour & 0b0011_1111,
    ;
    if twelve {
        if pm {
            Hours::PM(bcd_to_bin(low5))
        } else {
            Hours::AM(bcd_to_bin(low5))
        }
    } else {
        Hours::H24(bcd_to_bin(low6))
    }
}

/// The frame that clears the status register.
pub fn init_frame() -> (frame: [u8; 2])
    ensures
        frame@ == seq![Reg::STAT.spec_addr(), 0x00u8],
{
    let frame = [Reg::STAT.addr(), 0x00];
    assert(frame@ =~= seq![Reg::STAT.spec_addr(), 0x00u8]);
    frame
}

/// The control byte with EOSC (bit 7, oscillator stopped on battery) set to
/// `disable`, every other bit as read.
pub open spec fn ctrl_with_eosc(ctrl: u8, disable: bool) -> int {
    ctrl as int % 128 + if disable {
        128int
    } else {
        0int
    }
}

/// The control byte that `osc_on_bat` writes back for the byte it read.
pub fn osc_on_bat_ctrl(ctrl: u8, disable: bool) -> (new_ctrl: u8)
    ensures
        new_ctrl == ctrl_with_eosc(ctrl, disable),
{
    let mut b = ctrl;
    if disable {
        b |= 1 << 7;
        assert(b == ctrl % 128 + 128) by (bit_vector)
            requires
                b == ctrl | (1u8 << 7u8),
        ;
    } else {
        b &= !(1 << 7);
        assert(b == ctrl % 128) by (bit_vector)
            requires
                b == ctrl & !(1u8 << 7u8),
        ;
    }
    b
}

/// The control byte with the square wave enabled on battery (BBSQW, bit 6),
/// the rate select (RS2:RS1, bits 4..3) set to `code`, INTCN (bit 2) cleared
/// and bits 7, 5, 1 and 0 as read.
pub open spec fn ctrl_with_sqw(ctrl: u8, code: u8) -> int {
    (ctrl as int / 128) % 2 * 128 + 64 + (ctrl as int / 32) % 2 * 32 + code as int * 8 + ctrl as int
        % 4
}

/// The frame that `set_sqw_frq` writes for the control byte it read.
pub fn set_sqw_frq_frame(ctrl: u8, freq: Freq) -> (frame: [u8; 2])
    ensures
        frame@ == seq![Reg::CTRL.spec_addr(), ctrl_with_sqw(ctrl, freq.spec_code()) as u8],
{
    let code = freq.code();
    let rs: u8 = code << 3;
    let mut b = ctrl;
    b &= 0b1110_0011;
    b |= (1 << 6) | rs;
    assert(b == (ctrl / 128) % 2 * 128 + 64 + (ctrl / 32) % 2 * 32 + code * 8 + ctrl % 4)
        by (bit_vector)
        requires
            code < 4,
            rs == code << 3u8,
            b == (ctrl & 0b1110_0011u8) | ((1u8 << 6u8) | rs),
    ;
    let frame = [Reg::CTRL.addr(), b];
    assert(frame@ =~= seq![Reg::CTRL.spec_addr(), ctrl_with_sqw(ctrl, freq.spec_code()) as u8]);
    frame
}

/// EN32kHz (bit 3) of the status byte.
pub open spec fn en32khz(stat: u8) -> bool {
    (stat as int / 8) % 2 == 1
}

/// The status byte with EN32kHz (bit 3) set exactly when `enable`, every
/// other bit as read.
pub open spec fn stat_with_32khz(stat: u8, enable: bool) -> int {
    stat as int - (stat as int / 8) % 2 * 8 + if enable {
        8int
    } else {
        0int
    }
}

/// What `Output_32kHz` does with the status byte it read: nothing when the
/// EN32kHz bit already equals `disable`; otherwise the frame it writes, which
/// sets EN32kHz to `!disable`.
pub fn output_32khz_frame(stat: u8, disable: bool) -> (frame: Option<[u8; 2]>)
    ensures
        en32khz(stat) == disable ==> frame.is_none(),
        en32khz(stat) != disable ==> frame.is_some() && frame.unwrap()@ == seq![
            Reg::STAT.spec_addr(),
            stat_with_32khz(stat, !disable) as u8,
        ],
{
    let en: bool = stat & 0b0000_1000 != 0;
    assert(en == ((stat / 8) % 2 == 1)) by (bit_vector)
        requires
            en == (stat & 0b0000_1000u8 != 0),
    ;
    if en == disable {
        return None;
    }
    let cleared: u8 = stat & 0b1111_0111;
    let new_stat: u8 = if disable {
        0b0000_0000 | cleared
    } else {
        0b0000_1000 | cleared
    };
    assert(new_stat == stat - (stat / 8) % 2 * 8 + if disable {
        0u8
    } else {
        8u8
    }) by (bit_vector)
        requires
            cleared == stat & 0b1111_0111u8,
            disable ==> new_stat == 0u8 | cleared,
            !disable ==> new_stat == 8u8 | cleared,
    ;
    let frame = [Reg::STAT.addr(), new_stat];
    assert(frame@ =~= seq![Reg::STAT.spec_addr(), stat_with_32khz(stat, !disable) as u8]);
    Some(frame)
}

/// The frame that writes `value`, in BCD, to register `reg`.
pub open spec fn bcd_reg_frame(reg: Reg, value: u8) -> Seq<u8> {
    seq![reg.spec_addr(), bcd_encoding(value)]
}

/// The frame that writes `value`, in BCD, to register `reg`.
pub fn set_bcd_reg_frame(reg: Reg, value: u8) -> (frame: [u8; 2])
    ensures
        frame@ == seq![reg.spec_addr(), bcd_encoding(value)],
        frame@ == bcd_reg_frame(reg, value),
{
    let frame = [reg.addr(), bin_to_bcd(value)];
    assert(frame@ =~= seq![reg.spec_addr(), bcd_encoding(value)]);
    frame
}

/// The date and time held by the seven registers from SEC to YEAR: every
/// field in BCD, the hour taken without its 12-hour format, and the year
/// register alone as the year.
pub open spec fn datetime_of_regs(regs: Seq<u8>) -> DateTime {
    DateTime {
        year: bcd_value(regs[6]) as i32,
        month: bcd_value(regs[5]) as u32,
        day: bcd_value(regs[4]) as u32,
        hour: hours_of_reg(regs[2]).value() as u32,
        minute: bcd_value(regs[1]) as u32,
        second: bcd_value(regs[0]) as u32,
    }
}

/// Decodes the seven registers from SEC to YEAR that `datetime` reads.
pub fn datetime_from_regs(regs: &[u8; 7]) -> (datetime: DateTime)
    ensures
        datetime == datetime_of_regs(regs@),
{
    let year = bcd_to_bin(regs[6]);
    let month = bcd_to_bin(regs[5]);
    let day = bcd_to_bin(regs[4]);
    let hour = match to_hours(regs[2]) {
        Hours::H24(hour) => hour,
        Hours::AM(hour) => hour,
        Hours::PM(hour) => hour,
    };
    let min = bcd_to_bin(regs[1]);
    let sec = bcd_to_bin(regs[0]);
    DateTime {
        year: year as i32,
        month: month as u32,
        day: day as u32,
        hour: hour as u32,
        minute: min as u32,
        second: sec as u32,
    }
}

/// The frame that `set_datetime` writes: from SEC on, second, minute and hour
/// in BCD, the ISO weekday number, then day, month and the year's low byte in
/// BCD.
pub open spec fn datetime_frame(dt: DateTime) -> Seq<u8> {
    seq![
        Reg::SEC.spec_addr(),
        bcd_encoding(dt.second as u8),
        bcd_encoding(dt.minute as u8),
        bcd_encoding(dt.hour as u8),
        iso_weekday(dt.year, dt.month, dt.day) as u8,
        bcd_encoding(dt.day as u8),
        bcd_encoding(dt.month as u8),
        bcd_encoding(dt.year as u8),
    ]
}

/// The frame that `set_datetime` writes for a date and time.
pub fn set_datetime_frame(datetime: &DateTime) -> (frame: [u8; 8])
    requires
        datetime.valid(),
    ensures
        frame@ == datetime_frame(*datetime),
{
    let sec = bin_to_bcd(datetime.second as u8);
    let min = bin_to_bcd(datetime.minute as u8);
    let hour = bin_to_bcd(datetime.hour as u8);
    let day = datetime.weekday_from_monday() as u8;
    let date = bin_to_bcd(datetime.day as u8);
    let month = bin_to_bcd(datetime.month as u8);
    let year = bin_to_bcd(datetime.year as u8);
    let frame = [Reg::SEC.addr(), sec, min, hour, day, date, month, year];
    assert(frame@ =~= datetime_frame(*datetime));
    frame
}

/// The time held by the registers SEC, MIN and HOUR: seconds and minutes in
/// BCD; a PM hour of the 12-hour format is moved on by twelve.
pub open spec fn time_of_regs(regs: Seq<u8>) -> Time {
    Time {
        hour: match hours_of_reg(regs[2]) {
            Hours::H24(h) => h as u32,
            Hours::AM(h) => h as u32,
            Hours::PM(h) => (h + 12) as u32,
        },
        minute: bcd_value(regs[1]) as u32,
        second: bcd_value(regs[0]) as u32,
    }
}

/// Decodes the three registers from SEC to HOUR that `time` reads.
pub fn time_from_regs(regs: &[u8; 3]) -> (time: Time)
    ensures
        time == time_of_regs(regs@),
{
    let sec = bcd_to_bin(regs[0]);
    let min = bcd_to_bin(regs[1]);
    let hours = to_hours(regs[2]);
    let hour = match hours {
        Hours::H24(hour) => hour as u32,
        Hours::AM(hour) => hour as u32,
        Hours::PM(hour) => (hour + 12u8) as u32,
    };
    Time { hour, minute: min as u32, second: sec as u32 }
}

/// The month held by the month register: bits 6..0 in BCD (bit 7 is the
/// century).
pub open spec fn month_of_reg(reg: u8) -> u8 {
    bcd_value((reg as int % 128) as u8) as u8
}

/// Decodes the month register that `month` reads.
pub fn month_from_reg(reg: u8) -> (month: u8)
    ensures
        month == month_of_reg(reg),
{
    let low7: u8 = reg & 0b0111_1111;
    assert(low7 == reg % 128) by (bit_vector)
        requires
            low7 == reg & 0b0111_1111u8,
    ;
    bcd_to_bin(low7)
}

/// The century bit (bit 7) of the month register.
pub open spec fn century_bit(reg: u8) -> int {
    reg as int / 128
}

/// The year held by the registers MONTH and YEAR: 2000, plus 100 when the
/// century bit is set, plus the BCD year.
pub open spec fn year_of_regs(regs: Seq<u8>) -> int {
    2000 + 100 * century_bit(regs[0]) + bcd_value(regs[1])
}

/// Decodes the two registers MONTH and YEAR that `year` reads.
pub fn year_from_regs(regs: &[u8; 2]) -> (year: u16)
    ensures
        year == year_of_regs(regs@),
{
    let first: u8 = regs[0];
    let top: u8 = (first & (1 << 7)) >> 7;
    assert(top == first / 128) by (bit_vector)
        requires
            top == (first & (1u8 << 7u8)) >> 7u8,
    ;
    let cent = (top * 100) as u16;
    let year = bcd_to_bin(regs[1]) as u16;
    2000u16 + cent + year
}

/// The date that `date` reads from the registers DATE, MONTH and YEAR: the
/// day from DATE, the month from MONTH without its century bit, and as the
/// year 2000, plus 100 when bit 7 of DATE is set, plus the BCD value of the
/// MONTH register.
pub open spec fn date_of_regs(regs: Seq<u8>) -> Date {
    Date {
        year: (2000 + 100 * century_bit(regs[0]) + bcd_value(regs[1])) as i32,
        month: month_of_reg(regs[1]) as u32,
        day: bcd_value(regs[0]) as u32,
    }
}

/// Decodes the three registers from DATE to YEAR that `date` reads.
pub fn date_from_regs(regs: &[u8; 3]) -> (date: Date)
    ensures
        date == date_of_regs(regs@),
{
    let day = bcd_to_bin(regs[0]);
    let month = month_from_reg(regs[1]);
    let first: u8 = regs[0];
    let top: u8 = (first & (1 << 7)) >> 7;
    assert(top == first / 128) by (bit_vector)
        requires
            top == (first & (1u8 << 7u8)) >> 7u8,
    ;
    let cent = (top * 100) as u16;
    let year = bcd_to_bin(regs[1]) as u16;
    let year = 2000u16 + cent + year;
    Date { year: year as i32, month: month as u32, day: day as u32 }
}

/// The frame that `set_hours` writes: the hour number in BCD to HOUR, which
/// leaves the register in 24-hour format.
pub open spec fn hours_frame(hours: Hours) -> Seq<u8> {
    seq![Reg::HOUR.spec_addr(), bcd_encoding(hours.value())]
}

/// The frame that `set_hours` writes.
pub fn set_hours_frame(hours: Hours) -> (frame: [u8; 2])
    ensures
        frame@ == seq![Reg::HOUR.spec_addr(), bcd_encoding(hours.value())],
        frame@ == hours_frame(hours),
{
    let hour = match hours {
        Hours::H24(hour) => hour,
        Hours::AM(hour) => hour,
        Hours::PM(hour) => hour,
    };
    let frame = [Reg::HOUR.addr(), bin_to_bcd(hour)];
    assert(frame@ =~= seq![Reg::HOUR.spec_addr(), bcd_encoding(hours.value())]);
    frame
}

/// The frame that `set_time` writes: from SEC on, second, minute and hour as
/// plain binary bytes.
pub open spec fn time_frame(time: Time) -> Seq<u8> {
    seq![Reg::SEC.spec_addr(), time.second as u8, time.minute as u8, time.hour as u8]
}

/// The frame that `set_time` writes.
pub fn set_time_frame(time: &Time) -> (frame: [u8; 4])
    ensures
        frame@ == seq![
            Reg::SEC.spec_addr(),
            time.second as u8,
            time.minute as u8,
            time.hour as u8,
        ],
        frame@ == time_frame(*time),
{
    let frame = [Reg::SEC.addr(), time.second as u8, time.minute as u8, time.hour as u8];
    assert(frame@ =~= seq![
        Reg::SEC.spec_addr(),
        time.second as u8,
        time.minute as u8,
        time.hour as u8,
    ]);
    frame
}

/// The frame that `set_year` writes: the year's low byte in BCD to YEAR.
pub open spec fn year_frame(year: u16) -> Seq<u8> {
    seq![Reg::YEAR.spec_addr(), bcd_encoding(year as u8)]
}

/// The frame that `set_year` writes.
pub fn set_year_frame(year: u16) -> (frame: [u8; 2])
    ensures
        frame@ == seq![Reg::YEAR.spec_addr(), bcd_encoding(year as u8)],
        frame@ == year_frame(year),
{
    set_bcd_reg_frame(Reg::YEAR, year as u8)
}

/// The frame that `set_date` writes: from DATE on, day, month and the year's
/// low byte, in BCD.
pub open spec fn date_frame(date: Date) -> Seq<u8> {
    seq![
        Reg::DATE.spec_addr(),
        bcd_encoding(date.day as u8),
        bcd_encoding(date.month as u8),
        bcd_encoding(date.year as u8),
    ]
}

/// The frame that `set_date` writes.
pub fn set_date_frame(date: &Date) -> (frame: [u8; 4])
    ensures
        frame@ == date_frame(*date),
        frame@ == seq![
            Reg::DATE.spec_addr(),
            bcd_encoding(date.day as u8),
            bcd_encoding(date.month as u8),
            bcd_encoding(date.year as u8),
        ],
{
    let day = bin_to_bcd(date.day as u8);
    let month = bin_to_bcd(date.month as u8);
    let year = bin_to_bcd(date.year as u8);
    let frame = [Reg::DATE.addr(), day, month, year];
    assert(frame@ =~= seq![
        Reg::DATE.spec_addr(),
        bcd_encoding(date.day as u8),
        bcd_encoding(date.month as u8),
        bcd_encoding(date.year as u8),
    ]);
    frame
}

/// An hour below 40 written in BCD reads back from the hours register as
/// that hour in 24-hour format (its BCD byte leaves bit 6 clear).
proof fn lemma_hours_reg_round_trip(hour: u8)
    requires
        hour < 40,
    ensures
        hours_of_reg(bcd_encoding(hour)) == Hours::H24(hour),
{
    let b = bcd_encoding(hour);
    assert(b < 64);
    assert(b as int % 64 == b as int);
    lemma_bcd_round_trip(hour);
}

/// Setting the hours and reading them back gives the hour number in 24-hour
/// format, for every hour number below 40.
pub proof fn lemma_set_hours_then_hours(hours: Hours)
    requires
        hours.value() < 40,
    ensures
        hours_of_reg(bcd_encoding(hours.value())) == Hours::H24(hours.value()),
        hours_frame(hours)[0] == 0x02,
        hours_of_reg(hours_frame(hours)[1]) == Hours::H24(hours.value()),
{
    lemma_hours_reg_round_trip(hours.value());
}

/// Reading back the registers that `set_datetime` wrote gives the date and
/// time that was set, for every valid date and time whose year is below 160.
pub proof fn lemma_set_datetime_then_datetime(dt: DateTime)
    requires
        dt.valid(),
        0 <= dt.year < 160,
    ensures
        datetime_of_regs(datetime_frame(dt).subrange(1, 8)) == dt,
{
    lemma_bcd_round_trip(dt.second as u8);
    lemma_bcd_round_trip(dt.minute as u8);
    lemma_bcd_round_trip(dt.day as u8);
    lemma_bcd_round_trip(dt.month as u8);
    lemma_bcd_round_trip(dt.year as u8);
    lemma_hours_reg_round_trip(dt.hour as u8);
    assert(datetime_of_regs(datetime_frame(dt).subrange(1, 8)) =~= dt);
}

/// A month below 80 written in BCD reads back as that month (its BCD byte
/// leaves the century bit clear).
pub proof fn lemma_set_month_then_month(month: u8)
    requires
        month < 80,
    ensures
        month_of_reg(bcd_encoding(month)) == month,
        bcd_reg_frame(Reg::MONTH, month)[0] == 0x05,
        month_of_reg(bcd_reg_frame(Reg::MONTH, month)[1]) == month,
{
    let b = bcd_encoding(month);
    assert(b < 128);
    assert(b as int % 128 == b as int);
    lemma_bcd_round_trip(month);
}

/// A year below 160 written with `set_year` reads back as 2000 plus 100 for
/// the century bit plus that year.
pub proof fn lemma_set_year_then_year(month_reg: u8, year: u16)
    requires
        year < 160,
    ensures
        year_of_regs(seq![month_reg, bcd_encoding(year as u8)]) == 2000 + 100 * century_bit(
            month_reg,
        ) + year,
        year_frame(year)[0] == 0x06,
        year_of_regs(seq![month_reg, year_frame(year)[1]]) == 2000 + 100 * century_bit(month_reg)
            + year,
{
    lemma_bcd_round_trip(year as u8);
}

/// The register map is the DS3231's: the timekeeping registers seconds,
/// minutes, hours, day, date, month and year at 0x00 to 0x06 in that order,
/// the alarms at 0x07 and 0x0B, control at 0x0E, status at 0x0F, aging offset
/// at 0x10 and temperature at 0x11; distinct registers have distinct
/// addresses.
pub proof fn lemma_register_map()
    ensures
        Reg::SEC.spec_addr() == 0x00,
        Reg::MIN.spec_addr() == 0x01,
        Reg::HOUR.spec_addr() == 0x02,
        Reg::DAY.spec_addr() == 0x03,
        Reg::DATE.spec_addr() == 0x04,
        Reg::MONTH.spec_addr() == 0x05,
        Reg::YEAR.spec_addr() == 0x06,
        Reg::ALRM1.spec_addr() == 0x07,
        Reg::ALRM2.spec_addr() == 0x0B,
        Reg::CTRL.spec_addr() == 0x0E,
        Reg::STAT.spec_addr() == 0x0F,
        Reg::AGOFS.spec_addr() == 0x10,
        Reg::TEMP.spec_addr() == 0x11,
        forall|a: Reg, b: Reg| a != b ==> #[trigger] a.spec_addr() != #[trigger] b.spec_addr(),
{
}

/// The rate-select codes are the DS3231's: RS2:RS1 = 00 for 1 Hz, 01 for
/// 1.024 kHz, 10 for 4.096 kHz and 11 for 8.192 kHz.
pub proof fn lemma_rate_select_codes()
    ensures
        Freq::Sqw1Hz.spec_code() == 0,
        Freq::Sqw1024Hz.spec_code() == 1,
        Freq::Sqw4096Hz.spec_code() == 2,
        Freq::Sqw8192Hz.spec_code() == 3,
{
}

/// `osc_on_bat` sets EOSC (bit 7) to `disable` and keeps bits 6..0, for every
/// control byte.
pub proof fn lemma_osc_on_bat_sets_eosc_only(ctrl: u8, disable: bool)
    ensures
        0 <= ctrl_with_eosc(ctrl, disable) < 256,
        (ctrl_with_eosc(ctrl, disable) / 128 == 1) == disable,
        ctrl_with_eosc(ctrl, disable) % 128 == ctrl as int % 128,
{
}

/// `set_sqw_frq` selects the rate code in RS2:RS1 (bits 4..3), sets BBSQW
/// (bit 6), clears INTCN (bit 2) and keeps bits 7, 5, 1 and 0 of the control
/// byte, for every control byte and frequency; the frame goes to CTRL.
pub proof fn lemma_set_sqw_frq_fields(ctrl: u8, freq: Freq)
    ensures
        Reg::CTRL.spec_addr() == 0x0E,
        0 <= ctrl_with_sqw(ctrl, freq.spec_code()) < 256,
        (ctrl_with_sqw(ctrl, freq.spec_code()) / 8) % 4 == freq.spec_code(),
        (ctrl_with_sqw(ctrl, freq.spec_code()) / 64) % 2 == 1,
        (ctrl_with_sqw(ctrl, freq.spec_code()) / 4) % 2 == 0,
        (ctrl_with_sqw(ctrl, freq.spec_code()) / 128) % 2 == (ctrl as int / 128) % 2,
        (ctrl_with_sqw(ctrl, freq.spec_code()) / 32) % 2 == (ctrl as int / 32) % 2,
        ctrl_with_sqw(ctrl, freq.spec_code()) % 4 == ctrl as int % 4,
{
    lemma_rate_select_codes();
}

/// When `Output_32kHz` writes, EN32kHz (bit 3) of the status byte becomes
/// `enable` and every other bit is kept, for every status byte.
pub proof fn lemma_output_32khz_sets_en32khz_only(stat: u8, enable: bool)
    ensures
        Reg::STAT.spec_addr() == 0x0F,
        0 <= stat_with_32khz(stat, enable) < 256,
        ((stat_with_32khz(stat, enable) / 8) % 2 == 1) == enable,
        stat_with_32khz(stat, enable) % 8 == stat as int % 8,
        stat_with_32khz(stat, enable) / 16 == stat as int / 16,
{
}

/// In 12-hour mode (bit 6 set) the hours register reads as AM or PM by bit 5
/// and the BCD hour in bits 4..0, for every hour below 20.
pub proof fn lemma_twelve_hour_reg(hour: u8, pm: bool)
    requires
        hour < 20,
    ensures
        hours_of_reg(
            (64 + (if pm {
                32int
            } else {
                0int
            }) + bcd_encoding(hour) as int) as u8,
        ) == if pm {
            Hours::PM(hour)
        } else {
            Hours::AM(hour)
        },
{
    lemma_bcd_round_trip(hour);
    let b = bcd_encoding(hour);
    assert(b < 32);
}

/// `set_time` writes plain binary, so reading the time back gives the time
/// that was set for every second, minute and hour below ten (where binary and
/// BCD agree).
pub proof fn lemma_set_time_then_time(time: Time)
    requires
        time.second < 10,
        time.minute < 10,
        time.hour < 10,
    ensures
        time_frame(time)[0] == 0x00,
        time_of_regs(time_frame(time).subrange(1, 4)) == time,
{
    let regs = time_frame(time).subrange(1, 4);
    assert(regs[2] as int % 64 == regs[2] as int);
    assert(time_of_regs(regs) =~= time);
}

/// The date that `set_date` writes to DATE, MONTH and YEAR is the day, month
/// and year that `datetime` reads from those registers, for days and months
/// below 160 and years from 0 to 159.
pub proof fn lemma_set_date_then_datetime(date: Date, regs: Seq<u8>)
    requires
        regs.len() == 7,
        regs.subrange(4, 7) == date_frame(date).subrange(1, 4),
        date.day < 160,
        date.month < 160,
        0 <= date.year < 160,
    ensures
        date_frame(date)[0] == 0x04,
        datetime_of_regs(regs).day == date.day,
        datetime_of_regs(regs).month == date.month,
        datetime_of_regs(regs).year == date.year,
{
    lemma_bcd_round_trip(date.day as u8);
    lemma_bcd_round_trip(date.month as u8);
    lemma_bcd_round_trip(date.year as u8);
    assert(regs[4] == regs.subrange(4, 7)[0]);
    assert(regs[5] == regs.subrange(4, 7)[1]);
    assert(regs[6] == regs.subrange(4, 7)[2]);
}

} // verus!
