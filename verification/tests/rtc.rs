use async_nucleo::calendar::{Date, DateTime, Time};
use async_nucleo::rtc_lib::{
    date_from_regs, datetime_from_regs, init_frame, month_from_reg, osc_on_bat_ctrl,
    output_32khz_frame, set_bcd_reg_frame, set_date_frame, set_datetime_frame, set_hours_frame,
    set_sqw_frq_frame, set_time_frame, set_year_frame, time_from_regs, to_hours, year_from_regs,
    Freq, Hours, Reg, ADDR,
};

fn dt(year: i32, month: u32, day: u32, hour: u32, minute: u32, second: u32) -> DateTime {
    DateTime { year, month, day, hour, minute, second }
}

#[test]
fn device_address_and_registers() {
    assert_eq!(ADDR, 0x68);
    assert_eq!(Reg::SEC.addr(), 0x00);
    assert_eq!(Reg::YEAR.addr(), 0x06);
    assert_eq!(Reg::ALRM2.addr(), 0x0B);
    assert_eq!(Reg::CTRL.addr(), 0x0E);
    assert_eq!(Reg::STAT.addr(), 0x0F);
    assert_eq!(Reg::TEMP.addr(), 0x11);
    assert_eq!(Freq::Sqw8192Hz.code(), 3);
}

#[test]
fn init_clears_status() {
    assert_eq!(init_frame(), [0x0F, 0x00]);
}

#[test]
fn to_hours_formats() {
    assert_eq!(to_hours(0x23), Hours::H24(23));
    assert_eq!(to_hours(0x00), Hours::H24(0));
    assert_eq!(to_hours(0x40 | 0x11), Hours::AM(11));
    assert_eq!(to_hours(0x40 | 0x20 | 0x12), Hours::PM(12));
}

#[test]
fn osc_on_bat_sets_or_clears_eosc_only() {
    assert_eq!(osc_on_bat_ctrl(0x1C, true), 0x9C);
    assert_eq!(osc_on_bat_ctrl(0x9C, false), 0x1C);
    assert_eq!(osc_on_bat_ctrl(0x9C, true), 0x9C);
    assert_eq!(osc_on_bat_ctrl(0x00, false), 0x00);
}

#[test]
fn set_sqw_frq_keeps_bits_7_5_1_0() {
    assert_eq!(set_sqw_frq_frame(0x1C, Freq::Sqw1Hz), [0x0E, 0x40]);
    assert_eq!(set_sqw_frq_frame(0x1C, Freq::Sqw4096Hz), [0x0E, 0x50]);
    assert_eq!(set_sqw_frq_frame(0xA3, Freq::Sqw8192Hz), [0x0E, 0xFB]);
    assert_eq!(set_sqw_frq_frame(0xFF, Freq::Sqw1024Hz), [0x0E, 0xEB]);
}

#[test]
fn output_32khz_skips_when_bit_equals_disable() {
    assert_eq!(output_32khz_frame(0x08, true), None);
    assert_eq!(output_32khz_frame(0x00, false), None);
}

#[test]
fn output_32khz_writes_otherwise() {
    assert_eq!(output_32khz_frame(0x88, false), Some([0x0F, 0x88]));
    assert_eq!(output_32khz_frame(0x83, true), Some([0x0F, 0x83]));
}

#[test]
fn set_bcd_reg_frame_encodes_value() {
    assert_eq!(set_bcd_reg_frame(Reg::MIN, 45), [0x01, 0x45]);
    assert_eq!(set_bcd_reg_frame(Reg::DATE, 31), [0x04, 0x31]);
}

#[test]
fn datetime_decodes_registers() {
    let regs = [0x20, 0x20, 0x20, 0x03, 0x17, 0x08, 0x22];
    assert_eq!(datetime_from_regs(&regs), dt(22, 8, 17, 20, 20, 20));
    // 12-hour format: the PM flag is not added.
    let regs = [0x00, 0x30, 0x40 | 0x20 | 0x08, 0x01, 0x01, 0x01, 0x99];
    assert_eq!(datetime_from_regs(&regs), dt(99, 1, 1, 8, 30, 0));
}

#[test]
fn set_datetime_frame_with_weekday() {
    // 17 August 2022 was a Wednesday.
    let d = dt(2022, 8, 17, 20, 20, 20);
    assert!(d.is_valid());
    assert_eq!(d.weekday_from_monday(), 3);
    // The year is written as its low byte: 2022 mod 256 = 230, whose 23 tens wrap to 7.
    assert_eq!(set_datetime_frame(&d), [0x00, 0x20, 0x20, 0x20, 3, 0x17, 0x08, 0x70]);
    let d = dt(2024, 1, 1, 0, 0, 0);
    assert_eq!(d.weekday_from_monday(), 1);
    assert_eq!(set_datetime_frame(&d)[4], 1);
    let d = dt(2023, 12, 31, 23, 59, 59);
    assert_eq!(d.weekday_from_monday(), 7);
}

#[test]
fn set_datetime_then_datetime() {
    let d = dt(22, 8, 17, 20, 20, 20);
    let frame = set_datetime_frame(&d);
    let regs = [frame[1], frame[2], frame[3], frame[4], frame[5], frame[6], frame[7]];
    assert_eq!(datetime_from_regs(&regs), d);
    let d = dt(99, 2, 28, 23, 59, 59);
    let frame = set_datetime_frame(&d);
    let regs = [frame[1], frame[2], frame[3], frame[4], frame[5], frame[6], frame[7]];
    assert_eq!(datetime_from_regs(&regs), d);
}

#[test]
fn datetime_validity() {
    assert!(dt(2024, 2, 29, 0, 0, 0).is_valid());
    assert!(!dt(2023, 2, 29, 0, 0, 0).is_valid());
    assert!(!dt(1900, 2, 29, 0, 0, 0).is_valid());
    assert!(dt(2000, 2, 29, 0, 0, 0).is_valid());
    assert!(!dt(2022, 4, 31, 0, 0, 0).is_valid());
    assert!(!dt(2022, 0, 1, 0, 0, 0).is_valid());
    assert!(!dt(2022, 13, 1, 0, 0, 0).is_valid());
    assert!(!dt(2022, 1, 0, 0, 0, 0).is_valid());
    assert!(!dt(2022, 1, 1, 24, 0, 0).is_valid());
    assert!(!dt(2022, 1, 1, 0, 60, 0).is_valid());
    assert!(!dt(2022, 1, 1, 0, 0, 60).is_valid());
    assert!(dt(262142, 12, 31, 0, 0, 0).is_valid());
    assert!(!dt(262143, 1, 1, 0, 0, 0).is_valid());
    assert!(dt(-262143, 1, 1, 0, 0, 0).is_valid());
    assert!(!dt(-262144, 12, 31, 0, 0, 0).is_valid());
}

#[test]
fn time_decodes_and_moves_pm_on() {
    assert_eq!(time_from_regs(&[0x20, 0x20, 0x20]), Time { hour: 20, minute: 20, second: 20 });
    assert_eq!(
        time_from_regs(&[0x05, 0x10, 0x40 | 0x20 | 0x08]),
        Time { hour: 20, minute: 10, second: 5 }
    );
    assert_eq!(time_from_regs(&[0x05, 0x10, 0x40 | 0x08]), Time { hour: 8, minute: 10, second: 5 });
}

#[test]
fn month_ignores_century_bit() {
    assert_eq!(month_from_reg(0x12), 12);
    assert_eq!(month_from_reg(0x80 | 0x07), 7);
}

#[test]
fn year_adds_century() {
    assert_eq!(year_from_regs(&[0x08, 0x22]), 2022);
    assert_eq!(year_from_regs(&[0x88, 0x22]), 2122);
}

#[test]
fn date_reads_year_from_month_register() {
    assert_eq!(date_from_regs(&[0x17, 0x08, 0x22]), Date { year: 2008, month: 8, day: 17 });
    assert_eq!(date_from_regs(&[0x80 | 0x01, 0x12, 0x22]), Date { year: 2112, month: 12, day: 81 });
}

#[test]
fn set_hours_writes_24_hour_number() {
    assert_eq!(set_hours_frame(Hours::H24(23)), [0x02, 0x23]);
    assert_eq!(set_hours_frame(Hours::PM(11)), [0x02, 0x11]);
    assert_eq!(to_hours(set_hours_frame(Hours::AM(9))[1]), Hours::H24(9));
}

#[test]
fn set_time_writes_binary() {
    let t = Time { hour: 20, minute: 21, second: 22 };
    assert_eq!(set_time_frame(&t), [0x00, 22, 21, 20]);
}

#[test]
fn set_year_writes_low_byte_in_bcd() {
    assert_eq!(set_year_frame(22), [0x06, 0x22]);
    assert_eq!(set_year_frame(0x0100 + 22), [0x06, 0x22]);
    assert_eq!(year_from_regs(&[0x00, set_year_frame(99)[1]]), 2099);
}

#[test]
fn set_date_writes_bcd() {
    let d = Date { year: 22, month: 8, day: 17 };
    assert_eq!(set_date_frame(&d), [0x04, 0x17, 0x08, 0x22]);
}

#[test]
fn set_month_then_month() {
    for m in 0u8..80 {
        assert_eq!(month_from_reg(set_bcd_reg_frame(Reg::MONTH, m)[1]), m);
    }
}
