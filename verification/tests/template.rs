use async_nucleo::template::{
    clock_from_regs, date_from_regs, enable_sqw_frame, set_clock_frame, set_date_frame, Clock,
    Date, Freq, Hour, Meridiem,
};

#[test]
fn read_date_doc_example() {
    // 24 July 2022.
    let date = date_from_regs(&[0x24, 0x07, 0x22]);
    assert_eq!(date, Date { date: 24, month: 7, year: 2022 });
}

#[test]
fn read_date_adds_century() {
    let date = date_from_regs(&[0x01, 0x80 | 0x12, 0x05]);
    assert_eq!(date, Date { date: 1, month: 12, year: 2105 });
}

#[test]
fn read_clock_24_hour() {
    let clock = clock_from_regs(&[0x59, 0x30, 0x23]);
    assert_eq!(clock, Clock { sec: 59, min: 30, hour: Hour::H24(23) });
}

#[test]
fn read_clock_12_hour() {
    let clock = clock_from_regs(&[0x00, 0x15, 0x40 | 0x20 | 0x11]);
    assert_eq!(clock, Clock { sec: 0, min: 15, hour: Hour::H12((11, Meridiem::PM)) });
    let clock = clock_from_regs(&[0x05, 0x00, 0x40 | 0x09]);
    assert_eq!(clock, Clock { sec: 5, min: 0, hour: Hour::H12((9, Meridiem::AM)) });
}

#[test]
fn set_clock_frame_is_bcd_from_seconds() {
    assert_eq!(set_clock_frame(20, 21, 22), [0x00, 0x22, 0x21, 0x20]);
}

#[test]
fn set_clock_then_read_clock() {
    let frame = set_clock_frame(13, 45, 7);
    let regs = [frame[1], frame[2], frame[3]];
    assert_eq!(clock_from_regs(&regs), Clock { sec: 7, min: 45, hour: Hour::H24(13) });
}

#[test]
fn set_date_frame_puts_century_in_month_bit7() {
    assert_eq!(set_date_frame(0, 22, 8, 17), [0x04, 0x17, 0x08, 0x22]);
    assert_eq!(set_date_frame(1, 22, 8, 17), [0x04, 0x17, 0x88, 0x22]);
    assert_eq!(set_date_frame(3, 22, 12, 17), [0x04, 0x17, 0x92, 0x22]);
}

#[test]
fn set_date_then_read_date() {
    let frame = set_date_frame(1, 22, 8, 17);
    let regs = [frame[1], frame[2], frame[3]];
    assert_eq!(date_from_regs(&regs), Date { date: 17, month: 8, year: 2122 });
}

#[test]
fn enable_sqw_frame_sets_rate_select_only() {
    assert_eq!(enable_sqw_frame(Freq::Hz1), [0x0E, 0x00]);
    assert_eq!(enable_sqw_frame(Freq::Hz1024), [0x0E, 0x08]);
    assert_eq!(enable_sqw_frame(Freq::Hz4096), [0x0E, 0x10]);
    assert_eq!(enable_sqw_frame(Freq::Hz8192), [0x0E, 0x18]);
}
