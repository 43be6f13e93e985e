use async_nucleo::lcd_lib::{cmd, display, set_bus_bits, BusStep};

fn data_levels(steps: &[BusStep]) -> u8 {
    let mut v = 0u8;
    for s in steps {
        if let BusStep::Data(n, true) = s {
            v |= 1 << n;
        }
    }
    v
}

#[test]
fn set_bus_bits_drives_d6_down_to_d0() {
    let steps = set_bus_bits(0b1010_0101);
    assert_eq!(
        steps,
        vec![
            BusStep::Data(6, false),
            BusStep::Data(5, true),
            BusStep::Data(4, false),
            BusStep::Data(3, false),
            BusStep::Data(2, true),
            BusStep::Data(1, false),
            BusStep::Data(0, true),
        ]
    );
}

#[test]
fn bus_carries_low_seven_bits() {
    for b in 0u8..=255 {
        assert_eq!(data_levels(&set_bus_bits(b)), b & 0x7F);
    }
}

#[test]
fn write_waits_for_busy_flag_then_strobes() {
    let steps = async_nucleo::lcd_lib::write(0x41);
    assert_eq!(steps.len(), 16);
    assert_eq!(
        &steps[..5],
        &[
            BusStep::Rw(true),
            BusStep::En(true),
            BusStep::AwaitNotBusy,
            BusStep::En(false),
            BusStep::Rw(false),
        ]
    );
    assert_eq!(data_levels(&steps[5..12]), 0x41);
    assert_eq!(
        &steps[12..],
        &[
            BusStep::En(true),
            BusStep::DelayMs(2),
            BusStep::En(false),
            BusStep::DelayMs(2),
        ]
    );
}

#[test]
fn cmd_selects_instruction_register() {
    let steps = cmd(0b0011_1000);
    assert_eq!(steps[0], BusStep::Rs(false));
    assert_eq!(&steps[1..], &async_nucleo::lcd_lib::write(0b0011_1000)[..]);
}

#[test]
fn display_selects_data_register_and_writes_each_byte() {
    let steps = display("Hello, World!");
    assert_eq!(steps[0], BusStep::Rs(true));
    assert_eq!(steps.len(), 1 + 16 * 13);
    for (i, b) in "Hello, World!".bytes().enumerate() {
        assert_eq!(&steps[1 + 16 * i..1 + 16 * (i + 1)], &async_nucleo::lcd_lib::write(b)[..]);
    }
}

#[test]
fn display_of_empty_string_only_selects_data_register() {
    assert_eq!(display(""), vec![BusStep::Rs(true)]);
}

#[test]
fn init_waits_then_sends_the_setup_instructions() {
    let steps = async_nucleo::lcd_lib::init();
    assert_eq!(steps[0], BusStep::DelayMs(40));
    let mut expected = vec![BusStep::DelayMs(40)];
    for (i, c) in [0x30u8, 0x30, 0x30, 0x38, 0x08, 0x01, 0x06, 0x0F].iter().enumerate() {
        expected.extend(cmd(*c));
        if i < 2 {
            expected.push(BusStep::DelayMs(5));
        }
    }
    assert_eq!(steps, expected);
}
