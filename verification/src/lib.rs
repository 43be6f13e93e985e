//! Register-level logic for an STM32 Nucleo board talking to a DS3231
//! real-time clock over I²C and to an HD44780 character LCD over a
//! parallel data bus.
//!
//! The bus transfers themselves are performed by the caller; this crate
//! computes what goes on the wire and what the bytes read back mean.
pub mod bcd;
pub mod calendar;
pub mod lcd_lib;
pub mod rtc_lib;
pub mod template;
