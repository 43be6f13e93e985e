# async_nucleo

Drivers for an STM32 Nucleo board: a DS3231 real-time clock on I²C and an
HD44780 character LCD on an eight-bit parallel bus.

- `src/` is the verified library (Verus): BCD conversion, the DS3231 register
  map, the frames written to the clock and the decoding of what is read back,
  calendar validity and weekdays (through `chrono`), and the LCD bus protocol
  as a sequence of pin steps. Round trips between what is written and what is
  read back are proved as lemmas.
- `app/` holds the asynchronous bus drivers (`DS3231`, `Rtc`, `DataBus`) that
  perform the I²C transfers and pin changes and call the library for every
  value they compute.
- `tests/` runs the library on concrete registers and frames.
