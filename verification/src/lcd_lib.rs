//! HD44780 character LCD on an eight-bit parallel bus (RS, RW, EN and data
//! lines D0..D7, D7 doubling as the busy flag).
//!
//! The driver's pin work is described here as a sequence of bus steps; the
//! caller drives the pins step by step, in order, and gives up at the first
//! pin that fails.
use vstd::prelude::*;
use vstd::string::StringSliceAdditionalSpecFns;
use vstd::arithmetic::power2::{pow2, lemma2_to64};

verus! {

/// One action on the LCD bus.
#[derive(Clone, Copy, Debug, PartialEq, Eq, Structural)]
pub enum BusStep {
    /// Drive RS (high: data register, low: instruction register).
    Rs(bool),
    /// Drive RW (high: read, low: write).
    Rw(bool),
    /// Drive EN, the enable strobe.
    En(bool),
    /// Wait until D7, the busy flag, reads low.
    AwaitNotBusy,
    /// Drive data line `Dn` (the first field is `n`) high or low.
    Data(u8, bool),
    /// Wait the given number of milliseconds.
    DelayMs(u32),
}

/// The data lines D6 down to D0 set to bits 6..0 of `data`, in that order;
/// D7 is left to the busy flag.
pub open spec fn bus_bit_steps(data: u8) -> Seq<BusStep> {
    seq![
        BusStep::Data(6, (data as int / 64) % 2 == 1),
        BusStep::Data(5, (data as int / 32) % 2 == 1),
        BusStep::Data(4, (data as int / 16) % 2 == 1),
        BusStep::Data(3, (data as int / 8) % 2 == 1),
        BusStep::Data(2, (data as int / 4) % 2 == 1),
        BusStep::Data(1, (data as int / 2) % 2 == 1),
        BusStep::Data(0, data as int % 2 == 1),
    ]
}

/// The steps that put `data` on the bus.
pub fn set_bus_bits(data: u8) -> (steps: Vec<BusStep>)
    ensures
        steps@ == bus_bit_steps(data),
{
    let db6: bool = (0b0100_0000 & data) != 0;
    let db5: bool = (0b0010_0000 & data) != 0;
    let db4: bool = (0b0001_0000 & data) != 0;
    let db3: bool = (0b0000_1000 & data) != 0;
    let db2: bool = (0b0000_0100 & data) != 0;
    let db1: bool = (0b0000_0010 & data) != 0;
    let db0: bool = (0b0000_0001 & data) != 0;
    assert(db6 == ((data / 64) % 2 == 1) && db5 == ((data / 32) % 2 == 1) && db4 == ((data / 16)
        % 2 == 1) && db3 == ((data / 8) % 2 == 1) && db2 == ((data / 4) % 2 == 1) && db1 == ((data
        / 2) % 2 == 1) && db0 == (data % 2 == 1)) by (bit_vector)
        requires
            db6 == ((0b0100_0000u8 & data) != 0u8),
            db5 == ((0b0010_0000u8 & data) != 0u8),
            db4 == ((0b0001_0000u8 & data) != 0u8),
            db3 == ((0b0000_1000u8 & data) != 0u8),
            db2 == ((0b0000_0100u8 & data) != 0u8),
            db1 == ((0b0000_0010u8 & data) != 0u8),
            db0 == ((0b0000_0001u8 & data) != 0u8),
    ;
    let steps = vec![
        BusStep::Data(6, db6),
        BusStep::Data(5, db5),
        BusStep::Data(4, db4),
        BusStep::Data(3, db3),
        BusStep::Data(2, db2),
        BusStep::Data(1, db1),
        BusStep::Data(0, db0),
    ];
    assert(steps@ =~= bus_bit_steps(data));
    steps
}

/// Writing one byte: read mode and EN high, wait for the busy flag to clear,
/// EN low; write mode, the byte on the data lines, then an EN pulse of 2 ms
/// followed by 2 ms of rest.
pub open spec fn write_steps(byte: u8) -> Seq<BusStep> {
    seq![
        BusStep::Rw(true),
        BusStep::En(true),
        BusStep::AwaitNotBusy,
        BusStep::En(false),
        BusStep::Rw(false),
    ] + bus_bit_steps(byte) + seq![
        BusStep::En(true),
        BusStep::DelayMs(2),
        BusStep::En(false),
        BusStep::DelayMs(2),
    ]
}

/// The steps that write one byte to the LCD.
pub fn write(byte: u8) -> (steps: Vec<BusStep>)
    ensures
        steps@ == write_steps(byte),
{
    let mut steps = vec![
        BusStep::Rw(true),
        BusStep::En(true),
        BusStep::AwaitNotBusy,
        BusStep::En(false),
        BusStep::Rw(false),
    ];
    let mut bits = set_bus_bits(byte);
    steps.append(&mut bits);
    steps.push(BusStep::En(true));
    steps.push(BusStep::DelayMs(2));
    steps.push(BusStep::En(false));
    steps.push(BusStep::DelayMs(2));
    assert(steps@ =~= write_steps(byte));
    steps
}

/// Sending an instruction: RS low, then the byte.
pub open spec fn cmd_steps(cmd: u8) -> Seq<BusStep> {
    seq![BusStep::Rs(false)] + write_steps(cmd)
}

/// The steps that send the instruction `cmd`.
pub fn cmd(instruction: u8) -> (steps: Vec<BusStep>)
    ensures
        steps@ == cmd_steps(instruction),
{
    let mut steps = vec![BusStep::Rs(false)];
    let mut rest = write(instruction);
    steps.append(&mut rest);
    assert(steps@ =~= cmd_steps(instruction));
    steps
}

/// Power-on initialisation of the display: wait 40 ms for the supply, send
/// "function set, 8-bit" three times with 5 ms after the first two, then
/// 8-bit / 2-line / 5x8 font, display off, clear, entry mode (increment) and
/// display on with a blinking cursor.
pub open spec fn init_steps() -> Seq<BusStep> {
    seq![BusStep::DelayMs(40)] + cmd_steps(0b0011_0000) + seq![BusStep::DelayMs(5)] + cmd_steps(
        0b0011_0000,
    ) + seq![BusStep::DelayMs(5)] + cmd_steps(0b0011_0000) + cmd_steps(0b0011_1000) + cmd_steps(
        0b0000_1000,
    ) + cmd_steps(0b0000_0001) + cmd_steps(0b0000_0110) + cmd_steps(0b0000_1111)
}

/// The steps of the power-on initialisation.
pub fn init() -> (steps: Vec<BusStep>)
    ensures
        steps@ == init_steps(),
{
    let mut steps = vec![BusStep::DelayMs(40)];
    let mut c = cmd(0b0011_0000);
    steps.append(&mut c);
    steps.push(BusStep::DelayMs(5));
    let mut c = cmd(0b0011_0000);
    steps.append(&mut c);
    steps.push(BusStep::DelayMs(5));
    let mut c = cmd(0b0011_0000);
    steps.append(&mut c);
    let mut c = cmd(0b0011_1000);
    steps.append(&mut c);
    let mut c = cmd(0b0000_1000);
    steps.append(&mut c);
    let mut c = cmd(0b0000_0001);
    steps.append(&mut c);
    let mut c = cmd(0b0000_0110);
    steps.append(&mut c);
    let mut c = cmd(0b0000_1111);
    steps.append(&mut c);
    assert(steps@ =~= init_steps());
    steps
}

/// The bytes written one after the other.
pub open spec fn bytes_steps(bytes: Seq<u8>) -> Seq<BusStep>
    decreases bytes.len(),
{
    if bytes.len() == 0 {
        Seq::empty()
    } else {
        bytes_steps(bytes.drop_last()) + write_steps(bytes.last())
    }
}

/// Showing a string: RS high, then each of its UTF-8 bytes in order.
pub open spec fn display_steps(bytes: Seq<u8>) -> Seq<BusStep> {
    seq![BusStep::Rs(true)] + bytes_steps(bytes)
}

/// The steps that show `string` from the cursor on.
pub fn display(string: &str) -> (steps: Vec<BusStep>)
    ensures
        steps@ == display_steps(string.spec_bytes()),
{
    let bytes = string.as_bytes();
    let mut steps = vec![BusStep::Rs(true)];
    let mut i: usize = 0;
    while i < bytes.len()
        invariant
            i <= bytes@.len(),
            steps@ == seq![BusStep::Rs(true)] + bytes_steps(bytes@.subrange(0, i as int)),
        decreases bytes@.len() - i,
    {
        let mut more = write(bytes[i]);
        steps.append(&mut more);
        assert(bytes@.subrange(0, i as int + 1).drop_last() =~= bytes@.subrange(0, i as int));
        assert(seq![BusStep::Rs(true)] + bytes_steps(bytes@.subrange(0, i as int + 1)) =~= seq![
            BusStep::Rs(true),
        ] + bytes_steps(bytes@.subrange(0, i as int)) + write_steps(bytes@[i as int]));
        i += 1;
    }
    assert(bytes@.subrange(0, bytes@.len() as int) =~= bytes@);
    steps
}

/// The number carried by the data lines that a sequence of steps drives high:
/// `2^n` for each step that drives `Dn` high.
pub open spec fn bus_value(steps: Seq<BusStep>) -> int
    decreases steps.len(),
{
    if steps.len() == 0 {
        0
    } else {
        (match steps[0] {
            BusStep::Data(n, true) => pow2(n as nat) as int,
            _ => 0int,
        }) + bus_value(steps.drop_first())
    }
}

/// The data lines carry exactly the low seven bits of the byte put on the bus,
/// each line driven once.
pub proof fn lemma_bus_bits_carry_low_seven_bits(data: u8)
    ensures
        bus_value(bus_bit_steps(data)) == data as int % 128,
        forall|i: int|
            0 <= i < 7 ==> ((#[trigger] bus_bit_steps(data)[i]) matches BusStep::Data(n, _) && n
                == 6 - i),
{
    reveal_with_fuel(bus_value, 8);
    lemma2_to64();
    let s = bus_bit_steps(data);
    assert(s.drop_first().drop_first().drop_first().drop_first().drop_first().drop_first().drop_first()
        =~= Seq::<BusStep>::empty());
    assert(data % 128 == (data / 64) % 2 * 64 + (data / 32) % 2 * 32 + (data / 16) % 2 * 16 + (data
        / 8) % 2 * 8 + (data / 4) % 2 * 4 + (data / 2) % 2 * 2 + data % 2) by (bit_vector);
}

/// Writing a byte puts exactly its low seven bits on the data lines: line `Dn`
/// is driven to bit `n` of the byte, for every byte.
#[verifier::spinoff_prover]
#[verifier::rlimit(30)]
pub proof fn lemma_write_puts_byte_on_bus(byte: u8)
    ensures
        write_steps(byte).len() == 16,
        forall|i: int|
            0 <= i < 7 ==> #[trigger] write_steps(byte)[11 - i] == BusStep::Data(
                i as u8,
                (byte as int / pow2(i as nat) as int) % 2 == 1,
            ),
        bus_value(write_steps(byte).subrange(5, 12)) == byte as int % 128,
{
    lemma2_to64();
    lemma_bus_bits_carry_low_seven_bits(byte);
    let w = write_steps(byte);
    assert(w.subrange(5, 12) =~= bus_bit_steps(byte));
    assert forall|i: int| 0 <= i < 7 implies #[trigger] w[11 - i] == BusStep::Data(
        i as u8,
        (byte as int / pow2(i as nat) as int) % 2 == 1,
    ) by {
        lemma2_to64();
        assert(w[11 - i] == bus_bit_steps(byte)[6 - i]);
        let b = byte as int;
        if i == 0 {
            assert(b / pow2(0) as int == b);
        } else if i == 1 {
            assert(pow2(1) == 2);
        } else if i == 2 {
            assert(pow2(2) == 4);
        } else if i == 3 {
            assert(pow2(3) == 8);
        } else if i == 4 {
            assert(pow2(4) == 16);
        } else if i == 5 {
            assert(pow2(5) == 32);
        } else {
            assert(pow2(6) == 64);
        }
    }
}

/// Writing a byte follows the HD44780 write cycle for every byte: with EN high
/// in read mode the busy flag is awaited, EN drops, write mode is selected, the
/// seven data lines are set, and only then EN is pulsed high for 2 ms and left
/// low for 2 ms.
pub proof fn lemma_write_cycle(byte: u8)
    ensures
        write_steps(byte)[0] == BusStep::Rw(true),
        write_steps(byte)[1] == BusStep::En(true),
        write_steps(byte)[2] == BusStep::AwaitNotBusy,
        write_steps(byte)[3] == BusStep::En(false),
        write_steps(byte)[4] == BusStep::Rw(false),
        forall|i: int| 5 <= i < 12 ==> (#[trigger] write_steps(byte)[i]) is Data,
        write_steps(byte)[12] == BusStep::En(true),
        write_steps(byte)[13] == BusStep::DelayMs(2),
        write_steps(byte)[14] == BusStep::En(false),
        write_steps(byte)[15] == BusStep::DelayMs(2),
{
    lemma_write_puts_byte_on_bus(byte);
    assert forall|i: int| 5 <= i < 12 implies (#[trigger] write_steps(byte)[i]) is Data by {
        assert(write_steps(byte)[11 - (11 - i)] == write_steps(byte)[i]);
    }
}

/// An instruction is sent unchanged: RS goes low, then the instruction byte is
/// written, so its low seven bits are on the data lines, for every byte.
pub proof fn lemma_cmd_sends_instruction(instruction: u8)
    ensures
        cmd_steps(instruction)[0] == BusStep::Rs(false),
        cmd_steps(instruction).drop_first() == write_steps(instruction),
        cmd_steps(instruction).len() == 17,
        bus_value(cmd_steps(instruction).subrange(6, 13)) == instruction as int % 128,
{
    lemma_write_puts_byte_on_bus(instruction);
    let c = cmd_steps(instruction);
    assert(c.drop_first() =~= write_steps(instruction));
    assert(c.subrange(6, 13) =~= write_steps(instruction).subrange(5, 12));
}

/// The bytes of a text are written one after the other, 16 steps each.
#[verifier::spinoff_prover]
#[verifier::rlimit(30)]
pub proof fn lemma_bytes_steps(bytes: Seq<u8>)
    ensures
        bytes_steps(bytes).len() == 16 * bytes.len(),
        forall|k: int|
            0 <= k < bytes.len() ==> #[trigger] bytes_steps(bytes).subrange(16 * k, 16 * k + 16)
                == write_steps(bytes[k]),
    decreases bytes.len(),
{
    if bytes.len() > 0 {
        let init = bytes.drop_last();
        let last = write_steps(bytes.last());
        lemma_bytes_steps(init);
        assert(last.len() == 16);
        let front = bytes_steps(init);
        let all = bytes_steps(bytes);
        assert(all == front + last);
        let n = bytes.len() as int;
        assert forall|k: int| 0 <= k < n implies #[trigger] all.subrange(16 * k, 16 * k + 16)
            == write_steps(bytes[k]) by {
            if k < n - 1 {
                lemma_subrange_of_front(front, last, 16 * k, 16 * k + 16);
                assert(front.subrange(16 * k, 16 * k + 16) == write_steps(init[k]));
                assert(init[k] == bytes[k]);
            } else {
                assert(all.subrange(16 * k, 16 * k + 16) =~= last);
            }
        }
    }
}

/// A range inside the first part of a concatenation is that range of the
/// first part.
proof fn lemma_subrange_of_front(front: Seq<BusStep>, back: Seq<BusStep>, i: int, j: int)
    requires
        0 <= i <= j <= front.len(),
    ensures
        (front + back).subrange(i, j) == front.subrange(i, j),
{
    assert((front + back).subrange(i, j) =~= front.subrange(i, j));
}

/// Showing a text selects the data register and then writes every byte of the
/// text unchanged and in order: the `k`-th byte's low seven bits are on the
/// data lines in its write cycle, for every text.
#[verifier::spinoff_prover]
#[verifier::rlimit(30)]
pub proof fn lemma_display_writes_each_byte(bytes: Seq<u8>)
    ensures
        display_steps(bytes)[0] == BusStep::Rs(true),
        display_steps(bytes).len() == 1 + 16 * bytes.len(),
        forall|k: int|
            0 <= k < bytes.len() ==> #[trigger] display_steps(bytes).subrange(
                1 + 16 * k,
                17 + 16 * k,
            ) == write_steps(bytes[k]),
        forall|k: int|
            0 <= k < bytes.len() ==> bus_value(
                #[trigger] display_steps(bytes).subrange(6 + 16 * k, 13 + 16 * k),
            ) == bytes[k] as int % 128,
{
    lemma_bytes_steps(bytes);
    let d = display_steps(bytes);
    assert forall|k: int| 0 <= k < bytes.len() implies #[trigger] d.subrange(
        1 + 16 * k,
        17 + 16 * k,
    ) == write_steps(bytes[k]) by {
        assert(d.subrange(1 + 16 * k, 17 + 16 * k) =~= bytes_steps(bytes).subrange(
            16 * k,
            16 * k + 16,
        ));
    }
    assert forall|k: int| 0 <= k < bytes.len() implies bus_value(
        #[trigger] d.subrange(6 + 16 * k, 13 + 16 * k),
    ) == bytes[k] as int % 128 by {
        lemma_write_puts_byte_on_bus(bytes[k]);
        assert(d.subrange(1 + 16 * k, 17 + 16 * k) == write_steps(bytes[k]));
        assert(d.subrange(6 + 16 * k, 13 + 16 * k) =~= write_steps(bytes[k]).subrange(5, 12));
    }
}

/// The `j`-th instruction of the power-on initialisation.
pub open spec fn init_instruction(j: int) -> u8 {
    seq![
        0b0011_0000u8,
        0b0011_0000,
        0b0011_0000,
        0b0011_1000,
        0b0000_1000,
        0b0000_0001,
        0b0000_0110,
        0b0000_1111,
    ][j]
}

/// Where the `j`-th instruction of the power-on initialisation starts.
pub open spec fn init_instruction_start(j: int) -> int {
    seq![1int, 19, 37, 54, 71, 88, 105, 122][j]
}

/// Power-on initialisation waits 40 ms, then sends, each as an instruction
/// with RS low and its bits on the data lines, function set 8-bit three times
/// (with 5 ms after the first two), function set 8-bit / 2 lines / 5x8
/// (0x38), display off (0x08), clear display (0x01), entry mode increment
/// (0x06), and display on with a blinking cursor (0x0F).
#[verifier::spinoff_prover]
#[verifier::rlimit(30)]
pub proof fn lemma_init_sends_setup_instructions()
    ensures
        init_steps().len() == 139,
        init_steps()[0] == BusStep::DelayMs(40),
        init_steps()[18] == BusStep::DelayMs(5),
        init_steps()[36] == BusStep::DelayMs(5),
        init_instruction(0) == 0x30 && init_instruction(1) == 0x30 && init_instruction(2) == 0x30,
        init_instruction(3) == 0x38 && init_instruction(4) == 0x08 && init_instruction(5) == 0x01
            && init_instruction(6) == 0x06 && init_instruction(7) == 0x0F,
        forall|j: int|
            0 <= j < 8 ==> {
                &&& init_steps().subrange(
                    init_instruction_start(j),
                    init_instruction_start(j) + 17,
                ) == cmd_steps(#[trigger] init_instruction(j))
                &&& init_steps()[init_instruction_start(j)] == BusStep::Rs(false)
                &&& bus_value(
                    init_steps().subrange(
                        init_instruction_start(j) + 6,
                        init_instruction_start(j) + 13,
                    ),
                ) == init_instruction(j) as int
            },
{
    let s = init_steps();
    assert forall|j: int| 0 <= j < 8 implies {
        &&& s.subrange(init_instruction_start(j), init_instruction_start(j) + 17) == cmd_steps(
            #[trigger] init_instruction(j),
        )
        &&& s[init_instruction_start(j)] == BusStep::Rs(false)
        &&& bus_value(s.subrange(init_instruction_start(j) + 6, init_instruction_start(j) + 13))
            == init_instruction(j) as int
    } by {
        let start = init_instruction_start(j);
        let instruction = init_instruction(j);
        lemma_cmd_sends_instruction(instruction);
        if j == 0 {
            assert(s.subrange(start, start + 17) =~= cmd_steps(instruction));
        } else if j == 1 {
            assert(s.subrange(start, start + 17) =~= cmd_steps(instruction));
        } else if j == 2 {
            assert(s.subrange(start, start + 17) =~= cmd_steps(instruction));
        } else if j == 3 {
            assert(s.subrange(start, start + 17) =~= cmd_steps(instruction));
        } else if j == 4 {
            assert(s.subrange(start, start + 17) =~= cmd_steps(instruction));
        } else if j == 5 {
            assert(s.subrange(start, start + 17) =~= cmd_steps(instruction));
        } else if j == 6 {
            assert(s.subrange(start, start + 17) =~= cmd_steps(instruction));
        } else {
            assert(s.subrange(start, start + 17) =~= cmd_steps(instruction));
        }
        assert(s.subrange(start + 6, start + 13) =~= cmd_steps(instruction).subrange(6, 13));
        assert(s[start] == cmd_steps(instruction)[0]);
    }
}

} // verus!
