use sage_os::baud::{baud_divisor, console_divisor, BaudDivisor, CONSOLE_BAUD, UART_CLOCK_HZ};
use sage_os::mmio::{
    Access, Register, RegisterBus, CR_RXE, CR_TXE, CR_UARTEN, FR_RXFE, FR_TXFF, ICR_ALL, LCRH_FEN,
    LCRH_WLEN_8BIT, MMIO_BASE, UART0_BASE,
};
use sage_os::sim::{ScriptedBus, IDLE_FLAGS};
use sage_os::uart::Uart;

struct CountingBus {
    reads: usize,
    writes: usize,
}

impl RegisterBus for CountingBus {
    fn read(&mut self, _reg: Register) -> u32 {
        self.reads += 1;
        0
    }

    fn write(&mut self, _reg: Register, _value: u32) {
        self.writes += 1;
    }
}

fn flag_read(value: u32) -> Access {
    Access::Read { reg: Register::Flag, value }
}

fn data_read(value: u32) -> Access {
    Access::Read { reg: Register::Data, value }
}

fn data_write(value: u32) -> Access {
    Access::Write { reg: Register::Data, value }
}

#[test]
fn driver_runs_on_a_bus_written_outside_the_library() {
    let mut uart = Uart::new(CountingBus { reads: 0, writes: 0 });
    uart.init();
    uart.send(b'x');
    let bus = uart.into_bus();
    assert_eq!(bus.writes, 7);
    assert_eq!(bus.reads, 1);
}

#[test]
fn divisor_for_48_mhz_and_115200_baud_is_26_and_3() {
    assert_eq!(
        baud_divisor(48_000_000, 115_200),
        Some(BaudDivisor { integer: 26, fraction: 3 })
    );
    assert_eq!(UART_CLOCK_HZ, 48_000_000);
    assert_eq!(CONSOLE_BAUD, 115_200);
    assert_eq!(console_divisor(), BaudDivisor { integer: 26, fraction: 3 });
}

#[test]
fn divisor_for_3_mhz_and_115200_baud_is_1_and_40() {
    assert_eq!(
        baud_divisor(3_000_000, 115_200),
        Some(BaudDivisor { integer: 1, fraction: 40 })
    );
}

#[test]
fn divisor_without_remainder_has_no_fraction() {
    assert_eq!(baud_divisor(1_843_200, 115_200), Some(BaudDivisor { integer: 1, fraction: 0 }));
    assert_eq!(baud_divisor(0, 9_600), Some(BaudDivisor { integer: 0, fraction: 0 }));
}

#[test]
fn divisor_fraction_rounds_half_up() {
    // remainder 200 of 1600: 8 sixty-fourths exactly
    assert_eq!(baud_divisor(1_800, 100), Some(BaudDivisor { integer: 1, fraction: 8 }));
    // remainder 1 of 32: 2 sixty-fourths
    assert_eq!(baud_divisor(33, 2), Some(BaudDivisor { integer: 1, fraction: 2 }));
    // remainder 1 of 128: exactly half a sixty-fourth, which rounds up
    assert_eq!(baud_divisor(129, 8), Some(BaudDivisor { integer: 1, fraction: 1 }));
    // remainder 1 of 256: a quarter of a sixty-fourth, which rounds down
    assert_eq!(baud_divisor(257, 16), Some(BaudDivisor { integer: 1, fraction: 0 }));
}

#[test]
fn divisor_fraction_can_round_up_to_64() {
    assert_eq!(baud_divisor(3_199, 100), Some(BaudDivisor { integer: 1, fraction: 64 }));
}

#[test]
fn divisor_of_the_largest_clock_fits() {
    assert_eq!(
        baud_divisor(u32::MAX, 1),
        Some(BaudDivisor { integer: 268_435_455, fraction: 60 })
    );
    assert_eq!(baud_divisor(u32::MAX, u32::MAX), Some(BaudDivisor { integer: 0, fraction: 4 }));
}

#[test]
fn there_is_no_divisor_for_baud_zero() {
    assert_eq!(baud_divisor(48_000_000, 0), None);
    assert_eq!(baud_divisor(0, 0), None);
}

#[test]
fn registers_lie_at_their_documented_addresses() {
    assert_eq!(MMIO_BASE, 0xFE00_0000);
    assert_eq!(UART0_BASE, 0xFE20_1000);
    assert_eq!(Register::Data.offset(), 0x00);
    assert_eq!(Register::Flag.offset(), 0x18);
    assert_eq!(Register::IntegerBaud.offset(), 0x24);
    assert_eq!(Register::FractionalBaud.offset(), 0x28);
    assert_eq!(Register::LineControl.offset(), 0x2C);
    assert_eq!(Register::Control.offset(), 0x30);
    assert_eq!(Register::InterruptMask.offset(), 0x38);
    assert_eq!(Register::InterruptClear.offset(), 0x44);
    assert_eq!(Register::Data.address(), 0xFE20_1000);
    assert_eq!(Register::Flag.address(), 0xFE20_1018);
    assert_eq!(Register::InterruptClear.address(), 0xFE20_1044);
}

#[test]
fn register_bits_are_bit_exact() {
    assert_eq!(FR_RXFE, 1 << 4);
    assert_eq!(FR_TXFF, 1 << 5);
    assert_eq!(LCRH_FEN, 1 << 4);
    assert_eq!(LCRH_WLEN_8BIT, 0b11 << 5);
    assert_eq!(CR_UARTEN, 1 << 0);
    assert_eq!(CR_TXE, 1 << 8);
    assert_eq!(CR_RXE, 1 << 9);
    assert_eq!(ICR_ALL, 0x7FF);
}

#[test]
fn init_writes_the_bring_up_sequence() {
    let mut uart = Uart::new(ScriptedBus::new());
    uart.init();
    let bus = uart.into_bus();
    let expected = vec![
        Access::Write { reg: Register::Control, value: 0 },
        Access::Write { reg: Register::InterruptClear, value: 0x7FF },
        Access::Write { reg: Register::IntegerBaud, value: 26 },
        Access::Write { reg: Register::FractionalBaud, value: 3 },
        Access::Write { reg: Register::LineControl, value: 0x70 },
        Access::Write { reg: Register::Control, value: 0x301 },
    ];
    assert_eq!(bus.log(), &expected);
    assert_eq!(bus.writes(), 6);
    assert_eq!(bus.transmitted(), Vec::<u8>::new());
}

#[test]
fn init_twice_on_the_driver_writes_the_sequence_twice() {
    let mut uart = Uart::new(ScriptedBus::new());
    uart.init();
    uart.init();
    assert_eq!(uart.bus.writes(), 12);
    assert_eq!(uart.bus.log()[6], Access::Write { reg: Register::Control, value: 0 });
}

#[test]
fn send_writes_at_once_when_the_fifo_has_room() {
    let mut uart = Uart::new(ScriptedBus::new());
    uart.send(0x41);
    let bus = uart.into_bus();
    assert_eq!(bus.log(), &vec![flag_read(IDLE_FLAGS), data_write(0x41)]);
    assert_eq!(bus.transmitted(), vec![0x41]);
}

#[test]
fn send_spins_while_the_transmit_fifo_is_full() {
    let flags = vec![FR_TXFF, FR_TXFF | FR_RXFE, 0xFFFF_FFFF, 0];
    let mut uart = Uart::new(ScriptedBus::with_script(flags, Vec::new()));
    uart.send(0xFF);
    let bus = uart.into_bus();
    assert_eq!(
        bus.log(),
        &vec![
            flag_read(0x20),
            flag_read(0x30),
            flag_read(0xFFFF_FFFF),
            flag_read(0),
            data_write(0xFF),
        ]
    );
    assert_eq!(bus.writes(), 1);
}

#[test]
fn send_looks_at_the_transmit_full_bit_alone() {
    let flags = vec![!FR_TXFF];
    let mut uart = Uart::new(ScriptedBus::with_script(flags, Vec::new()));
    uart.send(0);
    let bus = uart.into_bus();
    assert_eq!(bus.log(), &vec![flag_read(0xFFFF_FFDF), data_write(0)]);
}

#[test]
fn send_followed_by_send_keeps_the_order() {
    let flags = vec![FR_TXFF, 0, FR_TXFF, FR_TXFF, 0];
    let mut uart = Uart::new(ScriptedBus::with_script(flags, Vec::new()));
    uart.send(b'1');
    uart.send(b'2');
    let bus = uart.into_bus();
    assert_eq!(
        bus.log(),
        &vec![
            flag_read(0x20),
            flag_read(0),
            data_write(0x31),
            flag_read(0x20),
            flag_read(0x20),
            flag_read(0),
            data_write(0x32),
        ]
    );
    assert_eq!(bus.transmitted(), vec![b'1', b'2']);
}

#[test]
fn receive_returns_no_data_when_the_receive_fifo_is_empty() {
    let mut uart = Uart::new(ScriptedBus::with_script(vec![FR_RXFE], vec![0x41]));
    assert_eq!(uart.receive(), None);
    assert_eq!(uart.bus.log(), &vec![flag_read(0x10)]);
}

#[test]
fn receive_returns_no_data_whatever_the_other_flag_bits_are() {
    let mut uart = Uart::new(ScriptedBus::with_script(vec![0xFFFF_FFFF, 0x30], vec![0x41]));
    assert_eq!(uart.receive(), None);
    assert_eq!(uart.receive(), None);
    assert_eq!(uart.bus.log(), &vec![flag_read(0xFFFF_FFFF), flag_read(0x30)]);
}

#[test]
fn receive_masks_the_data_register_to_its_low_eight_bits() {
    let mut uart = Uart::new(ScriptedBus::with_script(vec![0], vec![0x1FF41]));
    assert_eq!(uart.receive(), Some(0x41));
    assert_eq!(uart.bus.log(), &vec![flag_read(0), data_read(0x1FF41)]);
}

#[test]
fn receive_returns_data_whenever_the_receive_empty_bit_is_clear() {
    let flags = vec![!FR_RXFE, FR_TXFF, 0];
    let data = vec![0xFFFF_FF00, 0x0000_00FF, 0x8000_0080];
    let mut uart = Uart::new(ScriptedBus::with_script(flags, data));
    assert_eq!(uart.receive(), Some(0x00));
    assert_eq!(uart.receive(), Some(0xFF));
    assert_eq!(uart.receive(), Some(0x80));
    assert_eq!(uart.bus.writes(), 0);
}

#[test]
fn receive_does_not_wait() {
    let mut uart = Uart::new(ScriptedBus::new());
    assert_eq!(uart.receive(), None);
    assert_eq!(uart.receive(), None);
    assert_eq!(uart.bus.log().len(), 2);
}

#[test]
fn write_string_sends_each_byte_in_order() {
    let mut uart = Uart::new(ScriptedBus::new());
    uart.write_string("hello");
    let bus = uart.into_bus();
    assert_eq!(bus.transmitted(), b"hello".to_vec());
    assert_eq!(bus.writes(), 5);
    assert_eq!(bus.log().len(), 10);
    assert_eq!(bus.log()[0], flag_read(IDLE_FLAGS));
    assert_eq!(bus.log()[1], data_write(b'h' as u32));
    assert_eq!(bus.log()[9], data_write(b'o' as u32));
}

#[test]
fn write_string_sends_the_utf8_bytes_of_the_text() {
    let mut uart = Uart::new(ScriptedBus::new());
    uart.write_string("é€");
    assert_eq!(uart.bus.transmitted(), vec![0xC3, 0xA9, 0xE2, 0x82, 0xAC]);
}

#[test]
fn write_string_of_an_empty_text_touches_nothing() {
    let mut uart = Uart::new(ScriptedBus::new());
    uart.write_string("");
    uart.write_bytes(&[]);
    assert_eq!(uart.bus.log().len(), 0);
}

#[test]
fn write_bytes_waits_before_every_byte() {
    let flags = vec![0, FR_TXFF, 0];
    let mut uart = Uart::new(ScriptedBus::with_script(flags, Vec::new()));
    uart.write_bytes(&[1, 2, 3]);
    assert_eq!(
        uart.bus.log(),
        &vec![
            flag_read(0),
            data_write(1),
            flag_read(0x20),
            flag_read(0),
            data_write(2),
            flag_read(IDLE_FLAGS),
            data_write(3),
        ]
    );
}

#[test]
fn two_writes_on_one_driver_are_one_after_the_other() {
    let mut uart = Uart::new(ScriptedBus::new());
    uart.write_string("first caller ");
    uart.write_string("second caller");
    assert_eq!(uart.bus.transmitted(), b"first caller second caller".to_vec());
}

#[test]
fn the_flag_register_is_read_only_and_interrupt_clear_is_write_only() {
    let all = [
        Register::Data,
        Register::Flag,
        Register::IntegerBaud,
        Register::FractionalBaud,
        Register::LineControl,
        Register::Control,
        Register::InterruptMask,
        Register::InterruptClear,
    ];
    for reg in all {
        assert_eq!(reg.readable(), reg != Register::InterruptClear);
        assert_eq!(reg.writable(), reg != Register::Flag);
    }
}
