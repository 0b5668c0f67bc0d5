use sage_os::console::{emit, emit_line, CR, LF};
use sage_os::hal::Hal;
use sage_os::mmio::{Access, Device, Register};
use sage_os::sim::ScriptedBus;
use sage_os::uart::{SharedUart, Uart};

fn boot_log() -> Vec<Access> {
    vec![
        Access::BringUp { device: Device::Mmu },
        Access::BringUp { device: Device::InterruptController },
        Access::BringUp { device: Device::Timer },
        Access::Write { reg: Register::Control, value: 0 },
        Access::Write { reg: Register::InterruptClear, value: 0x7FF },
        Access::Write { reg: Register::IntegerBaud, value: 26 },
        Access::Write { reg: Register::FractionalBaud, value: 3 },
        Access::Write { reg: Register::LineControl, value: 0x70 },
        Access::Write { reg: Register::Control, value: 0x301 },
        Access::BringUp { device: Device::Gpio },
    ]
}

#[test]
fn the_flag_is_false_at_boot() {
    let hal = Hal::new();
    assert!(!hal.is_initialized());
}

#[test]
fn first_init_brings_the_devices_up_in_order() {
    let mut hal = Hal::new();
    let mut uart = Uart::new(ScriptedBus::new());
    hal.init(&mut uart);
    assert!(hal.is_initialized());
    assert_eq!(uart.bus.log(), &boot_log());
    assert_eq!(uart.bus.writes(), 6);
}

#[test]
fn second_init_writes_no_register() {
    let mut hal = Hal::new();
    let mut uart = Uart::new(ScriptedBus::new());
    hal.init(&mut uart);
    let writes = uart.bus.writes();
    let accesses = uart.bus.log().len();
    hal.init(&mut uart);
    assert!(hal.is_initialized());
    assert_eq!(uart.bus.writes(), writes);
    assert_eq!(uart.bus.log().len(), accesses);
    hal.init(&mut uart);
    assert_eq!(uart.bus.log(), &boot_log());
}

#[test]
fn init_adds_to_what_the_bus_has_seen_before() {
    let mut hal = Hal::new();
    let mut uart = Uart::new(ScriptedBus::new());
    uart.send(b'!');
    hal.init(&mut uart);
    assert_eq!(uart.bus.log().len(), 12);
    assert_eq!(uart.bus.log()[2], Access::BringUp { device: Device::Mmu });
    assert_eq!(uart.bus.log()[11], Access::BringUp { device: Device::Gpio });
}

#[test]
fn cold_boot_then_ok_line_then_second_init() {
    let mut hal = Hal::new();
    assert!(!hal.is_initialized());
    let mut uart = Uart::new(ScriptedBus::new());
    hal.init(&mut uart);
    emit_line(&mut uart, "OK");
    assert_eq!(uart.bus.transmitted(), vec![b'O', b'K', b'\r', b'\n']);
    let writes = uart.bus.writes();
    hal.init(&mut uart);
    assert_eq!(uart.bus.writes(), writes);
    assert_eq!(uart.bus.transmitted(), vec![b'O', b'K', b'\r', b'\n']);
}

#[test]
fn shared_init_runs_the_sequencer_once() {
    let mut hal = Hal::new();
    let shared = SharedUart::new(Uart::new(ScriptedBus::new()));
    sage_os::hal::init(&mut hal, &shared);
    assert!(hal.is_initialized());
    sage_os::hal::init(&mut hal, &shared);
    let bus = shared.into_inner().into_bus();
    assert_eq!(bus.log(), &boot_log());
}

#[test]
fn line_terminator_is_cr_then_lf() {
    assert_eq!(CR, 0x0D);
    assert_eq!(LF, 0x0A);
    let mut uart = Uart::new(ScriptedBus::new());
    emit_line(&mut uart, "hello, world");
    let sent = uart.bus.transmitted();
    assert_eq!(sent, b"hello, world\r\n".to_vec());
    assert_eq!(sent[sent.len() - 2], 0x0D);
    assert_eq!(sent[sent.len() - 1], 0x0A);
}

#[test]
fn an_empty_line_is_the_terminator_alone() {
    let mut uart = Uart::new(ScriptedBus::new());
    emit_line(&mut uart, "");
    assert_eq!(uart.bus.transmitted(), vec![0x0D, 0x0A]);
}

#[test]
fn emit_adds_nothing_to_the_text() {
    let mut uart = Uart::new(ScriptedBus::new());
    emit(&mut uart, "no line break");
    emit(&mut uart, "");
    assert_eq!(uart.bus.transmitted(), b"no line break".to_vec());
}

#[test]
fn a_line_feed_inside_the_text_is_sent_as_it_is() {
    let mut uart = Uart::new(ScriptedBus::new());
    emit_line(&mut uart, "a\nb");
    assert_eq!(uart.bus.transmitted(), vec![b'a', 0x0A, b'b', 0x0D, 0x0A]);
}

#[test]
fn shared_console_prints_with_and_without_line_end() {
    let console = SharedUart::new(Uart::new(ScriptedBus::new()));
    sage_os::console::print(&console, "sage> ");
    sage_os::console::println(&console, "ready");
    sage_os::console::println(&console, "");
    let bus = console.into_inner().into_bus();
    assert_eq!(bus.transmitted(), b"sage> ready\r\n\r\n".to_vec());
}

#[test]
fn shared_uart_operations_act_on_the_one_device() {
    let flags = vec![0x20, 0x00, 0x10, 0x00];
    let shared = SharedUart::new(Uart::new(ScriptedBus::with_script(flags, vec![0x1FF41])));
    sage_os::uart::send(&shared, b'a');
    assert_eq!(sage_os::uart::receive(&shared), None);
    assert_eq!(sage_os::uart::receive(&shared), Some(0x41));
    sage_os::uart::write_string(&shared, "bc");
    sage_os::uart::init(&shared);
    let bus = shared.into_inner().into_bus();
    assert_eq!(bus.transmitted(), b"abc".to_vec());
    assert_eq!(bus.writes(), 9);
    assert_eq!(bus.log()[0], Access::Read { reg: Register::Flag, value: 0x20 });
    assert_eq!(bus.log()[2], Access::Write { reg: Register::Data, value: 0x61 });
}

#[test]
fn writes_of_two_callers_through_the_lock_do_not_mix() {
    let shared = SharedUart::new(Uart::new(ScriptedBus::new()));
    let one = &shared;
    let two = &shared;
    sage_os::uart::write_string(one, "first caller's bytes|");
    sage_os::uart::send(two, b'x');
    sage_os::uart::send(two, b'y');
    sage_os::uart::write_string(one, "|again");
    let bus = shared.into_inner().into_bus();
    assert_eq!(bus.transmitted(), b"first caller's bytes|xy|again".to_vec());
}
