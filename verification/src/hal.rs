//! The init sequencer: brings the devices up once, in a fixed order.

use vstd::prelude::*;
use crate::mmio::{lemma_write_count_append, write_count, Access, Device, Platform};
use crate::uart::{
    init_sequence, lemma_wire_append, lock_acquire, lock_target, since, transmits, wire,
    SharedUart, Uart,
};

verus! {

/// Everything a cold boot does to the hardware, in order: memory-management
/// unit, interrupt controller, timer, the UART bring-up, then the pins.
///
/// The memory-management unit comes first, so that mappings are right
/// before any other register is touched; interrupts and timer come before
/// the UART, so that nothing it raises is lost; the pins come last.
pub open spec fn boot_sequence() -> Seq<Access> {
    seq![
        Access::BringUp { device: Device::Mmu },
        Access::BringUp { device: Device::InterruptController },
        Access::BringUp { device: Device::Timer },
    ] + init_sequence() + seq![Access::BringUp { device: Device::Gpio }]
}

/// The history of the hardware after a run of the sequencer that found the
/// flag at `initialized` and the history at `history`.
pub open spec fn history_after_init(initialized: bool, history: Seq<Access>) -> Seq<Access> {
    if initialized {
        history
    } else {
        history + boot_sequence()
    }
}

/// The init sequencer and its flag.
///
/// The flag is false at boot, is set by the first run of the sequencer and
/// is never cleared.
pub struct Hal {
    initialized: bool,
}

impl Hal {
    /// The flag: the hardware has been brought up.
    pub closed spec fn initialized(&self) -> bool {
        self.initialized
    }

    /// A sequencer at boot: nothing is brought up yet.
    pub fn new() -> (hal: Self)
        ensures
            !hal.initialized(),
    {
        Hal { initialized: false }
    }

    /// Reads the flag.
    pub fn is_initialized(&self) -> (flag: bool)
        ensures
            flag == self.initialized(),
    {
        self.initialized
    }

    /// Brings the hardware up, unless that was done before.
    ///
    /// The first run performs the boot sequence on the platform behind
    /// `uart` and sets the flag. Every later run touches nothing.
    pub fn init<P: Platform>(&mut self, uart: &mut Uart<P>)
        ensures
            final(self).initialized(),
            final(uart).history() == history_after_init(
                old(self).initialized(),
                old(uart).history(),
            ),
            old(self).initialized() ==> *final(uart) == *old(uart),
    {
        if self.initialized {
            return ;
        }
        uart.bus.bring_up(Device::Mmu);
        uart.bus.bring_up(Device::InterruptController);
        uart.bus.bring_up(Device::Timer);
        uart.init();
        uart.bus.bring_up(Device::Gpio);
        self.initialized = true;
        assert(uart.history() =~= old(uart).history() + boot_sequence());
    }
}

/// Brings the hardware behind the shared UART up, unless that was done
/// before, under one hold of the lock.
pub fn init<P: Platform>(hal: &mut Hal, console: &SharedUart<P>)
    ensures
        final(hal).initialized(),
{
    let mut guard = lock_acquire(&console.lock);
    let uart = lock_target(&mut guard);
    hal.init(uart);
}

/// Running the sequencer twice does to the hardware what running it once
/// does: the second run finds the flag set, adds nothing to the history and
/// so writes no register.
pub proof fn lemma_init_is_idempotent(initialized: bool, history: Seq<Access>)
    ensures
        history_after_init(true, history_after_init(initialized, history)) == history_after_init(
            initialized,
            history,
        ),
        write_count(history_after_init(true, history)) == write_count(history),
{
}

/// A cold boot writes six registers, those of the UART bring-up; what the
/// platform does to bring its other devices up is not counted here.
pub proof fn lemma_cold_boot_writes_six_registers(history: Seq<Access>)
    ensures
        write_count(history_after_init(false, history)) == write_count(history) + 6,
{
    lemma_write_count_append(history, boot_sequence());
    reveal_with_fuel(write_count, 11);
    assert(boot_sequence().len() == 10);
}

/// The boot sequence queues no byte for transmission: what the console
/// carries after a cold boot is what was written to it after the boot.
pub proof fn lemma_boot_sends_nothing()
    ensures
        wire(boot_sequence()) == Seq::<u8>::empty(),
{
    reveal_with_fuel(wire, 11);
    assert(boot_sequence().len() == 10);
}

/// From a cold boot to the first output: when the sequencer has run on a
/// cold flag and bytes were then transmitted, the console has carried these
/// bytes and nothing else since before the boot; and a run of the sequencer
/// after that leaves the history as it is.
pub proof fn lemma_cold_boot_then_output(
    start: Seq<Access>,
    booted: Seq<Access>,
    written: Seq<Access>,
    bytes: Seq<u8>,
)
    requires
        booted == history_after_init(false, start),
        booted.is_prefix_of(written),
        transmits(since(written, booted), bytes),
    ensures
        start.is_prefix_of(written),
        wire(since(written, start)) == bytes,
        history_after_init(true, written) == written,
{
    lemma_boot_sends_nothing();
    lemma_wire_append(boot_sequence(), since(written, booted));
    let boot = boot_sequence();
    assert(boot.len() == 10);
    assert(booted == start + boot);
    assert forall|k: int| 0 <= k < since(written, start).len() implies since(written, start)[k] == (
    boot + since(written, booted))[k] by {
        if k < boot.len() {
            assert(written[start.len() + k] == booted[start.len() + k]);
        }
    }
    assert(since(written, start) =~= boot + since(written, booted));
    assert(Seq::<u8>::empty() + bytes =~= bytes);
}

} // verus!
