//! The register model: where each device register lives, what its bits mean,
//! and the bus through which drivers reach it.

use vstd::prelude::*;

verus! {

/// Base of the memory-mapped peripheral window.
pub const MMIO_BASE: usize = 0xFE00_0000;

/// Base of the first UART block inside the peripheral window.
pub const UART0_BASE: usize = MMIO_BASE + 0x20_1000;

/// Flag register: the receive FIFO is empty.
pub const FR_RXFE: u32 = 0x10;

/// Flag register: the transmit FIFO is full.
pub const FR_TXFF: u32 = 0x20;

/// Line control: eight data bits per word.
pub const LCRH_WLEN_8BIT: u32 = 0x60;

/// Line control: FIFOs enabled.
pub const LCRH_FEN: u32 = 0x10;

/// Control: the UART block is enabled.
pub const CR_UARTEN: u32 = 0x01;

/// Control: the transmit path is enabled.
pub const CR_TXE: u32 = 0x100;

/// Control: the receive path is enabled.
pub const CR_RXE: u32 = 0x200;

/// Interrupt clear: every interrupt cause of the UART.
pub const ICR_ALL: u32 = 0x7FF;

/// A register of the UART block.
#[derive(Clone, Copy, Debug, PartialEq, Eq, Structural)]
pub enum Register {
    /// Data register: a write queues a byte, a read takes one.
    Data,
    /// Flag register: FIFO status bits.
    Flag,
    /// Integer part of the baud-rate divisor.
    IntegerBaud,
    /// Fractional part of the baud-rate divisor.
    FractionalBaud,
    /// Line control register.
    LineControl,
    /// Control register.
    Control,
    /// Interrupt mask register.
    InterruptMask,
    /// Interrupt clear register.
    InterruptClear,
}

impl Register {
    /// Byte offset of the register from the start of the UART block.
    pub open spec fn spec_offset(self) -> usize {
        match self {
            Register::Data => 0x00,
            Register::Flag => 0x18,
            Register::IntegerBaud => 0x24,
            Register::FractionalBaud => 0x28,
            Register::LineControl => 0x2C,
            Register::Control => 0x30,
            Register::InterruptMask => 0x38,
            Register::InterruptClear => 0x44,
        }
    }

    /// Physical address of the register.
    pub open spec fn spec_address(self) -> usize {
        (UART0_BASE + self.spec_offset()) as usize
    }

    /// Byte offset of the register from the start of the UART block.
    #[verifier::when_used_as_spec(spec_offset)]
    pub fn offset(self) -> (off: usize)
        ensures
            off == self.spec_offset(),
    {
        match self {
            Register::Data => 0x00,
            Register::Flag => 0x18,
            Register::IntegerBaud => 0x24,
            Register::FractionalBaud => 0x28,
            Register::LineControl => 0x2C,
            Register::Control => 0x30,
            Register::InterruptMask => 0x38,
            Register::InterruptClear => 0x44,
        }
    }

    /// Physical address of the register.
    #[verifier::when_used_as_spec(spec_address)]
    pub fn address(self) -> (addr: usize)
        ensures
            addr == self.spec_address(),
            addr == 0xFE20_1000 + self.spec_offset(),
    {
        UART0_BASE + self.offset()
    }
}

impl Register {
    /// The register may be read: every register but the interrupt clear
    /// register, which is write-only.
    pub open spec fn spec_readable(self) -> bool {
        self != Register::InterruptClear
    }

    /// The register may be written: every register but the flag register,
    /// which is read-only.
    pub open spec fn spec_writable(self) -> bool {
        self != Register::Flag
    }

    /// Tells whether the register may be read.
    #[verifier::when_used_as_spec(spec_readable)]
    pub fn readable(self) -> (yes: bool)
        ensures
            yes == self.spec_readable(),
    {
        match self {
            Register::InterruptClear => false,
            _ => true,
        }
    }

    /// Tells whether the register may be written.
    #[verifier::when_used_as_spec(spec_writable)]
    pub fn writable(self) -> (yes: bool)
        ensures
            yes == self.spec_writable(),
    {
        match self {
            Register::Flag => false,
            _ => true,
        }
    }
}

/// The transmit FIFO reports full in this flag register value.
pub open spec fn transmit_full(flags: u32) -> bool {
    flags & FR_TXFF != 0
}

/// The receive FIFO reports empty in this flag register value.
pub open spec fn receive_empty(flags: u32) -> bool {
    flags & FR_RXFE != 0
}

/// A device that the kernel brings up at boot.
#[derive(Clone, Copy, Debug, PartialEq, Eq, Structural)]
pub enum Device {
    /// Memory-management unit.
    Mmu,
    /// Interrupt controller.
    InterruptController,
    /// System timer.
    Timer,
    /// Console UART.
    Uart,
    /// General-purpose input and output pins.
    Gpio,
}

/// One thing done to the hardware, as seen on the bus.
#[derive(Clone, Copy, Debug, PartialEq, Eq, Structural)]
pub enum Access {
    /// A read of `reg` that returned `value`.
    Read { reg: Register, value: u32 },
    /// A write of `value` to `reg`.
    Write { reg: Register, value: u32 },
    /// The bring-up of `device` by the platform's own driver for it.
    BringUp { device: Device },
}

/// The access keeps to what its register allows: no read of a write-only
/// register, no write of a read-only one.
pub open spec fn allowed(access: Access) -> bool {
    match access {
        Access::Read { reg, .. } => reg.spec_readable(),
        Access::Write { reg, .. } => reg.spec_writable(),
        Access::BringUp { .. } => true,
    }
}

/// The number of register writes in a run of accesses.
pub open spec fn write_count(trace: Seq<Access>) -> nat
    decreases trace.len(),
{
    if trace.len() == 0 {
        0
    } else {
        write_count(trace.drop_last()) + if trace.last() is Write {
            1nat
        } else {
            0nat
        }
    }
}

/// The register writes of two runs, one after the other, add up.
pub proof fn lemma_write_count_append(first: Seq<Access>, second: Seq<Access>)
    ensures
        write_count(first + second) == write_count(first) + write_count(second),
    decreases second.len(),
{
    if second.len() == 0 {
        assert(first + second =~= first);
    } else {
        lemma_write_count_append(first, second.drop_last());
        assert((first + second).drop_last() =~= first + second.drop_last());
    }
}

/// A bus on which device registers are read and written.
///
/// An access is never cached, merged or reordered: each call of `read` or
/// `write` is one access, and `history` lists them in the order of the calls.
///
/// The drivers are proved for every bus that meets the contracts of `read`
/// and `write`. A bus that is itself verified says what its history and its
/// stall bound are. A bus for raw hardware is written where the verifier
/// does not look; it leaves both as they stand here, and these contracts are
/// then what the hardware is taken to do.
pub trait RegisterBus {
    /// Every access made so far, oldest first.
    open spec fn history(&self) -> Seq<Access> {
        Seq::empty()
    }

    /// A bound on how many more reads of the flag register can report a full
    /// transmit FIFO before the device drains it.
    ///
    /// A driver that waits for room in the FIFO ends its wait only because
    /// of this bound. Behind a device that never drains, the wait never ends.
    open spec fn stall(&self) -> nat {
        0
    }

    /// Reads a register.
    fn read(&mut self, reg: Register) -> (value: u32)
        ensures
            final(self).history() == old(self).history().push(Access::Read { reg, value }),
            reg == Register::Flag && transmit_full(value) ==> final(self).stall() < old(self).stall(),
    ;

    /// Writes a register.
    fn write(&mut self, reg: Register, value: u32)
        ensures
            final(self).history() == old(self).history().push(Access::Write { reg, value }),
    ;
}

/// A board: the register bus of its UART, and its own drivers for the
/// devices whose registers differ from one board family to the next.
///
/// Which board the kernel runs on is fixed when it is built: the type that
/// stands for this trait is the one platform of that build.
pub trait Platform: RegisterBus {
    /// Brings `device` to its enabled baseline state.
    fn bring_up(&mut self, device: Device)
        ensures
            final(self).history() == old(self).history().push(Access::BringUp { device }),
    ;
}

} // verus!
