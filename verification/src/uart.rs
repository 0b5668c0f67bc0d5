//! The UART driver: bring-up, blocking transmit, non-blocking receive.

use vstd::prelude::*;
use vstd::string::StringSliceAdditionalSpecFns;
use crate::baud::{
    console_divisor, fraction_divisor, integer_divisor, lemma_console_divisor, CONSOLE_BAUD,
    UART_CLOCK_HZ,
};
use crate::mmio::{
    allowed, receive_empty, transmit_full, Access, Register, RegisterBus, CR_RXE, CR_TXE,
    CR_UARTEN, FR_RXFE, FR_TXFF, ICR_ALL, LCRH_FEN, LCRH_WLEN_8BIT,
};

verus! {

/// Line control value of the console: eight data bits, FIFOs enabled.
pub open spec fn line_control_word() -> u32 {
    LCRH_WLEN_8BIT | LCRH_FEN
}

/// Control value of a running UART: block, transmit path and receive path
/// enabled.
pub open spec fn control_word() -> u32 {
    CR_UARTEN | CR_TXE | CR_RXE
}

/// The accesses of a bring-up, in order: disable the UART, clear pending
/// interrupts, program the divisor pair of the console, set the line format,
/// enable the UART with both paths.
pub open spec fn init_sequence() -> Seq<Access> {
    seq![
        Access::Write { reg: Register::Control, value: 0 },
        Access::Write { reg: Register::InterruptClear, value: ICR_ALL },
        Access::Write {
            reg: Register::IntegerBaud,
            value: integer_divisor(UART_CLOCK_HZ as nat, CONSOLE_BAUD as nat) as u32,
        },
        Access::Write {
            reg: Register::FractionalBaud,
            value: fraction_divisor(UART_CLOCK_HZ as nat, CONSOLE_BAUD as nat) as u32,
        },
        Access::Write { reg: Register::LineControl, value: line_control_word() },
        Access::Write { reg: Register::Control, value: control_word() },
    ]
}

/// The bytes that a run of accesses queues for transmission: the values
/// written to the data register, oldest first.
pub open spec fn wire(trace: Seq<Access>) -> Seq<u8>
    decreases trace.len(),
{
    if trace.len() == 0 {
        Seq::empty()
    } else {
        let before = wire(trace.drop_last());
        match trace.last() {
            Access::Write { reg: Register::Data, value } => before.push((value & 0xFF) as u8),
            _ => before,
        }
    }
}

/// The access at position `i` of a run keeps the pace of the transmit FIFO.
///
/// A read is a poll of the flag register that is not the last access of
/// the run; the next access is another poll if this one reports a full FIFO,
/// and a write if it reports room. A write puts one byte into the data
/// register, right after a poll.
pub open spec fn keeps_pace(trace: Seq<Access>, i: int) -> bool {
    match trace[i] {
        Access::Read { reg, value } => {
            &&& reg == Register::Flag
            &&& i + 1 < trace.len()
            &&& transmit_full(value) <==> trace[i + 1] is Read
        },
        Access::Write { reg, value } => {
            &&& reg == Register::Data
            &&& value < 0x100
            &&& i > 0
            &&& trace[i - 1] is Read
        },
        Access::BringUp { .. } => false,
    }
}

/// A run of accesses keeps the pace of the transmit FIFO: it only polls the
/// flag register and writes bytes to the data register, it polls again
/// after every poll that reports a full FIFO, and it writes one byte right
/// after every poll that reports room, and at no other time.
pub open spec fn paced(trace: Seq<Access>) -> bool {
    forall|i: int| 0 <= i < trace.len() ==> #[trigger] keeps_pace(trace, i)
}

/// A run of accesses transmits `bytes`: it keeps the pace of the FIFO and
/// queues exactly these bytes, in this order.
pub open spec fn transmits(trace: Seq<Access>, bytes: Seq<u8>) -> bool {
    paced(trace) && wire(trace) == bytes
}

/// What was added to a history since an earlier point of it.
pub open spec fn since(now: Seq<Access>, earlier: Seq<Access>) -> Seq<Access> {
    now.skip(earlier.len() as int)
}

/// The byte that a read of the data register delivers: its low eight bits.
pub open spec fn data_byte(data: u32) -> u8 {
    (data & 0xFF) as u8
}

/// A run of accesses is one attempt to receive, with `result` as its
/// outcome: one read of the flag register; if that reports an empty FIFO
/// nothing more and no byte, else one read of the data register, whose low
/// eight bits are the byte.
pub open spec fn receives(trace: Seq<Access>, result: Option<u8>) -> bool {
    &&& trace.len() >= 1
    &&& trace[0] matches Access::Read { reg: Register::Flag, value: flags }
    &&& if receive_empty(flags) {
        trace.len() == 1 && result is None
    } else {
        &&& trace.len() == 2
        &&& trace[1] matches Access::Read { reg: Register::Data, value: data }
        &&& result == Some(data_byte(data))
    }
}

/// The driver of one UART, which owns the bus that reaches it.
pub struct Uart<B: RegisterBus> {
    /// The bus on which the device registers are accessed.
    pub bus: B,
}

impl<B: RegisterBus> Uart<B> {
    /// Every register access made so far on the bus of this driver.
    pub open spec fn history(&self) -> Seq<Access> {
        self.bus.history()
    }

    /// Takes ownership of the bus. No register is touched.
    pub fn new(bus: B) -> (uart: Self)
        ensures
            uart.bus == bus,
    {
        Uart { bus }
    }

    /// Gives the bus back.
    pub fn into_bus(self) -> (bus: B)
        ensures
            bus == self.bus,
    {
        self.bus
    }

    /// Brings the UART to its running state at the console line speed.
    pub fn init(&mut self)
        ensures
            final(self).history() == old(self).history() + init_sequence(),
    {
        let divisor = console_divisor();
        self.bus.write(Register::Control, 0);
        self.bus.write(Register::InterruptClear, ICR_ALL);
        self.bus.write(Register::IntegerBaud, divisor.integer);
        self.bus.write(Register::FractionalBaud, divisor.fraction);
        self.bus.write(Register::LineControl, LCRH_WLEN_8BIT | LCRH_FEN);
        self.bus.write(Register::Control, CR_UARTEN | CR_TXE | CR_RXE);
        assert(self.history() =~= old(self).history() + init_sequence());
    }

    /// Sends one byte: polls the flag register until the transmit FIFO has
    /// room, then writes the byte to the data register.
    pub fn send(&mut self, byte: u8)
        ensures
            old(self).history().is_prefix_of(final(self).history()),
            transmits(since(final(self).history(), old(self).history()), seq![byte]),
    {
        let ghost start = self.bus.history();
        loop
            invariant_except_break
                start.is_prefix_of(self.bus.history()),
                forall|i: int|
                    start.len() <= i < self.bus.history().len() ==> {
                        &&& #[trigger] self.bus.history()[i] matches Access::Read { reg, value }
                        &&& reg == Register::Flag
                        &&& transmit_full(value)
                    },
            ensures
                start.is_prefix_of(self.bus.history()),
                self.bus.history().len() > start.len(),
                forall|i: int|
                    start.len() <= i < self.bus.history().len() ==> {
                        &&& #[trigger] self.bus.history()[i] matches Access::Read { reg, value }
                        &&& reg == Register::Flag
                        &&& transmit_full(value) <==> i + 1 < self.bus.history().len()
                    },
            decreases self.bus.stall(),
        {
            let flags = self.bus.read(Register::Flag);
            if flags & FR_TXFF == 0 {
                break ;
            }
        }
        let ghost polled = self.bus.history();
        self.bus.write(Register::Data, byte as u32);
        proof {
            let now = self.bus.history();
            let added = since(now, start);
            assert(now == polled.push(Access::Write { reg: Register::Data, value: byte as u32 }));
            assert forall|i: int| 0 <= i < added.len() implies #[trigger] keeps_pace(added, i) by {
                assert(added[i] == now[start.len() + i]);
                if i + 1 < added.len() {
                    assert(added[i] == polled[start.len() + i]);
                    assert(added[i + 1] == now[start.len() + i + 1]);
                    if i + 2 < added.len() {
                        assert(added[i + 1] == polled[start.len() + i + 1]);
                    }
                } else {
                    assert(added[i - 1] == polled[start.len() + i - 1]);
                }
            }
            lemma_wire_of_polls(since(polled, start));
            assert(added.drop_last() =~= since(polled, start));
            assert(byte as u32 & 0xFF == byte as u32) by (bit_vector);
            assert(wire(added) =~= seq![byte]);
        }
    }

    /// Takes one received byte if there is one, without waiting.
    ///
    /// Reads the flag register once. If the receive FIFO is empty there is
    /// no byte; else the data register is read once and its low eight bits
    /// are the byte.
    pub fn receive(&mut self) -> (result: Option<u8>)
        ensures
            old(self).history().is_prefix_of(final(self).history()),
            receives(since(final(self).history(), old(self).history()), result),
    {
        let ghost start = self.bus.history();
        let flags = self.bus.read(Register::Flag);
        if flags & FR_RXFE != 0 {
            assert(since(self.bus.history(), start) =~= seq![
                Access::Read { reg: Register::Flag, value: flags },
            ]);
            None
        } else {
            let data = self.bus.read(Register::Data);
            assert(data & 0xFF < 0x100) by (bit_vector);
            assert(since(self.bus.history(), start) =~= seq![
                Access::Read { reg: Register::Flag, value: flags },
                Access::Read { reg: Register::Data, value: data },
            ]);
            Some((data & 0xFF) as u8)
        }
    }

    /// Sends each byte in order, waiting for room before every one.
    pub fn write_bytes(&mut self, bytes: &[u8])
        ensures
            old(self).history().is_prefix_of(final(self).history()),
            transmits(since(final(self).history(), old(self).history()), bytes@),
    {
        let ghost start = self.bus.history();
        let mut i: usize = 0;
        assert(since(self.bus.history(), start) =~= Seq::<Access>::empty());
        assert(bytes@.take(0) =~= Seq::<u8>::empty());
        while i < bytes.len()
            invariant
                i <= bytes.len(),
                start.is_prefix_of(self.bus.history()),
                transmits(since(self.bus.history(), start), bytes@.take(i as int)),
            decreases bytes.len() - i,
        {
            let ghost before = self.bus.history();
            self.send(bytes[i]);
            proof {
                let now = self.bus.history();
                lemma_transmits_append(
                    since(before, start),
                    bytes@.take(i as int),
                    since(now, before),
                    seq![bytes@[i as int]],
                );
                assert(since(now, start) =~= since(before, start) + since(now, before));
                assert(bytes@.take(i + 1) =~= bytes@.take(i as int) + seq![bytes@[i as int]]);
            }
            i += 1;
        }
        assert(bytes@.take(i as int) =~= bytes@);
    }

    /// Sends the bytes of the text, in order.
    pub fn write_string(&mut self, s: &str)
        ensures
            old(self).history().is_prefix_of(final(self).history()),
            transmits(since(final(self).history(), old(self).history()), s.spec_bytes()),
    {
        self.write_bytes(s.as_bytes());
    }
}

/// The relax strategy `spin::Spin` of the lock, carried as an opaque type.
#[verifier::external_type_specification]
#[verifier::external_body]
pub struct ExSpin(spin::Spin);

/// The lock `spin::mutex::Mutex`, carried as an opaque type: no contract
/// speaks of what it holds.
#[verifier::external_type_specification]
#[verifier::external_body]
#[verifier::reject_recursive_types(T)]
#[verifier::reject_recursive_types(R)]
pub struct ExMutex<T: ?Sized, R>(spin::mutex::Mutex<T, R>);

/// The guard `spin::mutex::MutexGuard` of a held lock, carried as an opaque
/// type.
#[verifier::external_type_specification]
#[verifier::external_body]
#[verifier::reject_recursive_types(T)]
#[verifier::reject_recursive_types(R)]
pub struct ExMutexGuard<'a, T: 'a + ?Sized, R>(spin::mutex::MutexGuard<'a, T, R>);

/// Calls `spin::mutex::Mutex::new`, which puts the driver behind a lock
/// that nobody holds. Nothing is claimed of the lock.
#[verifier::external_body]
fn lock_around<B: RegisterBus>(uart: Uart<B>) -> (lock: spin::Mutex<Uart<B>>) {
    spin::Mutex::new(uart)
}

/// Calls `spin::mutex::Mutex::into_inner`, which consumes the lock and
/// hands out what it held. Nothing is claimed of the driver that comes out:
/// it is in whatever state the holders of the lock left it.
#[verifier::external_body]
fn lock_release_for_good<B: RegisterBus>(lock: spin::Mutex<Uart<B>>) -> (uart: Uart<B>) {
    lock.into_inner()
}

/// Calls `spin::mutex::Mutex::lock`, which spins until the lock is free and
/// then holds it until the guard is dropped. It does not return to a caller
/// that already holds the lock. Nothing is claimed of the guard.
#[verifier::external_body]
pub(crate) fn lock_acquire<'a, B: RegisterBus>(lock: &'a spin::Mutex<Uart<B>>) -> (guard:
    spin::MutexGuard<'a, Uart<B>>) {
    lock.lock()
}

/// Calls `DerefMut::deref_mut` of `spin::mutex::MutexGuard`, which lends
/// out the driver behind the held lock. Nothing is claimed of the state the
/// driver is in: other holders of the lock may have used it before.
#[verifier::external_body]
pub(crate) fn lock_target<'g, 'a, B: RegisterBus>(
    guard: &'g mut spin::MutexGuard<'a, Uart<B>>,
) -> (uart: &'g mut Uart<B>) {
    core::ops::DerefMut::deref_mut(guard)
}

/// The one handle to a UART that all callers share, behind a lock.
///
/// Each operation on it takes the lock once, holds it from its first
/// register access to its last, and lets go of it when it is done, so the
/// accesses of two callers never mix. No operation takes the lock while it
/// holds it. What the bus has seen when an operation starts depends on the
/// other callers; the operation then behaves as the method of [`Uart`] with
/// the same name does.
#[verifier::reject_recursive_types(B)]
pub struct SharedUart<B: RegisterBus> {
    pub(crate) lock: spin::Mutex<Uart<B>>,
}

impl<B: RegisterBus> SharedUart<B> {
    /// Puts a driver behind a lock that nobody holds.
    pub fn new(uart: Uart<B>) -> (shared: Self) {
        SharedUart { lock: lock_around(uart) }
    }

    /// Ends the sharing and gives the driver back.
    pub fn into_inner(self) -> (uart: Uart<B>) {
        lock_release_for_good(self.lock)
    }
}

/// Brings the shared UART to its running state, under its lock.
pub fn init<B: RegisterBus>(shared: &SharedUart<B>) {
    let mut guard = lock_acquire(&shared.lock);
    let uart = lock_target(&mut guard);
    uart.init();
}

/// Sends one byte on the shared UART, under its lock.
pub fn send<B: RegisterBus>(shared: &SharedUart<B>, byte: u8) {
    let mut guard = lock_acquire(&shared.lock);
    let uart = lock_target(&mut guard);
    uart.send(byte);
}

/// Takes one received byte from the shared UART if there is one, under its
/// lock and without waiting for a byte.
pub fn receive<B: RegisterBus>(shared: &SharedUart<B>) -> (result: Option<u8>) {
    let mut guard = lock_acquire(&shared.lock);
    let uart = lock_target(&mut guard);
    uart.receive()
}

/// Sends the bytes of the text on the shared UART, in order, under one hold
/// of its lock.
pub fn write_string<B: RegisterBus>(shared: &SharedUart<B>, s: &str) {
    let mut guard = lock_acquire(&shared.lock);
    let uart = lock_target(&mut guard);
    uart.write_string(s);
}

/// The bytes that two runs queue, one after the other, are the bytes of the
/// first followed by the bytes of the second.
pub proof fn lemma_wire_append(first: Seq<Access>, second: Seq<Access>)
    ensures
        wire(first + second) == wire(first) + wire(second),
    decreases second.len(),
{
    if second.len() == 0 {
        assert(first + second =~= first);
        assert(wire(first) + wire(second) =~= wire(first));
    } else {
        lemma_wire_append(first, second.drop_last());
        assert((first + second).drop_last() =~= first + second.drop_last());
        assert((first + second).last() == second.last());
        match second.last() {
            Access::Write { reg: Register::Data, value } => {
                assert(wire(first + second) =~= wire(first) + wire(second));
            },
            _ => {},
        }
    }
}

/// A transmission followed by a transmission is a transmission of the
/// first bytes followed by the second bytes.
pub proof fn lemma_transmits_append(
    first: Seq<Access>,
    first_bytes: Seq<u8>,
    second: Seq<Access>,
    second_bytes: Seq<u8>,
)
    requires
        transmits(first, first_bytes),
        transmits(second, second_bytes),
    ensures
        transmits(first + second, first_bytes + second_bytes),
{
    lemma_wire_append(first, second);
    let both = first + second;
    assert forall|i: int| 0 <= i < both.len() implies #[trigger] keeps_pace(both, i) by {
        if i < first.len() {
            assert(keeps_pace(first, i));
            assert(both[i] == first[i]);
            if i + 1 < first.len() {
                assert(both[i + 1] == first[i + 1]);
            }
            if i > 0 {
                assert(both[i - 1] == first[i - 1]);
            }
        } else {
            let j = i - first.len();
            assert(keeps_pace(second, j));
            assert(both[i] == second[j]);
            if j + 1 < second.len() {
                assert(both[i + 1] == second[j + 1]);
            }
            if j > 0 {
                assert(both[i - 1] == second[j - 1]);
            }
        }
    }
}

/// Two transmissions that follow one another on the same bus never mix
/// their bytes: between the start of the first and the end of the second,
/// the bus carries the bytes of the first in full, then those of the second.
pub proof fn lemma_transmissions_do_not_interleave(
    start: Seq<Access>,
    middle: Seq<Access>,
    end: Seq<Access>,
    first_bytes: Seq<u8>,
    second_bytes: Seq<u8>,
)
    requires
        start.is_prefix_of(middle),
        middle.is_prefix_of(end),
        transmits(since(middle, start), first_bytes),
        transmits(since(end, middle), second_bytes),
    ensures
        start.is_prefix_of(end),
        transmits(since(end, start), first_bytes + second_bytes),
        wire(since(end, start)) == first_bytes + second_bytes,
{
    lemma_transmits_append(since(middle, start), first_bytes, since(end, middle), second_bytes);
    assert(since(end, start) =~= since(middle, start) + since(end, middle));
}

/// A run of reads queues nothing for transmission.
pub proof fn lemma_wire_of_polls(trace: Seq<Access>)
    requires
        forall|i: int| 0 <= i < trace.len() ==> #[trigger] trace[i] is Read,
    ensures
        wire(trace) == Seq::<u8>::empty(),
    decreases trace.len(),
{
    if trace.len() > 0 {
        lemma_wire_of_polls(trace.drop_last());
    }
}

/// The values of a bring-up, bit for bit: the divisor pair is 26 and 3; the
/// line control word sets bits 4, 5 and 6, which makes 0x70; the control
/// word sets bits 0, 8 and 9, which makes 0x301.
pub proof fn lemma_init_sequence_values()
    ensures
        line_control_word() == 0x70,
        control_word() == 0x301,
        init_sequence() == seq![
            Access::Write { reg: Register::Control, value: 0 },
            Access::Write { reg: Register::InterruptClear, value: 0x7FF },
            Access::Write { reg: Register::IntegerBaud, value: 26 },
            Access::Write { reg: Register::FractionalBaud, value: 3 },
            Access::Write { reg: Register::LineControl, value: 0x70 },
            Access::Write { reg: Register::Control, value: 0x301 },
        ],
{
    lemma_console_divisor();
    assert(0x60u32 | 0x10u32 == 0x70u32) by (bit_vector);
    assert(0x01u32 | 0x100u32 | 0x200u32 == 0x301u32) by (bit_vector);
    assert(init_sequence() =~= seq![
        Access::Write { reg: Register::Control, value: 0 },
        Access::Write { reg: Register::InterruptClear, value: 0x7FF },
        Access::Write { reg: Register::IntegerBaud, value: 26 },
        Access::Write { reg: Register::FractionalBaud, value: 3 },
        Access::Write { reg: Register::LineControl, value: 0x70 },
        Access::Write { reg: Register::Control, value: 0x301 },
    ]);
}

/// An attempt to receive yields no byte if and only if the flag register,
/// read first, reports an empty receive FIFO. Otherwise it yields the low
/// eight bits of the data register, whatever its other bits are.
pub proof fn lemma_receive_outcome(trace: Seq<Access>, result: Option<u8>)
    requires
        receives(trace, result),
    ensures
        trace[0] is Read,
        result is None <==> receive_empty(trace[0]->Read_value),
        result matches Some(byte) ==> trace.len() == 2 && trace[1] is Read && byte
            == trace[1]->Read_value & 0xFF,
{
    if !receive_empty(trace[0]->Read_value) {
        let data = trace[1]->Read_value;
        assert(data & 0xFF < 0x100) by (bit_vector);
    }
}

/// The driver keeps to what each register allows: a bring-up, a
/// transmission and an attempt to receive never read a write-only register
/// and never write a read-only one.
pub proof fn lemma_driver_keeps_to_access_modes(trace: Seq<Access>, bytes: Seq<u8>, result: Option<u8>)
    requires
        trace == init_sequence() || transmits(trace, bytes) || receives(trace, result),
    ensures
        forall|i: int| 0 <= i < trace.len() ==> allowed(#[trigger] trace[i]),
{
    assert forall|i: int| 0 <= i < trace.len() implies allowed(#[trigger] trace[i]) by {
        if trace == init_sequence() {
        } else if transmits(trace, bytes) {
            assert(keeps_pace(trace, i));
        } else {
        }
    }
}

/// A run that queues nothing for transmission holds no write to the data
/// register.
pub proof fn lemma_silent_run_writes_no_data(trace: Seq<Access>)
    requires
        wire(trace) == Seq::<u8>::empty(),
    ensures
        forall|i: int|
            0 <= i < trace.len() ==> !(#[trigger] trace[i] matches Access::Write {
                reg: Register::Data,
                ..
            }),
    decreases trace.len(),
{
    if trace.len() > 0 {
        let before = trace.drop_last();
        match trace.last() {
            Access::Write { reg: Register::Data, value } => {
                assert(wire(trace).len() > 0);
            },
            _ => {},
        }
        lemma_silent_run_writes_no_data(before);
        assert forall|i: int| 0 <= i < trace.len() implies !(#[trigger] trace[i] matches Access::Write {
            reg: Register::Data,
            ..
        }) by {
            if i < trace.len() - 1 {
                assert(trace[i] == before[i]);
            }
        }
    }
}

/// The transmission of one byte has one shape: polls of the flag register
/// that report a full FIFO, as many as the device makes the driver wait,
/// then one poll that reports room, then the write of the byte to the data
/// register.
pub proof fn lemma_send_spins_then_writes(trace: Seq<Access>, byte: u8)
    requires
        transmits(trace, seq![byte]),
    ensures
        trace.len() >= 2,
        trace.last() == (Access::Write { reg: Register::Data, value: byte as u32 }),
        forall|i: int|
            0 <= i < trace.len() - 1 ==> {
                &&& #[trigger] trace[i] matches Access::Read { reg, value }
                &&& reg == Register::Flag
                &&& transmit_full(value) <==> i < trace.len() - 2
            },
{
    assert(trace.len() > 0) by {
        if trace.len() == 0 {
            assert(wire(trace).len() == 0);
        }
    }
    let n = trace.len() as int;
    let polls = trace.drop_last();
    assert(keeps_pace(trace, n - 1));
    let value = trace.last()->Write_value;
    assert(wire(trace) == wire(polls).push((value & 0xFF) as u8));
    assert(wire(polls) =~= Seq::<u8>::empty()) by {
        assert(wire(polls).len() + 1 == 1);
    }
    assert(wire(trace)[0] == byte);
    assert(value & 0xFF == value) by (bit_vector)
        requires
            value < 0x100,
    ;
    lemma_silent_run_writes_no_data(polls);
    assert forall|i: int| 0 <= i < n - 1 implies {
        &&& #[trigger] trace[i] matches Access::Read { reg, value }
        &&& reg == Register::Flag
        &&& transmit_full(value) <==> i < n - 2
    } by {
        assert(keeps_pace(trace, i));
        assert(trace[i] == polls[i]);
        if i + 1 < n - 1 {
            assert(keeps_pace(trace, i + 1));
            assert(trace[i + 1] == polls[i + 1]);
        }
    }
}

} // verus!
