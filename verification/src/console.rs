//! The console front end: text out through the UART, with CR LF as the line
//! terminator.

use vstd::prelude::*;
use vstd::string::StringSliceAdditionalSpecFns;
use crate::mmio::RegisterBus;
use crate::uart::{
    lemma_transmits_append, lock_acquire, lock_target, since, transmits, SharedUart, Uart,
};

verus! {

/// Carriage return.
pub const CR: u8 = 0x0D;

/// Line feed.
pub const LF: u8 = 0x0A;

/// The bytes of a line on the wire: the text, then CR, then LF.
pub open spec fn line(text: Seq<u8>) -> Seq<u8> {
    text + seq![CR, LF]
}

/// Sends the text, with nothing after it.
pub fn emit<B: RegisterBus>(uart: &mut Uart<B>, text: &str)
    ensures
        old(uart).history().is_prefix_of(final(uart).history()),
        transmits(since(final(uart).history(), old(uart).history()), text.spec_bytes()),
{
    uart.write_string(text);
}

/// Sends the text, then the line terminator: CR, then LF.
pub fn emit_line<B: RegisterBus>(uart: &mut Uart<B>, text: &str)
    ensures
        old(uart).history().is_prefix_of(final(uart).history()),
        transmits(since(final(uart).history(), old(uart).history()), line(text.spec_bytes())),
{
    let ghost start = uart.history();
    uart.write_string(text);
    let ghost middle = uart.history();
    uart.send(CR);
    let ghost after_cr = uart.history();
    uart.send(LF);
    proof {
        let end = uart.history();
        lemma_transmits_append(since(after_cr, middle), seq![CR], since(end, after_cr), seq![LF]);
        assert(since(end, middle) =~= since(after_cr, middle) + since(end, after_cr));
        assert(seq![CR] + seq![LF] =~= seq![CR, LF]);
        lemma_transmits_append(
            since(middle, start),
            text.spec_bytes(),
            since(end, middle),
            seq![CR, LF],
        );
        assert(since(end, start) =~= since(middle, start) + since(end, middle));
    }
}

/// Writes the text to the shared console, with nothing after it, under one
/// hold of its lock.
pub fn print<B: RegisterBus>(console: &SharedUart<B>, text: &str) {
    let mut guard = lock_acquire(&console.lock);
    let uart = lock_target(&mut guard);
    emit(uart, text);
}

/// Writes the text and the line terminator to the shared console, under
/// one hold of its lock.
pub fn println<B: RegisterBus>(console: &SharedUart<B>, text: &str) {
    let mut guard = lock_acquire(&console.lock);
    let uart = lock_target(&mut guard);
    emit_line(uart, text);
}

/// A line on the wire is the text followed by exactly two bytes, CR and
/// then LF: the text is not changed, and the line never ends in a line
/// feed that no carriage return precedes.
pub proof fn lemma_line_ends_with_cr_lf(text: Seq<u8>)
    ensures
        line(text).len() == text.len() + 2,
        line(text).take(text.len() as int) == text,
        line(text)[text.len() as int] == CR,
        line(text)[text.len() as int + 1] == LF,
{
    assert(line(text).take(text.len() as int) =~= text);
}

} // verus!
