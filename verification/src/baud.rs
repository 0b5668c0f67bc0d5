//! Baud-rate generation: the divisor pair programmed into the UART.

use vstd::prelude::*;

verus! {

/// Reference clock of the UART, in hertz.
pub const UART_CLOCK_HZ: u32 = 48_000_000;

/// Line speed of the console, in bits per second.
pub const CONSOLE_BAUD: u32 = 115_200;

/// The divisor pair that derives a bit rate from the reference clock.
#[derive(Clone, Copy, Debug, PartialEq, Eq, Structural)]
pub struct BaudDivisor {
    /// Whole part of `clock / (16 * baud)`.
    pub integer: u32,
    /// Fractional part of `clock / (16 * baud)`, in sixty-fourths, rounded
    /// to the nearest.
    pub fraction: u32,
}

/// Whole part of the divisor: `floor(clock / (16 * baud))`.
pub open spec fn integer_divisor(clock: nat, baud: nat) -> nat {
    clock / (16 * baud)
}

/// What is left of the clock after the whole part of the divisor.
pub open spec fn divisor_remainder(clock: nat, baud: nat) -> nat {
    clock % (16 * baud)
}

/// Fractional part of the divisor: the remainder over `16 * baud`, times 64,
/// rounded to the nearest integer, a half rounding up. With `r` the
/// remainder this is `round(64 * r / (16 * baud)) = floor((8 * r + baud) / (2 * baud))`.
pub open spec fn fraction_divisor(clock: nat, baud: nat) -> nat {
    (8 * divisor_remainder(clock, baud) + baud) / (2 * baud)
}

/// Computes the divisor pair for a reference clock and a target baud rate.
///
/// There is no divisor for a baud rate of zero.
pub fn baud_divisor(clock_hz: u32, baud: u32) -> (divisor: Option<BaudDivisor>)
    ensures
        divisor is None <==> baud == 0,
        divisor matches Some(d) ==> {
            &&& d.integer == integer_divisor(clock_hz as nat, baud as nat)
            &&& d.fraction == fraction_divisor(clock_hz as nat, baud as nat)
        },
{
    if baud == 0 {
        return None;
    }
    let clock: u64 = clock_hz as u64;
    let rate: u64 = baud as u64;
    let step: u64 = 16 * rate;
    let whole: u64 = clock / step;
    let rest: u64 = clock % step;
    assert(whole <= clock) by (nonlinear_arith)
        requires
            whole == clock / step,
            step >= 1,
    ;
    let sixty_fourths: u64 = (8 * rest + rate) / (2 * rate);
    assert(sixty_fourths <= 64) by (nonlinear_arith)
        requires
            sixty_fourths == (8 * rest + rate) / (2 * rate),
            rest < 16 * rate,
            rate >= 1,
    ;
    Some(BaudDivisor { integer: whole as u32, fraction: sixty_fourths as u32 })
}

/// Computes the divisor pair of the console: the one for `UART_CLOCK_HZ`
/// and `CONSOLE_BAUD`, which is 26 and 3.
pub fn console_divisor() -> (divisor: BaudDivisor)
    ensures
        divisor.integer == integer_divisor(UART_CLOCK_HZ as nat, CONSOLE_BAUD as nat),
        divisor.fraction == fraction_divisor(UART_CLOCK_HZ as nat, CONSOLE_BAUD as nat),
        divisor == (BaudDivisor { integer: 26, fraction: 3 }),
{
    proof {
        lemma_console_divisor();
    }
    match baud_divisor(UART_CLOCK_HZ, CONSOLE_BAUD) {
        Some(divisor) => divisor,
        None => vstd::pervasive::unreached(),
    }
}

/// The whole part and the remainder make up the clock again, and the
/// remainder is less than one step of `16 * baud`.
pub proof fn lemma_divisor_decomposes(clock: nat, baud: nat)
    requires
        baud > 0,
    ensures
        clock == integer_divisor(clock, baud) * (16 * baud) + divisor_remainder(clock, baud),
        divisor_remainder(clock, baud) < 16 * baud,
{
    let step = (16 * baud) as int;
    vstd::arithmetic::div_mod::lemma_fundamental_div_mod(clock as int, step);
    vstd::arithmetic::div_mod::lemma_mod_bound(clock as int, step);
    assert(step * (clock as int / step) == (clock as int / step) * step) by (nonlinear_arith);
}

/// The fractional part is the nearest number of sixty-fourths: it lies
/// between 0 and 64, and differs from the exact value `64 * r / (16 * baud)`
/// by at most one half, where `r` is the remainder.
pub proof fn lemma_fraction_is_nearest(clock: nat, baud: nat)
    requires
        baud > 0,
    ensures
        fraction_divisor(clock, baud) <= 64,
        2 * (fraction_divisor(clock, baud) * baud) <= 8 * divisor_remainder(clock, baud) + baud,
        8 * divisor_remainder(clock, baud) < 2 * (fraction_divisor(clock, baud) * baud) + baud,
{
    let r = divisor_remainder(clock, baud) as int;
    let b = baud as int;
    let f = fraction_divisor(clock, baud) as int;
    lemma_divisor_decomposes(clock, baud);
    vstd::arithmetic::div_mod::lemma_fundamental_div_mod(8 * r + b, 2 * b);
    vstd::arithmetic::div_mod::lemma_mod_bound(8 * r + b, 2 * b);
    assert((2 * b) * f == 2 * (f * b)) by (nonlinear_arith);
    assert(f <= 64) by (nonlinear_arith)
        requires
            2 * (f * b) <= 8 * r + b,
            r < 16 * b,
            b > 0,
    ;
}

/// At 48 MHz and 115200 baud the divisor pair is 26 and 3.
pub proof fn lemma_console_divisor()
    ensures
        integer_divisor(UART_CLOCK_HZ as nat, CONSOLE_BAUD as nat) == 26,
        fraction_divisor(UART_CLOCK_HZ as nat, CONSOLE_BAUD as nat) == 3,
{
    assert(16 * 115_200nat == 1_843_200);
    assert(48_000_000nat / 1_843_200 == 26);
    assert(48_000_000nat % 1_843_200 == 76_800);
    assert(8 * 76_800nat + 115_200 == 729_600);
    assert(2 * 115_200nat == 230_400);
    assert(729_600nat / 230_400 == 3);
}

} // verus!
