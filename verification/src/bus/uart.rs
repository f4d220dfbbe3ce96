//! UART configuration: which baud rates each backend can produce, the
//! programmed rate of the PIO backend and its transmit timing.

use vstd::prelude::*;

verus! {

/// Error returned by UART operations.
#[derive(Clone, Copy, Debug, PartialEq, Eq, Structural)]
pub enum UartError {
    /// The baud rate cannot be produced from the clock.
    InvalidBaudRate,
    /// A received frame had a bad start or stop bit.
    Framing,
    /// Any other error reported by the underlying backend.
    Other,
}

/// Backend of a UART bus.
#[derive(Clone, Copy, Debug, PartialEq, Eq, Structural)]
pub enum UartBusVersion {
    Hardware,
    Pio,
    BitBang,
}

/// The bit-banged UART waits a timer tick per quarter bit at least: it
/// accepts baud rates from 1 up to a quarter of the timer rate.
pub fn validate_bitbang_baud(baud_rate: u32, tick_hz: u64) -> (result: Result<(), UartError>)
    ensures
        result is Ok <==> 0 < baud_rate && baud_rate <= tick_hz / 4,
        result is Err ==> result == Err::<(), UartError>(UartError::InvalidBaudRate),
{
    if baud_rate == 0 || baud_rate as u64 > tick_hz / 4 {
        return Err(UartError::InvalidBaudRate);
    }
    Ok(())
}

/// The hardware UART divides the peripheral clock by 16 and a 16-bit
/// divisor: it accepts rates from `clock / (16 * 65535)` (rounded up) to
/// `clock / 16`.
pub fn validate_hardware_config(baudrate: u32, clock: u32) -> (result: Result<(), UartError>)
    ensures
        result is Ok <==> {
            let minimum = ((clock as int) + 16 * 65_535 - 1) / (16 * 65_535int);
            minimum <= baudrate && baudrate <= (clock as int) / 16
        },
        result is Err ==> result == Err::<(), UartError>(UartError::InvalidBaudRate),
{
    let clock = clock as u64;
    let baudrate = baudrate as u64;
    let minimum_baudrate = (clock + 16 * 65_535 - 1) / (16 * 65_535);
    if baudrate < minimum_baudrate || baudrate > clock / 16 {
        return Err(UartError::InvalidBaudRate);
    }
    Ok(())
}

/// The PIO UART programs for a baud rate: the divider that the system clock
/// is split by (eight cycles per bit), the rate handed to the PIO program,
/// and the rate the line really runs at; or `None` when the rate cannot be
/// produced, or only more than 2.5 % off.
pub open spec fn pio_baud(baud_rate: u32, clock: u32) -> Option<(u32, u64)> {
    let denominator = 8 * (baud_rate as int);
    if denominator == 0 || denominator > clock || clock > denominator * 65_536 {
        None
    } else {
        let divider = ((clock as int) + denominator / 2) / denominator;
        if !(1 <= divider <= 65_536) {
            None
        } else {
            let programmed = (clock as int) / (8 * divider);
            if programmed == 0 {
                None
            } else {
                let locked = (clock as int) / (8 * programmed);
                if locked != divider {
                    None
                } else {
                    let actual = (clock as int) / (8 * locked);
                    let difference = if actual >= baud_rate { actual - baud_rate } else { baud_rate - actual };
                    if difference * 1000 > (baud_rate as int) * 25 {
                        None
                    } else {
                        Some((programmed as u32, actual as u64))
                    }
                }
            }
        }
    }
}

/// The rate to program into the PIO UART for `baud_rate` and the rate it
/// really runs at, from the system clock `clock`.
pub fn baud_parameters(baud_rate: u32, clock: u32) -> (result: Result<(u32, u64), UartError>)
    ensures
        match pio_baud(baud_rate, clock) {
            Some(p) => result == Ok::<(u32, u64), UartError>(p),
            None => result == Err::<(u32, u64), UartError>(UartError::InvalidBaudRate),
        },
{
    let clock = clock as u64;
    let denominator = 8u64 * (baud_rate as u64);
    if denominator == 0 || denominator > clock || clock > denominator * 65_536 {
        return Err(UartError::InvalidBaudRate);
    }
    let divider = (clock + denominator / 2) / denominator;
    if !(1 <= divider && divider <= 65_536) {
        return Err(UartError::InvalidBaudRate);
    }
    proof {
        assert((clock as int) / (8 * (divider as int)) <= clock) by (nonlinear_arith)
            requires
                divider >= 1,
        ;
    }
    let programmed_baud = (clock / (8 * divider)) as u32;
    if programmed_baud == 0 {
        return Err(UartError::InvalidBaudRate);
    }
    let locked_divider = clock / (8 * programmed_baud as u64);
    if locked_divider != divider || !(1 <= locked_divider && locked_divider <= 65_536) {
        return Err(UartError::InvalidBaudRate);
    }
    let actual_baud = clock / (8 * locked_divider);
    let difference = if actual_baud >= baud_rate as u64 {
        actual_baud - baud_rate as u64
    } else {
        baud_rate as u64 - actual_baud
    };
    proof {
        assert(actual_baud <= clock) by (nonlinear_arith)
            requires
                actual_baud == (clock as int) / (8 * (locked_divider as int)),
                locked_divider >= 1,
        ;
    }
    if difference * 1_000 > (baud_rate as u64) * 25 {
        return Err(UartError::InvalidBaudRate);
    }
    Ok((programmed_baud, actual_baud))
}

/// `a + b`, or `u64::MAX` when that does not fit.
pub open spec fn sat_add(a: int, b: int) -> int {
    if a + b > u64::MAX { u64::MAX as int } else { a + b }
}

/// `a * b`, or `u64::MAX` when that does not fit.
pub open spec fn sat_mul(a: int, b: int) -> int {
    if a * b > u64::MAX { u64::MAX as int } else { a * b }
}

/// Timer ticks that one ten-bit frame takes at `actual_baud`, rounded up
/// (with saturating arithmetic) and at least one.
pub open spec fn frame_ticks_spec(tick_hz: u64, actual_baud: u64) -> u64 {
    let ticks = sat_add(sat_mul(tick_hz as int, 10), actual_baud - 1) / (actual_baud as int);
    if ticks < 1 {
        1
    } else {
        ticks as u64
    }
}

/// Timer ticks per UART frame of the PIO backend.
pub fn frame_ticks(tick_hz: u64, actual_baud: u64) -> (ticks: u64)
    requires
        0 < actual_baud,
    ensures
        ticks == frame_ticks_spec(tick_hz, actual_baud),
        ticks >= 1,
{
    let tenfold = match tick_hz.checked_mul(10) {
        Some(t) => t,
        None => u64::MAX,
    };
    let rounded = match tenfold.checked_add(actual_baud - 1) {
        Some(t) => t,
        None => u64::MAX,
    };
    let ticks = rounded / actual_baud;
    if ticks < 1 {
        1
    } else {
        ticks
    }
}

/// When the PIO transmitter goes idle after queueing `len` bytes at tick
/// `now`: it starts when the earlier bytes are out (or now), and each byte,
/// plus one frame of slack, takes `frame_ticks` ticks; all saturating.
pub fn next_tx_idle(tx_idle_at: u64, now: u64, frame_ticks: u64, len: u64) -> (idle_at: u64)
    ensures
        idle_at == {
            let start = if tx_idle_at > now { tx_idle_at } else { now };
            sat_add(start as int, sat_mul(frame_ticks as int, sat_add(len as int, 1)))
        },
{
    let start = if tx_idle_at > now { tx_idle_at } else { now };
    let frames = len.saturating_add(1);
    let time = match frame_ticks.checked_mul(frames) {
        Some(t) => t,
        None => u64::MAX,
    };
    start.saturating_add(time)
}

} // verus!
