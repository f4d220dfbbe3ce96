//! How bytes travel bit by bit on the bit-banged buses: I2C and SPI shift
//! the most significant bit first, a UART frame sends a low start bit, the
//! eight data bits least significant first and a high stop bit.

use vstd::prelude::*;

use crate::bus::uart::UartError;

verus! {

/// Bit `i` of `byte` counted from the most significant end (`i` in 0..8).
pub open spec fn msb_bit(byte: u8, i: int) -> bool {
    (byte >> ((7 - i) as u8)) & 1 == 1
}

/// The value of a bit string read most significant bit first.
pub open spec fn msb_value(bits: Seq<bool>) -> nat
    decreases bits.len(),
{
    if bits.len() == 0 {
        0
    } else {
        2 * msb_value(bits.drop_last()) + if bits.last() { 1nat } else { 0nat }
    }
}

/// The eight bits of `byte`, most significant first.
pub open spec fn msb_bits(byte: u8) -> Seq<bool> {
    Seq::new(8, |i: int| msb_bit(byte, i))
}

/// The bits of `byte` in the order I2C and SPI shift them out: most
/// significant first.
pub fn byte_bits_msb_first(byte: u8) -> (bits: Vec<bool>)
    ensures
        bits@ == msb_bits(byte),
{
    let mut bits: Vec<bool> = Vec::new();
    let mut i: u8 = 0;
    while i < 8
        invariant
            i <= 8,
            bits@ == msb_bits(byte).take(i as int),
        decreases 8 - i,
    {
        let shift: u8 = 7 - i;
        bits.push((byte >> shift) & 1 != 0);
        proof {
            assert((byte >> shift) & 1 != 0 <==> (byte >> shift) & 1 == 1) by (bit_vector);
            assert(bits@ =~= msb_bits(byte).take(i + 1));
        }
        i = i + 1;
    }
    proof {
        assert(msb_bits(byte).take(8) =~= msb_bits(byte));
    }
    bits
}

/// Shifts eight sampled bits, most significant first, into a byte.
pub fn assemble_msb_first(bits: &Vec<bool>) -> (byte: u8)
    requires
        bits@.len() == 8,
    ensures
        byte == msb_value(bits@),
{
    let mut byte: u8 = 0;
    let mut i: usize = 0;
    while i < 8
        invariant
            i <= 8,
            bits@.len() == 8,
            byte as nat == msb_value(bits@.take(i as int)),
            byte < pow2_u8(i as nat),
        decreases 8 - i,
    {
        proof {
            assert(bits@.take(i + 1).drop_last() =~= bits@.take(i as int));
            lemma_pow2_step(i as nat);
        }
        let bit: u8 = if bits[i] { 1 } else { 0 };
        byte = byte * 2 + bit;
        i = i + 1;
    }
    proof {
        assert(bits@.take(8) =~= bits@);
    }
    byte
}

/// `2^k` for `k <= 8`.
pub open spec fn pow2_u8(k: nat) -> nat
    decreases k,
{
    if k == 0 {
        1
    } else {
        2 * pow2_u8((k - 1) as nat)
    }
}

proof fn lemma_pow2_step(k: nat)
    requires
        k < 8,
    ensures
        pow2_u8(k + 1) == 2 * pow2_u8(k),
        pow2_u8(k + 1) <= 256,
{
    assert(pow2_u8(0) == 1);
    assert(pow2_u8(1) == 2);
    assert(pow2_u8(2) == 4);
    assert(pow2_u8(3) == 8);
    assert(pow2_u8(4) == 16);
    assert(pow2_u8(5) == 32);
    assert(pow2_u8(6) == 64);
    assert(pow2_u8(7) == 128);
    assert(pow2_u8(8) == 256);
    assert(k == 0 || k == 1 || k == 2 || k == 3 || k == 4 || k == 5 || k == 6 || k == 7);
}

/// The first `k` bits of a byte, read most significant first, are the byte
/// shifted right by `8 - k`.
proof fn lemma_msb_prefix(byte: u8, k: nat)
    requires
        k <= 8,
    ensures
        msb_value(msb_bits(byte).take(k as int)) == (byte >> ((8 - k) as u8)) as nat,
    decreases k,
{
    if k == 0 {
        assert(byte >> 8u8 == 0) by (bit_vector);
    } else {
        lemma_msb_prefix(byte, (k - 1) as nat);
        let s = msb_bits(byte).take(k as int);
        assert(s.drop_last() =~= msb_bits(byte).take(k - 1));
        let sh = (8 - k) as u8;
        assert(sh < 8);
        assert(((byte >> ((sh + 1) as u8)) as nat) * 2 + (if (byte >> sh) & 1 == 1 { 1nat } else { 0nat })
            == (byte >> sh) as nat) by (bit_vector)
            requires
                sh < 8,
        ;
        assert((7 - (k - 1)) as u8 == sh);
        assert((8 - (k - 1)) as u8 == (sh + 1) as u8);
    }
}

/// Shifting a byte's bits out most significant first and back in gives the
/// byte again: what one end of an I2C or SPI line sends, the other reads.
pub proof fn lemma_msb_round_trip(byte: u8)
    ensures
        msb_value(msb_bits(byte)) == byte as nat,
{
    lemma_msb_prefix(byte, 8);
    assert(msb_bits(byte).take(8) =~= msb_bits(byte));
    assert(byte >> 0u8 == byte) by (bit_vector);
}

// ── UART frames ──────────────────────────────────────────────────────────

/// Line level of bit `i` of a UART frame for `byte`: a low start bit, the
/// data bits least significant first, a high stop bit.
pub open spec fn uart_frame(byte: u8) -> Seq<bool> {
    Seq::new(10, |i: int| if i == 0 { false } else if i == 9 { true } else { (byte >> ((i - 1) as u8)) & 1 == 1 })
}

/// The value of data bits read least significant first.
pub open spec fn lsb_value(bits: Seq<bool>) -> nat
    decreases bits.len(),
{
    if bits.len() == 0 {
        0
    } else {
        (if bits[0] { 1nat } else { 0nat }) + 2 * lsb_value(bits.drop_first())
    }
}

/// The line levels that send `byte` as one UART frame.
pub fn uart_frame_levels(byte: u8) -> (levels: Vec<bool>)
    ensures
        levels@ == uart_frame(byte),
{
    let mut levels: Vec<bool> = Vec::new();
    levels.push(false);
    let mut i: u8 = 0;
    while i < 8
        invariant
            i <= 8,
            levels@ == uart_frame(byte).take(i + 1),
        decreases 8 - i,
    {
        levels.push(byte & (1u8 << i) != 0);
        proof {
            assert((byte & (1u8 << i) != 0) == ((byte >> i) & 1 == 1)) by (bit_vector)
                requires
                    i < 8,
            ;
            assert(((i + 1 - 1) as u8) == i);
            assert(levels@ =~= uart_frame(byte).take(i + 2));
        }
        i = i + 1;
    }
    levels.push(true);
    proof {
        assert(levels@ =~= uart_frame(byte));
    }
    levels
}

/// Reads one UART frame from sampled line levels: the start bit must be
/// low and the stop bit high, else the frame is a framing error.
pub fn uart_decode_frame(levels: &Vec<bool>) -> (result: Result<u8, UartError>)
    requires
        levels@.len() == 10,
    ensures
        levels@[0] || !levels@[9] <==> result == Err::<u8, UartError>(UartError::Framing),
        result matches Ok(byte) ==> byte as nat == lsb_value(levels@.subrange(1, 9)),
{
    if levels[0] {
        return Err(UartError::Framing);
    }
    let mut value: u8 = 0;
    let mut i: usize = 8;
    while i > 0
        invariant
            i <= 8,
            levels@.len() == 10,
            value as nat == lsb_value(levels@.subrange(i as int + 1, 9)),
            value < pow2_u8((8 - i) as nat),
        decreases i,
    {
        proof {
            assert(levels@.subrange(i as int, 9).drop_first() =~= levels@.subrange(i as int + 1, 9));
            lemma_pow2_step((8 - i) as nat);
        }
        let bit: u8 = if levels[i] { 1 } else { 0 };
        value = value * 2 + bit;
        i = i - 1;
    }
    if !levels[9] {
        return Err(UartError::Framing);
    }
    Ok(value)
}

proof fn lemma_lsb_suffix(byte: u8, k: nat)
    requires
        k <= 8,
    ensures
        lsb_value(uart_frame(byte).subrange(9 - k, 9)) == (byte >> ((8 - k) as u8)) as nat,
    decreases k,
{
    if k == 0 {
        assert(byte >> 8u8 == 0) by (bit_vector);
    } else {
        lemma_lsb_suffix(byte, (k - 1) as nat);
        let s = uart_frame(byte).subrange(9 - k, 9);
        assert(s.drop_first() =~= uart_frame(byte).subrange(9 - (k - 1), 9));
        let sh = (8 - k) as u8;
        assert(s[0] == ((byte >> sh) & 1 == 1));
        assert((if (byte >> sh) & 1 == 1 { 1nat } else { 0nat }) + 2 * ((byte >> ((sh + 1) as u8)) as nat)
            == (byte >> sh) as nat) by (bit_vector)
            requires
                sh < 8,
        ;
        assert((8 - (k - 1)) as u8 == (sh + 1) as u8);
    }
}

/// Decoding the frame that sends a byte gives the byte back.
pub proof fn lemma_uart_round_trip(byte: u8)
    ensures
        !uart_frame(byte)[0],
        uart_frame(byte)[9],
        lsb_value(uart_frame(byte).subrange(1, 9)) == byte as nat,
{
    lemma_lsb_suffix(byte, 8);
    assert(byte >> 0u8 == byte) by (bit_vector);
}

} // verus!
