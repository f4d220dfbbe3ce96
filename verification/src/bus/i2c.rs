//! I2C: errors, the checks every backend makes, how the hardware backend
//! folds a transaction into one controller operation, and the bus steps
//! the bit-banged backend carries a transaction out with.

use vstd::prelude::*;

verus! {

/// Error returned by I2C operations.
#[derive(Clone, Copy, Debug, PartialEq, Eq, Structural)]
pub enum I2cError {
    /// The transfer was aborted, e.g. not acknowledged or the bus is stuck.
    Abort,
    /// Another master won the bus.
    ArbitrationLoss,
    /// A read or write buffer is empty.
    InvalidBufferLength,
    /// The address does not fit in seven bits.
    AddressOutOfRange,
    /// The backend cannot carry out this sequence of operations.
    UnsupportedTransaction,
    /// Any other error reported by the underlying backend.
    Other,
}

/// Backend of an I2C bus.
#[derive(Clone, Copy, Debug, PartialEq, Eq, Structural)]
pub enum I2cBusVersion {
    Hardware,
    BitBang,
}

/// What the RP2350 I2C controller reports when an operation fails.
#[derive(Clone, Copy, Debug, PartialEq, Eq, Structural)]
pub enum ControllerError {
    /// Aborted because arbitration was lost.
    ArbitrationLoss,
    /// Aborted for another reason (no acknowledge, data left in the FIFO, ...).
    Abort,
    InvalidReadBufferLength,
    InvalidWriteBufferLength,
    AddressOutOfRange,
    AddressReserved,
}

impl I2cError {
    /// The error a controller failure is reported as.
    pub fn from_controller(error: ControllerError) -> (result: I2cError)
        ensures
            result == match error {
                ControllerError::ArbitrationLoss => I2cError::ArbitrationLoss,
                ControllerError::Abort => I2cError::Abort,
                ControllerError::InvalidReadBufferLength => I2cError::InvalidBufferLength,
                ControllerError::InvalidWriteBufferLength => I2cError::InvalidBufferLength,
                ControllerError::AddressOutOfRange => I2cError::AddressOutOfRange,
                ControllerError::AddressReserved => I2cError::Other,
            },
    {
        match error {
            ControllerError::ArbitrationLoss => I2cError::ArbitrationLoss,
            ControllerError::Abort => I2cError::Abort,
            ControllerError::InvalidReadBufferLength => I2cError::InvalidBufferLength,
            ControllerError::InvalidWriteBufferLength => I2cError::InvalidBufferLength,
            ControllerError::AddressOutOfRange => I2cError::AddressOutOfRange,
            ControllerError::AddressReserved => I2cError::Other,
        }
    }
}

/// Seven-bit addresses only: anything above 0x7f is refused before the bus
/// is touched.
pub fn check_address(address: u8) -> (result: Result<(), I2cError>)
    ensures
        result is Ok <==> address <= 0x7f,
        result is Err ==> result == Err::<(), I2cError>(I2cError::AddressOutOfRange),
{
    if address > 0x7f {
        return Err(I2cError::AddressOutOfRange);
    }
    Ok(())
}

/// The hardware controller runs from the peripheral clock `clock`: it
/// accepts bus clocks up to 1 MHz whose high and low phases (40 % and 60 %
/// of the period, in clock cycles) are between 8 and 0xffff cycles, and
/// whose SDA hold time (300 ns, or 120 ns at 1 MHz, which needs a clock
/// above 32 MHz) fits in the low phase minus two cycles.
pub open spec fn hardware_config_ok(frequency: u32, clock: u32) -> bool {
    if frequency == 0 || frequency > 1_000_000 {
        false
    } else {
        let period = ((clock as int) + (frequency as int) / 2) / (frequency as int);
        let low = period * 3 / 5;
        let high = period - low;
        if high < 8 || low < 8 || high > 0xffff || low > 0xffff {
            false
        } else if frequency < 1_000_000 {
            (clock as int) * 3 / 10_000_000 + 1 <= low - 2
        } else {
            clock > 32_000_000 && (clock as int) * 3 / 25_000_000 + 1 <= low - 2
        }
    }
}

/// The inputs on which checking a hardware configuration in 32-bit
/// arithmetic would overflow: the rounded sum `clock + frequency / 2`, three
/// times the period, or, once the period's phases fit, three times the clock.
pub open spec fn hardware_config_overflows(frequency: u32, clock: u32) -> bool {
    1 <= frequency <= 1_000_000 && {
        let sum = (clock as int) + (frequency as int) / 2;
        let period = sum / (frequency as int);
        let low = period * 3 / 5;
        let high = period - low;
        ||| sum > u32::MAX
        ||| period * 3 > u32::MAX
        ||| (8 <= high <= 0xffff && 8 <= low <= 0xffff && (clock as int) * 3 > u32::MAX)
    }
}

/// Checks a hardware I2C configuration against the peripheral clock.
pub fn validate_hardware_config(frequency: u32, clock: u32) -> (result: Result<(), I2cError>)
    requires
        !hardware_config_overflows(frequency, clock),
    ensures
        result is Ok <==> hardware_config_ok(frequency, clock),
        result is Err ==> result == Err::<(), I2cError>(I2cError::Other),
{
    if frequency == 0 || frequency > 1_000_000 {
        return Err(I2cError::Other);
    }
    let period = (clock + frequency / 2) / frequency;
    proof {
        assert(period <= clock + frequency / 2) by (nonlinear_arith)
            requires
                period == (clock + frequency / 2) / (frequency as int),
                frequency >= 1,
        ;
    }
    let low_count = period * 3 / 5;
    let high_count = period - low_count;
    if high_count < 8 || low_count < 8 || high_count > 0xffff || low_count > 0xffff {
        return Err(I2cError::Other);
    }
    let sda_hold_count = if frequency < 1_000_000 {
        ((clock * 3) / 10_000_000) + 1
    } else {
        if clock <= 32_000_000 {
            return Err(I2cError::Other);
        }
        ((clock * 3) / 25_000_000) + 1
    };
    if sda_hold_count > low_count - 2 {
        return Err(I2cError::Other);
    }
    Ok(())
}

/// The bit-banged bus waits at least one timer tick per half clock: it
/// accepts clocks from 1 Hz up to half the timer rate `tick_hz`.
pub fn validate_bitbang_frequency(frequency_hz: u32, tick_hz: u64) -> (result: Result<(), I2cError>)
    ensures
        result is Ok <==> 0 < frequency_hz && frequency_hz <= tick_hz / 2,
        result is Err ==> result == Err::<(), I2cError>(I2cError::Other),
{
    if frequency_hz == 0 || frequency_hz as u64 > tick_hz / 2 {
        return Err(I2cError::Other);
    }
    Ok(())
}

/// Owned handle to an I2C bus of some backend.
pub struct I2cBusHandle<B> {
    inner: B,
    version: I2cBusVersion,
}

impl<B> I2cBusHandle<B> {
    pub closed spec fn spec_version(&self) -> I2cBusVersion {
        self.version
    }

    pub closed spec fn spec_inner(&self) -> B {
        self.inner
    }

    /// Wraps a backend and records which kind it is.
    pub fn new(inner: B, version: I2cBusVersion) -> (handle: Self)
        ensures
            handle.spec_version() == version,
            handle.spec_inner() == inner,
    {
        I2cBusHandle { inner, version }
    }

    /// The backend kind.
    pub fn version(&self) -> (version: I2cBusVersion)
        ensures
            version == self.spec_version(),
    {
        self.version
    }

    /// The backend, for the bus operations.
    pub fn inner_mut(&mut self) -> (inner: &mut B)
        ensures
            final(self).spec_inner() == *final(inner),
            *inner == old(self).spec_inner(),
            final(self).spec_version() == old(self).spec_version(),
    {
        &mut self.inner
    }
}

// ── operations ───────────────────────────────────────────────────────────

/// One operation of a transaction: read so many bytes, or write these.
pub enum I2cOperation {
    Read(usize),
    Write(Vec<u8>),
}

pub open spec fn is_read(op: I2cOperation) -> bool {
    op is Read
}

pub open spec fn op_len(op: I2cOperation) -> int {
    match op {
        I2cOperation::Read(n) => n as int,
        I2cOperation::Write(bytes) => bytes@.len() as int,
    }
}

impl I2cOperation {
    /// Whether this is a read.
    pub fn is_read(&self) -> (read: bool)
        ensures
            read == is_read(*self),
    {
        match self {
            I2cOperation::Read(_) => true,
            I2cOperation::Write(_) => false,
        }
    }

    /// The number of bytes read or written.
    pub fn len(&self) -> (len: usize)
        ensures
            len == op_len(*self),
    {
        match self {
            I2cOperation::Read(n) => *n,
            I2cOperation::Write(bytes) => bytes.len(),
        }
    }
}

/// Whether some operation has an empty buffer.
pub open spec fn has_empty(ops: Seq<I2cOperation>) -> bool {
    exists|i: int| 0 <= i < ops.len() && op_len(#[trigger] ops[i]) == 0
}

/// Returns whether some operation has an empty buffer.
pub fn any_empty(ops: &Vec<I2cOperation>) -> (empty: bool)
    ensures
        empty == has_empty(ops@),
{
    let mut i: usize = 0;
    while i < ops.len()
        invariant
            i <= ops@.len(),
            forall|j: int| 0 <= j < i ==> op_len(#[trigger] ops@[j]) != 0,
        decreases ops@.len() - i,
    {
        if ops[i].len() == 0 {
            return true;
        }
        i = i + 1;
    }
    false
}

// ── the hardware backend ─────────────────────────────────────────────────

/// The bytes of all writes, in order.
pub open spec fn written_bytes(ops: Seq<I2cOperation>) -> Seq<u8>
    decreases ops.len(),
{
    if ops.len() == 0 {
        Seq::empty()
    } else {
        written_bytes(ops.drop_last()) + match ops.last() {
            I2cOperation::Write(bytes) => bytes@,
            I2cOperation::Read(_) => Seq::empty(),
        }
    }
}

/// The number of bytes all reads take together.
pub open spec fn read_total(ops: Seq<I2cOperation>) -> int
    decreases ops.len(),
{
    if ops.len() == 0 {
        0
    } else {
        read_total(ops.drop_last()) + match ops.last() {
            I2cOperation::Read(n) => n as int,
            I2cOperation::Write(_) => 0,
        }
    }
}

/// Whether some write follows a read.
pub open spec fn write_after_read(ops: Seq<I2cOperation>) -> bool {
    exists|i: int, j: int| 0 <= i < j < ops.len() && is_read(#[trigger] ops[i]) && !is_read(#[trigger] ops[j])
}

/// The single controller operation a transaction becomes.
pub enum HardwarePlan {
    /// Nothing to do.
    Nothing,
    Write(Vec<u8>),
    Read(usize),
    /// Write, then read without releasing the bus.
    WriteRead(Vec<u8>, usize),
}

/// What the hardware backend does with a transaction: the controller can
/// only write and then read, so all writes must come first; they are sent
/// as one write and all reads are received as one read.
pub open spec fn hardware_plan_ok(ops: Seq<I2cOperation>, plan: HardwarePlan) -> bool {
    let w = written_bytes(ops);
    let r = read_total(ops);
    if ops.len() == 0 {
        plan is Nothing
    } else if r == 0 {
        plan matches HardwarePlan::Write(bytes) && bytes@ == w
    } else if w.len() == 0 {
        plan matches HardwarePlan::Read(n) && n == r
    } else {
        plan matches HardwarePlan::WriteRead(bytes, n) && bytes@ == w && n == r
    }
}

proof fn lemma_totals_step(ops: Seq<I2cOperation>, i: int)
    requires
        0 <= i < ops.len(),
    ensures
        ops.take(i + 1).drop_last() == ops.take(i),
        ops.take(i + 1).last() == ops[i],
{
    assert(ops.take(i + 1).drop_last() =~= ops.take(i));
}

/// Folds a transaction into one controller operation, or says why the
/// hardware backend refuses it.
pub fn plan_hardware_transaction(address: u8, ops: &Vec<I2cOperation>) -> (result: Result<HardwarePlan, I2cError>)
    requires
        read_total(ops@) <= usize::MAX,
        written_bytes(ops@).len() <= usize::MAX,
    ensures
        address > 0x7f ==> (result matches Err(e) && e == I2cError::AddressOutOfRange),
        address <= 0x7f && has_empty(ops@) ==> (result matches Err(e) && e == I2cError::InvalidBufferLength),
        address <= 0x7f && !has_empty(ops@) && write_after_read(ops@) ==> (result matches Err(e) && e
            == I2cError::UnsupportedTransaction),
        address <= 0x7f && !has_empty(ops@) && !write_after_read(ops@) ==> (result matches Ok(plan)
            && hardware_plan_ok(ops@, plan)),
{
    check_address(address)?;
    if any_empty(ops) {
        return Err(I2cError::InvalidBufferLength);
    }
    if ops.len() == 0 {
        return Ok(HardwarePlan::Nothing);
    }
    let mut seen_read = false;
    let mut read_len: usize = 0;
    let mut write_buffer: Vec<u8> = Vec::new();
    let mut i: usize = 0;
    proof {
        lemma_read_total_prefixes(ops@);
        lemma_written_prefixes(ops@);
    }
    while i < ops.len()
        invariant
            i <= ops@.len(),
            address <= 0x7f,
            !has_empty(ops@),
            read_total(ops@) <= usize::MAX,
            written_bytes(ops@).len() <= usize::MAX,
            read_len == read_total(ops@.take(i as int)),
            write_buffer@ == written_bytes(ops@.take(i as int)),
            seen_read <==> exists|j: int| 0 <= j < i && is_read(#[trigger] ops@[j]),
            !write_after_read(ops@.take(i as int)),
            forall|k: int| 0 <= k <= ops@.len() ==> read_total(#[trigger] ops@.take(k)) <= read_total(ops@),
            forall|k: int| 0 <= k <= ops@.len() ==> written_bytes(#[trigger] ops@.take(k)).len() <= written_bytes(
                ops@,
            ).len(),
        decreases ops@.len() - i,
    {
        proof {
            lemma_totals_step(ops@, i as int);
        }
        match &ops[i] {
            I2cOperation::Read(n) => {
                seen_read = true;
                proof {
                    assert(read_total(ops@.take(i + 1)) <= read_total(ops@));
                }
                read_len = read_len + *n;
            },
            I2cOperation::Write(bytes) => {
                if seen_read {
                    proof {
                        let j = choose|j: int| 0 <= j < i && is_read(#[trigger] ops@[j]);
                        assert(is_read(ops@[j]) && !is_read(ops@[i as int]));
                    }
                    return Err(I2cError::UnsupportedTransaction);
                }
                proof {
                    assert(written_bytes(ops@.take(i + 1)).len() <= written_bytes(ops@).len());
                }
                extend(&mut write_buffer, bytes);
            },
        }
        proof {
            assert forall|a: int, b: int| 0 <= a < b < i + 1 && is_read(#[trigger] ops@.take(i + 1)[a]) implies is_read(
                #[trigger] ops@.take(i + 1)[b],
            ) by {
                if b < i {
                    assert(ops@.take(i + 1)[a] == ops@.take(i as int)[a]);
                    assert(ops@.take(i + 1)[b] == ops@.take(i as int)[b]);
                } else {
                    assert(ops@[a] == ops@.take(i + 1)[a]);
                }
            }
        }
        i = i + 1;
    }
    proof {
        assert(ops@.take(ops@.len() as int) =~= ops@);
    }
    let write_len = write_buffer.len();
    if read_len == 0 {
        return Ok(HardwarePlan::Write(write_buffer));
    }
    if write_len == 0 {
        return Ok(HardwarePlan::Read(read_len));
    }
    Ok(HardwarePlan::WriteRead(write_buffer, read_len))
}

/// Appends `bytes` to `buffer`.
fn extend(buffer: &mut Vec<u8>, bytes: &Vec<u8>)
    requires
        old(buffer)@.len() + bytes@.len() <= usize::MAX,
    ensures
        final(buffer)@ == old(buffer)@ + bytes@,
{
    let mut i: usize = 0;
    while i < bytes.len()
        invariant
            i <= bytes@.len(),
            buffer@ == old(buffer)@ + bytes@.take(i as int),
        decreases bytes@.len() - i,
    {
        buffer.push(bytes[i]);
        proof {
            assert(buffer@ =~= old(buffer)@ + bytes@.take(i + 1));
        }
        i = i + 1;
    }
    proof {
        assert(bytes@.take(bytes@.len() as int) =~= bytes@);
    }
}

/// Where the bytes of read `i` start in the combined read buffer.
pub open spec fn read_offset(ops: Seq<I2cOperation>, i: int) -> int {
    read_total(ops.take(i))
}

/// Hands each read its part of the combined read buffer: entry `i` of the
/// result holds what operation `i` received (nothing for a write).
pub fn scatter_reads(ops: &Vec<I2cOperation>, received: &Vec<u8>) -> (parts: Vec<Vec<u8>>)
    requires
        received@.len() == read_total(ops@),
    ensures
        parts@.len() == ops@.len(),
        forall|i: int|
            0 <= i < ops@.len() ==> (#[trigger] parts@[i])@ == if is_read(ops@[i]) {
                received@.subrange(read_offset(ops@, i), read_offset(ops@, i) + op_len(ops@[i]))
            } else {
                Seq::<u8>::empty()
            },
{
    let mut parts: Vec<Vec<u8>> = Vec::new();
    let mut offset: usize = 0;
    let mut i: usize = 0;
    let total = received.len();
    proof {
        lemma_read_total_prefixes(ops@);
    }
    while i < ops.len()
        invariant
            i <= ops@.len(),
            total == received@.len(),
            received@.len() == read_total(ops@),
            offset == read_offset(ops@, i as int),
            parts@.len() == i,
            forall|k: int| 0 <= k <= ops@.len() ==> read_total(#[trigger] ops@.take(k)) <= read_total(ops@),
            forall|j: int|
                0 <= j < i ==> (#[trigger] parts@[j])@ == if is_read(ops@[j]) {
                    received@.subrange(read_offset(ops@, j), read_offset(ops@, j) + op_len(ops@[j]))
                } else {
                    Seq::<u8>::empty()
                },
        decreases ops@.len() - i,
    {
        proof {
            lemma_totals_step(ops@, i as int);
            assert(read_total(ops@.take(i + 1)) <= read_total(ops@));
        }
        match &ops[i] {
            I2cOperation::Read(n) => {
                let end = offset + *n;
                let part = vstd::slice::slice_to_vec(vstd::slice::slice_subrange(received.as_slice(), offset, end));
                parts.push(part);
                offset = end;
            },
            I2cOperation::Write(_) => {
                parts.push(Vec::new());
            },
        }
        i = i + 1;
    }
    parts
}

/// Every prefix of a transaction reads no more than the whole.
proof fn lemma_read_total_prefixes(ops: Seq<I2cOperation>)
    ensures
        forall|k: int| 0 <= k <= ops.len() ==> read_total(#[trigger] ops.take(k)) <= read_total(ops),
    decreases ops.len(),
{
    if ops.len() > 0 {
        lemma_read_total_prefixes(ops.drop_last());
        assert forall|k: int| 0 <= k <= ops.len() implies read_total(#[trigger] ops.take(k)) <= read_total(ops) by {
            if k < ops.len() {
                assert(ops.take(k) =~= ops.drop_last().take(k));
            } else {
                assert(ops.take(k) =~= ops);
            }
        }
    }
}

/// Every prefix of a transaction writes no more than the whole.
proof fn lemma_written_prefixes(ops: Seq<I2cOperation>)
    ensures
        forall|k: int| 0 <= k <= ops.len() ==> written_bytes(#[trigger] ops.take(k)).len() <= written_bytes(ops).len(),
    decreases ops.len(),
{
    if ops.len() > 0 {
        lemma_written_prefixes(ops.drop_last());
        assert forall|k: int| 0 <= k <= ops.len() implies written_bytes(#[trigger] ops.take(k)).len()
            <= written_bytes(ops).len() by {
            if k < ops.len() {
                assert(ops.take(k) =~= ops.drop_last().take(k));
            } else {
                assert(ops.take(k) =~= ops);
            }
        }
    }
}

// ── the bit-banged backend ───────────────────────────────────────────────

/// One step of a bit-banged transaction. Sending a byte that the target
/// does not acknowledge ends the transfer with [`I2cError::Abort`].
#[derive(Clone, Copy, Debug, PartialEq, Eq, Structural)]
pub enum BusStep {
    /// A start (or repeated start) condition.
    Start,
    /// Send the address byte: the address and the read bit.
    Address(u8),
    /// Send a data byte.
    Write(u8),
    /// Receive a byte, then acknowledge it or not.
    Read { ack: bool },
    /// A stop condition.
    Stop,
}

/// The address byte: the seven-bit address shifted up, with the read bit
/// below it.
pub open spec fn address_byte(address: u8, read: bool) -> u8 {
    (address << 1u8) | (if read { 1u8 } else { 0u8 })
}

/// The address byte for an access to `address`.
pub fn make_address_byte(address: u8, read: bool) -> (byte: u8)
    ensures
        byte == address_byte(address, read),
{
    let bit: u8 = if read { 1 } else { 0 };
    (address << 1u8) | bit
}

/// The steps of operation `i`: a (repeated) start and the address byte
/// when the direction changes, then its bytes; every byte read is
/// acknowledged except the last one of a run of reads.
pub open spec fn op_steps(address: u8, ops: Seq<I2cOperation>, i: int) -> Seq<BusStep> {
    let read = is_read(ops[i]);
    let header = if i == 0 {
        seq![BusStep::Address(address_byte(address, read))]
    } else if is_read(ops[i - 1]) != read {
        seq![BusStep::Start, BusStep::Address(address_byte(address, read))]
    } else {
        Seq::empty()
    };
    let next_is_read = i + 1 < ops.len() && is_read(ops[i + 1]);
    let body = match ops[i] {
        I2cOperation::Read(n) => Seq::new(n as nat, |j: int| BusStep::Read { ack: j + 1 < n || next_is_read }),
        I2cOperation::Write(bytes) => Seq::new(bytes@.len(), |j: int| BusStep::Write(bytes@[j])),
    };
    header + body
}

/// The steps of the first `k` operations.
pub open spec fn steps_upto(address: u8, ops: Seq<I2cOperation>, k: nat) -> Seq<BusStep>
    decreases k,
{
    if k == 0 {
        Seq::empty()
    } else {
        steps_upto(address, ops, (k - 1) as nat) + op_steps(address, ops, k - 1)
    }
}

/// The steps of a whole transaction: nothing for no operations, else a
/// start, the operations' steps and a stop.
pub open spec fn bitbang_steps(address: u8, ops: Seq<I2cOperation>) -> Seq<BusStep> {
    if ops.len() == 0 {
        Seq::empty()
    } else {
        seq![BusStep::Start] + steps_upto(address, ops, ops.len()) + seq![BusStep::Stop]
    }
}

/// The steps the bit-banged backend carries a transaction out with, or
/// why it refuses it before touching the bus.
pub fn bitbang_transaction_plan(address: u8, ops: &Vec<I2cOperation>) -> (result: Result<Vec<BusStep>, I2cError>)
    ensures
        address > 0x7f ==> (result matches Err(e) && e == I2cError::AddressOutOfRange),
        address <= 0x7f && has_empty(ops@) ==> (result matches Err(e) && e == I2cError::InvalidBufferLength),
        address <= 0x7f && !has_empty(ops@) ==> (result matches Ok(steps) && steps@ == bitbang_steps(
            address,
            ops@,
        )),
{
    check_address(address)?;
    if any_empty(ops) {
        return Err(I2cError::InvalidBufferLength);
    }
    let mut steps: Vec<BusStep> = Vec::new();
    let n = ops.len();
    if n == 0 {
        return Ok(steps);
    }
    steps.push(BusStep::Start);
    let mut i: usize = 0;
    while i < n
        invariant
            i <= n,
            n == ops@.len(),
            steps@ == seq![BusStep::Start] + steps_upto(address, ops@, i as nat),
        decreases n - i,
    {
        let ghost before = steps@;
        let read = ops[i].is_read();
        if i == 0 {
            steps.push(BusStep::Address(make_address_byte(address, read)));
        } else if ops[i - 1].is_read() != read {
            steps.push(BusStep::Start);
            steps.push(BusStep::Address(make_address_byte(address, read)));
        }
        let ghost header = steps@.subrange(before.len() as int, steps@.len() as int);
        proof {
            assert(steps@ =~= before + header);
        }
        let next_is_read = i + 1 < n && ops[i + 1].is_read();
        let ghost with_header = steps@;
        match &ops[i] {
            I2cOperation::Read(len) => {
                let len = *len;
                let mut j: usize = 0;
                while j < len
                    invariant
                        j <= len,
                        steps@ == with_header + Seq::new(j as nat, |k: int| BusStep::Read { ack: k + 1 < len || next_is_read }),
                    decreases len - j,
                {
                    steps.push(BusStep::Read { ack: j + 1 < len || next_is_read });
                    proof {
                        assert(steps@ =~= with_header + Seq::new((j + 1) as nat, |k: int| BusStep::Read { ack: k + 1 < len || next_is_read }));
                    }
                    j = j + 1;
                }
            },
            I2cOperation::Write(bytes) => {
                let mut j: usize = 0;
                while j < bytes.len()
                    invariant
                        j <= bytes@.len(),
                        steps@ == with_header + Seq::new(j as nat, |k: int| BusStep::Write(bytes@[k])),
                    decreases bytes@.len() - j,
                {
                    steps.push(BusStep::Write(bytes[j]));
                    proof {
                        assert(steps@ =~= with_header + Seq::new((j + 1) as nat, |k: int| BusStep::Write(bytes@[k])));
                    }
                    j = j + 1;
                }
            },
        }
        proof {
            let body = steps@.subrange(with_header.len() as int, steps@.len() as int);
            assert(steps@ =~= before + (header + body));
            assert(header + body =~= op_steps(address, ops@, i as int));
            assert(steps_upto(address, ops@, (i + 1) as nat) == steps_upto(address, ops@, i as nat) + op_steps(
                address,
                ops@,
                i as int,
            ));
            assert(steps@ =~= seq![BusStep::Start] + steps_upto(address, ops@, (i + 1) as nat));
        }
        i = i + 1;
    }
    steps.push(BusStep::Stop);
    Ok(steps)
}

/// Whether the bit-banged backend sends a stop after a transfer ended with
/// `transfer`: always, except when arbitration was lost, where the lines
/// are just released.
pub fn sends_stop(transfer: Result<(), I2cError>) -> (stop: bool)
    ensures
        stop == (transfer != Err::<(), I2cError>(I2cError::ArbitrationLoss)),
{
    match transfer {
        Err(I2cError::ArbitrationLoss) => false,
        _ => true,
    }
}

/// The result of a transaction: the transfer's error if it failed, else
/// the stop condition's.
pub fn transaction_result(transfer: Result<(), I2cError>, stop: Result<(), I2cError>) -> (result: Result<(), I2cError>)
    ensures
        result == if transfer is Err { transfer } else { stop },
{
    match transfer {
        Err(e) => Err(e),
        Ok(()) => stop,
    }
}

} // verus!
