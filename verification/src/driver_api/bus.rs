//! Bus errors, handles and bit-banged bus timing of the earlier driver
//! API, and the bus steps its bit-banged I2C backend carries transfers out
//! with.

use vstd::prelude::*;

use crate::bus::i2c::{address_byte, is_read, make_address_byte, op_len, BusStep, ControllerError, I2cOperation};
use crate::bus::spi::SpiPinStep;

verus! {

// ── I2C ──────────────────────────────────────────────────────────────────

/// Error returned by I2C operations.
#[derive(Clone, Copy, Debug, PartialEq, Eq, Structural)]
pub enum I2cError {
    /// I2C abort: not acknowledged, bus stuck, or arbitration lost.
    Abort,
    /// A zero-length read or write buffer.
    InvalidBufferLength,
    /// The address does not fit in seven bits.
    AddressOutOfRange,
    Other,
}

/// Backend of an I2C bus.
#[derive(Clone, Copy, Debug, PartialEq, Eq, Structural)]
pub enum I2cBusVersion {
    Hardware,
    BitBang,
}

impl I2cError {
    /// The error a controller failure is reported as; every abort, lost
    /// arbitration included, is an abort.
    pub fn from_controller(error: ControllerError) -> (result: I2cError)
        ensures
            result == match error {
                ControllerError::ArbitrationLoss => I2cError::Abort,
                ControllerError::Abort => I2cError::Abort,
                ControllerError::InvalidReadBufferLength => I2cError::InvalidBufferLength,
                ControllerError::InvalidWriteBufferLength => I2cError::InvalidBufferLength,
                ControllerError::AddressOutOfRange => I2cError::AddressOutOfRange,
                ControllerError::AddressReserved => I2cError::Other,
            },
    {
        match error {
            ControllerError::ArbitrationLoss => I2cError::Abort,
            ControllerError::Abort => I2cError::Abort,
            ControllerError::InvalidReadBufferLength => I2cError::InvalidBufferLength,
            ControllerError::InvalidWriteBufferLength => I2cError::InvalidBufferLength,
            ControllerError::AddressOutOfRange => I2cError::AddressOutOfRange,
            ControllerError::AddressReserved => I2cError::Other,
        }
    }
}

/// Owned handle to an I2C bus of some backend.
pub struct I2cBusHandle<B> {
    inner: B,
    version: I2cBusVersion,
}

impl<B> I2cBusHandle<B> {
    pub closed spec fn spec_version(&self) -> I2cBusVersion {
        self.version
    }

    pub closed spec fn spec_inner(&self) -> B {
        self.inner
    }

    /// Wraps a backend and records which kind it is.
    pub fn new(inner: B, version: I2cBusVersion) -> (handle: Self)
        ensures
            handle.spec_version() == version,
            handle.spec_inner() == inner,
    {
        I2cBusHandle { inner, version }
    }

    /// The backend kind.
    pub fn version(&self) -> (version: I2cBusVersion)
        ensures
            version == self.spec_version(),
    {
        self.version
    }

    /// The backend, for the bus operations.
    pub fn inner_mut(&mut self) -> (inner: &mut B)
        ensures
            final(self).spec_inner() == *final(inner),
            *inner == old(self).spec_inner(),
            final(self).spec_version() == old(self).spec_version(),
    {
        &mut self.inner
    }
}

/// Half a clock period of the bit-banged bus in microseconds: 5 µs when no
/// frequency is given.
pub fn bitbang_i2c_half_period_micros(frequency_hz: u32) -> (micros: u64)
    ensures
        micros == if frequency_hz > 0 { 500_000int / (frequency_hz as int) } else { 5int },
{
    if frequency_hz > 0 {
        500_000 / frequency_hz as u64
    } else {
        5
    }
}

/// How a bit-banged transfer ends: with these steps run in order, then this
/// result. When the target does not acknowledge the address byte the bus
/// sends a stop and the transfer fails with `Abort`; when it does not
/// acknowledge a data byte the transfer fails with `Abort` at once.
pub struct LegacyPlan {
    pub steps: Vec<BusStep>,
    pub result: Result<(), I2cError>,
}

/// The bytes read for a buffer of `n`: each acknowledged but the last.
pub open spec fn read_steps(n: int) -> Seq<BusStep> {
    Seq::new(n as nat, |j: int| BusStep::Read { ack: j < n - 1 })
}

/// The bytes written.
pub open spec fn write_steps(bytes: Seq<u8>) -> Seq<BusStep> {
    Seq::new(bytes.len(), |j: int| BusStep::Write(bytes[j]))
}

/// The steps of operation `i` up to its data: a (repeated) start before
/// every operation but a first write, then the address byte.
pub open spec fn legacy_head(address: u8, ops: Seq<I2cOperation>, i: int) -> Seq<BusStep> {
    let read = is_read(ops[i]);
    let restart = if i > 0 || read { seq![BusStep::Start] } else { Seq::empty() };
    restart + seq![BusStep::Address(address_byte(address, read))]
}

/// The steps of a non-empty operation `i`: head, data, and a stop after
/// the last operation.
pub open spec fn legacy_op_steps(address: u8, ops: Seq<I2cOperation>, i: int) -> Seq<BusStep> {
    let body = match ops[i] {
        I2cOperation::Read(n) => read_steps(n as int),
        I2cOperation::Write(bytes) => write_steps(bytes@),
    };
    let stop = if i == ops.len() - 1 { seq![BusStep::Stop] } else { Seq::empty() };
    legacy_head(address, ops, i) + body + stop
}

/// The steps of the first `k` operations.
pub open spec fn legacy_upto(address: u8, ops: Seq<I2cOperation>, k: nat) -> Seq<BusStep>
    decreases k,
{
    if k == 0 {
        Seq::empty()
    } else {
        legacy_upto(address, ops, (k - 1) as nat) + legacy_op_steps(address, ops, k - 1)
    }
}

/// Whether operation `k` is the first one with an empty buffer.
pub open spec fn first_empty(ops: Seq<I2cOperation>, k: int) -> bool {
    &&& 0 <= k < ops.len()
    &&& op_len(ops[k]) == 0
    &&& forall|j: int| 0 <= j < k ==> op_len(#[trigger] ops[j]) != 0
}

/// The steps of a bit-banged transaction: nothing for no operations; else
/// a start and each operation's steps. An operation with an empty buffer
/// is found only once its address byte is out: the bus sends a stop and
/// the transaction fails with `InvalidBufferLength`.
#[verifier::rlimit(40)]
pub fn legacy_transaction_plan(address: u8, ops: &Vec<I2cOperation>) -> (plan: LegacyPlan)
    ensures
        ops@.len() == 0 ==> plan.steps@ == Seq::<BusStep>::empty() && plan.result == Ok::<(), I2cError>(()),
        forall|k: int|
            first_empty(ops@, k) ==> plan.steps@ == seq![BusStep::Start] + legacy_upto(address, ops@, k as nat)
                + legacy_head(address, ops@, k) + seq![BusStep::Stop] && plan.result == Err::<(), I2cError>(
                I2cError::InvalidBufferLength,
            ),
        ops@.len() > 0 && (forall|j: int| 0 <= j < ops@.len() ==> op_len(#[trigger] ops@[j]) != 0) ==> plan.steps@
            == seq![BusStep::Start] + legacy_upto(address, ops@, ops@.len()) && plan.result == Ok::<(), I2cError>(()),
{
    let mut steps: Vec<BusStep> = Vec::new();
    let n = ops.len();
    if n == 0 {
        return LegacyPlan { steps, result: Ok(()) };
    }
    steps.push(BusStep::Start);
    let mut i: usize = 0;
    while i < n
        invariant
            i <= n,
            n == ops@.len(),
            n > 0,
            steps@ == seq![BusStep::Start] + legacy_upto(address, ops@, i as nat),
            forall|j: int| 0 <= j < i ==> op_len(#[trigger] ops@[j]) != 0,
        decreases n - i,
    {
        let ghost before = steps@;
        let read = ops[i].is_read();
        if i > 0 || read {
            steps.push(BusStep::Start);
        }
        steps.push(BusStep::Address(make_address_byte(address, read)));
        let ghost head = steps@.subrange(before.len() as int, steps@.len() as int);
        proof {
            assert(head =~= legacy_head(address, ops@, i as int));
            assert(steps@ =~= before + head);
        }
        let len = ops[i].len();
        if len == 0 {
            steps.push(BusStep::Stop);
            proof {
                assert(first_empty(ops@, i as int));
                assert forall|k: int| first_empty(ops@, k) implies k == i by {
                    if k < i {
                        assert(op_len(ops@[k]) != 0);
                    } else if k > i {
                        assert(op_len(ops@[i as int]) != 0);
                    }
                }
                assert(steps@ =~= seq![BusStep::Start] + legacy_upto(address, ops@, i as nat) + legacy_head(
                    address,
                    ops@,
                    i as int,
                ) + seq![BusStep::Stop]);
            }
            return LegacyPlan { steps, result: Err(I2cError::InvalidBufferLength) };
        }
        let ghost with_head = steps@;
        match &ops[i] {
            I2cOperation::Read(count) => {
                push_reads(&mut steps, *count);
            },
            I2cOperation::Write(bytes) => {
                push_writes(&mut steps, bytes);
            },
        }
        let ghost with_body = steps@;
        if i == n - 1 {
            steps.push(BusStep::Stop);
        }
        proof {
            let body = with_body.subrange(with_head.len() as int, with_body.len() as int);
            let stop = steps@.subrange(with_body.len() as int, steps@.len() as int);
            assert(with_body =~= with_head + body);
            assert(steps@ =~= with_body + stop);
            assert(head + body + stop =~= legacy_op_steps(address, ops@, i as int));
            assert(steps@ =~= seq![BusStep::Start] + legacy_upto(address, ops@, (i + 1) as nat));
        }
        i = i + 1;
    }
    LegacyPlan { steps, result: Ok(()) }
}

/// The steps of a bit-banged read of `len` bytes from `address`; an empty
/// buffer is refused before the bus is touched.
pub fn legacy_read_plan(address: u8, len: usize) -> (plan: LegacyPlan)
    ensures
        len == 0 ==> plan.steps@ == Seq::<BusStep>::empty() && plan.result == Err::<(), I2cError>(
            I2cError::InvalidBufferLength,
        ),
        len > 0 ==> plan.steps@ == seq![BusStep::Start, BusStep::Address(address_byte(address, true))]
            + read_steps(len as int) + seq![BusStep::Stop] && plan.result == Ok::<(), I2cError>(()),
{
    let mut steps: Vec<BusStep> = Vec::new();
    if len == 0 {
        return LegacyPlan { steps, result: Err(I2cError::InvalidBufferLength) };
    }
    steps.push(BusStep::Start);
    steps.push(BusStep::Address(make_address_byte(address, true)));
    push_reads(&mut steps, len);
    steps.push(BusStep::Stop);
    LegacyPlan { steps, result: Ok(()) }
}

/// The steps of a bit-banged write of `bytes` to `address`; an empty
/// buffer is refused before the bus is touched.
pub fn legacy_write_plan(address: u8, bytes: &Vec<u8>) -> (plan: LegacyPlan)
    ensures
        bytes@.len() == 0 ==> plan.steps@ == Seq::<BusStep>::empty() && plan.result == Err::<(), I2cError>(
            I2cError::InvalidBufferLength,
        ),
        bytes@.len() > 0 ==> plan.steps@ == seq![BusStep::Start, BusStep::Address(address_byte(address, false))]
            + write_steps(bytes@) + seq![BusStep::Stop] && plan.result == Ok::<(), I2cError>(()),
{
    let mut steps: Vec<BusStep> = Vec::new();
    if bytes.len() == 0 {
        return LegacyPlan { steps, result: Err(I2cError::InvalidBufferLength) };
    }
    steps.push(BusStep::Start);
    steps.push(BusStep::Address(make_address_byte(address, false)));
    push_writes(&mut steps, bytes);
    steps.push(BusStep::Stop);
    LegacyPlan { steps, result: Ok(()) }
}

/// The steps of a bit-banged write of `bytes` followed, after a repeated
/// start, by a read of `len` bytes; empty buffers are refused before the
/// bus is touched.
pub fn legacy_write_read_plan(address: u8, bytes: &Vec<u8>, len: usize) -> (plan: LegacyPlan)
    ensures
        bytes@.len() == 0 || len == 0 ==> plan.steps@ == Seq::<BusStep>::empty() && plan.result == Err::<
            (),
            I2cError,
        >(I2cError::InvalidBufferLength),
        bytes@.len() > 0 && len > 0 ==> plan.steps@ == seq![BusStep::Start, BusStep::Address(address_byte(address, false))]
            + write_steps(bytes@) + seq![BusStep::Start, BusStep::Address(address_byte(address, true))]
            + read_steps(len as int) + seq![BusStep::Stop] && plan.result == Ok::<(), I2cError>(()),
{
    let mut steps: Vec<BusStep> = Vec::new();
    if bytes.len() == 0 || len == 0 {
        return LegacyPlan { steps, result: Err(I2cError::InvalidBufferLength) };
    }
    steps.push(BusStep::Start);
    steps.push(BusStep::Address(make_address_byte(address, false)));
    push_writes(&mut steps, bytes);
    steps.push(BusStep::Start);
    steps.push(BusStep::Address(make_address_byte(address, true)));
    push_reads(&mut steps, len);
    steps.push(BusStep::Stop);
    LegacyPlan { steps, result: Ok(()) }
}

fn push_reads(steps: &mut Vec<BusStep>, len: usize)
    ensures
        final(steps)@ == old(steps)@ + read_steps(len as int),
{
    let mut j: usize = 0;
    while j < len
        invariant
            j <= len,
            steps@ == old(steps)@ + read_steps(len as int).take(j as int),
        decreases len - j,
    {
        steps.push(BusStep::Read { ack: j + 1 < len });
        proof {
            assert(steps@ =~= old(steps)@ + read_steps(len as int).take(j + 1));
        }
        j = j + 1;
    }
    proof {
        assert(read_steps(len as int).take(len as int) =~= read_steps(len as int));
    }
}

fn push_writes(steps: &mut Vec<BusStep>, bytes: &Vec<u8>)
    ensures
        final(steps)@ == old(steps)@ + write_steps(bytes@),
{
    let mut j: usize = 0;
    while j < bytes.len()
        invariant
            j <= bytes@.len(),
            steps@ == old(steps)@ + write_steps(bytes@).take(j as int),
        decreases bytes@.len() - j,
    {
        steps.push(BusStep::Write(bytes[j]));
        proof {
            assert(steps@ =~= old(steps)@ + write_steps(bytes@).take(j + 1));
        }
        j = j + 1;
    }
    proof {
        assert(write_steps(bytes@).take(bytes@.len() as int) =~= write_steps(bytes@));
    }
}

// ── SPI ──────────────────────────────────────────────────────────────────

/// Error returned by SPI operations.
#[derive(Clone, Copy, Debug, PartialEq, Eq, Structural)]
pub enum SpiError {
    Overrun,
    ModeFault,
    Crc,
    Other,
}

/// Backend of an SPI bus.
#[derive(Clone, Copy, Debug, PartialEq, Eq, Structural)]
pub enum SpiBusVersion {
    Hardware,
    Pio,
    BitBang,
}

/// What exchanging `before` word by word leaves: `backends` are the
/// backend's states, from the first exchange on, and `replies` what each
/// exchange made left in its one-byte read buffer and returned. Exchange
/// `j` hands the backend word `j` both as the byte to send and as the read
/// buffer's content; the byte left in the buffer replaces the word; the
/// first failure ends the exchange with its error, leaving the later words
/// as they were; success means every word was exchanged.
pub open spec fn exchanged_words<B: DynSpiBusBlocking>(
    before: Seq<u8>,
    backends: Seq<B>,
    replies: Seq<(Seq<u8>, Result<(), SpiError>)>,
    after: Seq<u8>,
    result: Result<(), SpiError>,
) -> bool {
    &&& backends.len() == replies.len() + 1
    &&& replies.len() <= before.len()
    &&& after.len() == before.len()
    &&& forall|j: int|
        0 <= j < replies.len() ==> backends[j].transferred(
            seq![before[j]],
            seq![before[j]],
            backends[j + 1],
            (#[trigger] replies[j]).0,
            replies[j].1,
        )
    &&& match result {
        Ok(()) => replies.len() == before.len() && forall|j: int| 0 <= j < replies.len() ==> (#[trigger] replies[j]).1 is Ok,
        Err(e) => replies.len() > 0 && replies.last().1 == Err::<(), SpiError>(e) && forall|j: int|
            0 <= j < replies.len() - 1 ==> (#[trigger] replies[j]).1 is Ok,
    }
    &&& forall|j: int|
        0 <= j < before.len() ==> #[trigger] after[j] == if j < replies.len() && replies[j].0.len() > 0 {
            replies[j].0[0]
        } else {
            before[j]
        }
}

/// Blocking access to an SPI bus, implemented by each backend. What an
/// operation does depends on the hardware, so each backend names, for each
/// operation, which outcomes it can have: the backend's state after it,
/// what lands in the caller's buffer, and the result. A backend that names
/// nothing allows every outcome; the handles, generic over the backend,
/// know only the backend's own relations.
pub trait DynSpiBusBlocking: Sized {
    /// Whether writing `data` from `self` can leave `after` and return
    /// `result`.
    open spec fn wrote(&self, data: Seq<u8>, after: Self, result: Result<(), SpiError>) -> bool {
        true
    }

    /// Whether reading into a buffer holding `buffer` from `self` can leave
    /// `after`, the buffer holding `received`, and return `result`.
    open spec fn read_into(&self, buffer: Seq<u8>, after: Self, received: Seq<u8>, result: Result<(), SpiError>) -> bool {
        true
    }

    /// Whether transferring `write` out while reading into a buffer holding
    /// `read` can leave `after`, the buffer holding `received`, and return
    /// `result`.
    open spec fn transferred(
        &self,
        read: Seq<u8>,
        write: Seq<u8>,
        after: Self,
        received: Seq<u8>,
        result: Result<(), SpiError>,
    ) -> bool {
        true
    }

    fn write_blocking(&mut self, data: &[u8]) -> (result: Result<(), SpiError>)
        ensures
            old(self).wrote(data@, *final(self), result),
    ;

    fn read_blocking(&mut self, data: &mut [u8]) -> (result: Result<(), SpiError>)
        ensures
            old(self).read_into(old(data)@, *final(self), final(data)@, result),
    ;

    fn transfer_blocking(&mut self, read: &mut [u8], write: &[u8]) -> (result: Result<(), SpiError>)
        ensures
            old(self).transferred(old(read)@, write@, *final(self), final(read)@, result),
    ;
}

/// A backend that offers blocking access; the asynchronous half lives
/// with the executor.
pub trait DynSpiBusCombined: DynSpiBusBlocking {
}

/// Owned handle to an SPI bus of some backend.
pub struct SpiBusHandle<B: DynSpiBusCombined> {
    inner: B,
    version: SpiBusVersion,
}

impl<B: DynSpiBusCombined> SpiBusHandle<B> {
    pub closed spec fn spec_version(&self) -> SpiBusVersion {
        self.version
    }

    pub closed spec fn spec_inner(&self) -> B {
        self.inner
    }

    /// Wraps a backend and records which kind it is.
    pub fn new(inner: B, version: SpiBusVersion) -> (handle: Self)
        ensures
            handle.spec_version() == version,
            handle.spec_inner() == inner,
    {
        SpiBusHandle { inner, version }
    }

    /// The backend kind.
    pub fn version(&self) -> (version: SpiBusVersion)
        ensures
            version == self.spec_version(),
    {
        self.version
    }

    /// Shifts out `data`, discarding what comes in.
    pub fn write_blocking(&mut self, data: &[u8]) -> (result: Result<(), SpiError>)
        ensures
            final(self).spec_version() == old(self).spec_version(),
            old(self).spec_inner().wrote(data@, final(self).spec_inner(), result),
    {
        self.inner.write_blocking(data)
    }

    /// Fills `data` with received bytes.
    pub fn read_blocking(&mut self, data: &mut [u8]) -> (result: Result<(), SpiError>)
        ensures
            final(self).spec_version() == old(self).spec_version(),
            old(self).spec_inner().read_into(old(data)@, final(self).spec_inner(), final(data)@, result),
    {
        self.inner.read_blocking(data)
    }

    /// Full-duplex transfer of `write` out and `read` in.
    pub fn transfer_blocking(&mut self, read: &mut [u8], write: &[u8]) -> (result: Result<(), SpiError>)
        ensures
            final(self).spec_version() == old(self).spec_version(),
            old(self).spec_inner().transferred(old(read)@, write@, final(self).spec_inner(), final(read)@, result),
    {
        self.inner.transfer_blocking(read, write)
    }

    /// Exchanges `words` one at a time: each word is handed to the backend's
    /// transfer both as the byte to send and in the one-byte read buffer,
    /// and replaced by what the buffer then holds; stops at the first failed
    /// exchange, with its error, leaving the later words as they were.
    pub fn transfer_in_place_blocking(&mut self, words: &mut [u8]) -> (result: Result<(), SpiError>)
        ensures
            final(self).spec_version() == old(self).spec_version(),
            final(words)@.len() == old(words)@.len(),
            old(words)@.len() == 0 ==> result is Ok && final(words)@ == old(words)@ && final(self).spec_inner()
                == old(self).spec_inner(),
            exists|backends: Seq<B>, replies: Seq<(Seq<u8>, Result<(), SpiError>)>|
                backends[0] == old(self).spec_inner() && backends.last() == final(self).spec_inner()
                    && exchanged_words(old(words)@, backends, replies, final(words)@, result),
    {
        let len = words.len();
        let mut i: usize = 0;
        let ghost mut backends: Seq<B> = seq![self.inner];
        let ghost mut replies: Seq<(Seq<u8>, Result<(), SpiError>)> = Seq::empty();
        while i < len
            invariant
                i <= len,
                len == words@.len(),
                words@.len() == old(words)@.len(),
                self.spec_version() == old(self).spec_version(),
                replies.len() == i,
                backends.len() == i + 1,
                backends[0] == old(self).spec_inner(),
                backends.last() == self.spec_inner(),
                forall|j: int|
                    0 <= j < i ==> backends[j].transferred(
                        seq![old(words)@[j]],
                        seq![old(words)@[j]],
                        backends[j + 1],
                        (#[trigger] replies[j]).0,
                        replies[j].1,
                    ),
                forall|j: int| 0 <= j < i ==> (#[trigger] replies[j]).1 is Ok,
                forall|j: int|
                    0 <= j < i ==> #[trigger] words@[j] == if replies[j].0.len() > 0 {
                        replies[j].0[0]
                    } else {
                        old(words)@[j]
                    },
                forall|j: int| i <= j < len ==> #[trigger] words@[j] == old(words)@[j],
            decreases len - i,
        {
            let word = words[i];
            let mut received: Vec<u8> = vec![word];
            let out: Vec<u8> = vec![word];
            let ghost before = self.inner;
            proof {
                assert(received@ =~= seq![old(words)@[i as int]]);
                assert(out@ =~= seq![old(words)@[i as int]]);
            }
            let result = self.inner.transfer_blocking(received.as_mut_slice(), out.as_slice());
            if received.len() > 0 {
                words[i] = received[0];
            }
            proof {
                replies = replies.push((received@, result));
                backends = backends.push(self.inner);
                assert(replies[i as int] == (received@, result));
            }
            match result {
                Ok(()) => {},
                Err(e) => {
                    proof {
                        assert(exchanged_words(old(words)@, backends, replies, words@, Err::<(), SpiError>(e)));
                    }
                    return Err(e);
                },
            }
            i = i + 1;
        }
        proof {
            assert(exchanged_words(old(words)@, backends, replies, words@, Ok::<(), SpiError>(())));
            if len == 0 {
                assert(words@ =~= old(words)@);
            }
        }
        Ok(())
    }

    /// The backend, for the asynchronous operations.
    pub fn inner_mut(&mut self) -> (inner: &mut B)
        ensures
            final(self).spec_inner() == *final(inner),
            *inner == old(self).spec_inner(),
            final(self).spec_version() == old(self).spec_version(),
    {
        &mut self.inner
    }
}

/// Half a clock period of the bit-banged SPI bus in microseconds: 10 µs
/// when no frequency is given.
pub fn bitbang_spi_delay_micros(frequency_hz: u32) -> (micros: u64)
    ensures
        micros == if frequency_hz > 0 { 1_000_000int / (2 * (frequency_hz as int)) } else { 10int },
{
    if frequency_hz > 0 {
        1_000_000 / (2 * frequency_hz as u64)
    } else {
        10
    }
}

/// The pin steps that exchange one bit on this API's bit-banged bus: data
/// out, clock high, wait, sample, clock low, wait.
pub open spec fn legacy_bit_steps(bit: bool) -> Seq<SpiPinStep> {
    seq![
        SpiPinStep::SetMosi(bit),
        SpiPinStep::ClockActive,
        SpiPinStep::Wait,
        SpiPinStep::SampleMiso,
        SpiPinStep::ClockIdle,
        SpiPinStep::Wait,
    ]
}

/// When this API's bus exchanges a bit: the data line is driven once, to
/// the bit, before the clock goes high; the data-in line is sampled once,
/// while the clock is high, before it goes low again.
pub proof fn lemma_legacy_bit_sampled_while_high(bit: bool)
    ensures
        ({
            let s = legacy_bit_steps(bit);
            &&& s.len() == 6
            &&& s.contains(SpiPinStep::SetMosi(bit))
            &&& s.contains(SpiPinStep::ClockActive)
            &&& s.contains(SpiPinStep::ClockIdle)
            &&& s.contains(SpiPinStep::SampleMiso)
            &&& forall|j: int| 0 <= j < 6 && (#[trigger] s[j]) is SetMosi ==> s[j] == SpiPinStep::SetMosi(bit)
            &&& forall|j: int, k: int|
                0 <= j < 6 && 0 <= k < 6 && j != k && #[trigger] s[j] == #[trigger] s[k] ==> s[j] == SpiPinStep::Wait
            &&& forall|m: int, a: int, p: int, i: int|
                0 <= m < 6 && 0 <= a < 6 && 0 <= p < 6 && 0 <= i < 6 && #[trigger] s[m] == SpiPinStep::SetMosi(bit)
                    && #[trigger] s[a] == SpiPinStep::ClockActive && #[trigger] s[p] == SpiPinStep::SampleMiso
                    && #[trigger] s[i] == SpiPinStep::ClockIdle ==> m < a < p < i
        }),
{
    let s = legacy_bit_steps(bit);
    assert(s[0] == SpiPinStep::SetMosi(bit) && s[1] == SpiPinStep::ClockActive && s[2] == SpiPinStep::Wait
        && s[3] == SpiPinStep::SampleMiso && s[4] == SpiPinStep::ClockIdle && s[5] == SpiPinStep::Wait);
}

/// The pin steps for one bit of a transfer.
pub fn legacy_spi_bit_steps(bit: bool) -> (steps: Vec<SpiPinStep>)
    ensures
        steps@ == legacy_bit_steps(bit),
{
    let mut steps: Vec<SpiPinStep> = Vec::new();
    steps.push(SpiPinStep::SetMosi(bit));
    steps.push(SpiPinStep::ClockActive);
    steps.push(SpiPinStep::Wait);
    steps.push(SpiPinStep::SampleMiso);
    steps.push(SpiPinStep::ClockIdle);
    steps.push(SpiPinStep::Wait);
    proof {
        assert(steps@ =~= legacy_bit_steps(bit));
    }
    steps
}

/// The bit-banged bus of this API exchanges only as many words as the
/// shorter of the two buffers.
pub fn bitbang_transfer_len(read_len: usize, write_len: usize) -> (len: usize)
    ensures
        len == if read_len < write_len { read_len } else { write_len },
{
    if read_len < write_len {
        read_len
    } else {
        write_len
    }
}

// ── UART ─────────────────────────────────────────────────────────────────

/// Error returned by UART operations.
#[derive(Clone, Copy, Debug, PartialEq, Eq, Structural)]
pub enum UartError {
    BufferFull,
    Other,
}

/// Backend of a UART bus.
#[derive(Clone, Copy, Debug, PartialEq, Eq, Structural)]
pub enum UartBusVersion {
    Hardware,
    Pio,
    BitBang,
}

/// Owned handle to a UART bus of some backend.
pub struct UartBusHandle<B> {
    inner: B,
    version: UartBusVersion,
}

impl<B> UartBusHandle<B> {
    pub closed spec fn spec_version(&self) -> UartBusVersion {
        self.version
    }

    pub closed spec fn spec_inner(&self) -> B {
        self.inner
    }

    /// Wraps a backend and records which kind it is.
    pub fn new(inner: B, version: UartBusVersion) -> (handle: Self)
        ensures
            handle.spec_version() == version,
            handle.spec_inner() == inner,
    {
        UartBusHandle { inner, version }
    }

    /// The backend kind.
    pub fn version(&self) -> (version: UartBusVersion)
        ensures
            version == self.spec_version(),
    {
        self.version
    }

    /// The backend, for reading and writing.
    pub fn inner_mut(&mut self) -> (inner: &mut B)
        ensures
            final(self).spec_inner() == *final(inner),
            *inner == old(self).spec_inner(),
            final(self).spec_version() == old(self).spec_version(),
    {
        &mut self.inner
    }
}

/// One bit time of the bit-banged UART in microseconds.
pub fn bitbang_uart_bit_micros(baud_rate: u32) -> (micros: u64)
    requires
        baud_rate > 0,
    ensures
        micros == 1_000_000int / (baud_rate as int),
{
    1_000_000 / baud_rate as u64
}

} // verus!
