//! SPI: errors, the configuration checks of the three backends, the words
//! a full-duplex transfer shifts out, and the type-erased bus handle.

use vstd::prelude::*;

verus! {

/// Error returned by SPI operations.
#[derive(Clone, Copy, Debug, PartialEq, Eq, Structural)]
pub enum SpiError {
    Overrun,
    ModeFault,
    Crc,
    /// The requested clock cannot be produced by the backend.
    InvalidFrequency,
    /// Any other error reported by the underlying backend.
    Other,
}

/// Backend of an SPI bus.
#[derive(Clone, Copy, Debug, PartialEq, Eq, Structural)]
pub enum SpiBusVersion {
    Hardware,
    Pio,
    BitBang,
}

/// The bit-banged bus waits at least one timer tick per half clock: it
/// accepts clocks from 1 Hz up to half the timer rate.
pub fn validate_bitbang_config(frequency: u32, tick_hz: u64) -> (result: Result<(), SpiError>)
    ensures
        result is Ok <==> 0 < frequency && frequency <= tick_hz / 2,
        result is Err ==> result == Err::<(), SpiError>(SpiError::InvalidFrequency),
{
    if frequency == 0 || frequency as u64 > tick_hz / 2 {
        return Err(SpiError::InvalidFrequency);
    }
    Ok(())
}

/// Half a clock period of the bit-banged bus in nanoseconds, rounded up.
pub fn half_bit_nanos(frequency: u32) -> (nanos: u64)
    requires
        frequency > 0,
    ensures
        nanos == (1_000_000_000 + 2 * (frequency as int) - 1) / (2 * (frequency as int)),
{
    let divisor = 2 * frequency as u64;
    (1_000_000_000u64 + divisor - 1) / divisor
}

/// The hardware SPI divides the peripheral clock `clock` by an even
/// prescaler and a post-divider, at most `2 * 127 * 256` in all: it accepts
/// clocks up to `clock / 2` whose ratio `clock / (2 * frequency)`, rounded
/// up, is at most `127 * 256`.
pub fn validate_hardware_config(frequency: u32, clock: u32) -> (result: Result<(), SpiError>)
    ensures
        result is Ok <==> 0 < frequency && frequency <= (clock as int) / 2 && ((clock as int) + 2
            * frequency - 1) / (2 * (frequency as int)) <= 127 * 256,
        result is Err ==> result == Err::<(), SpiError>(SpiError::InvalidFrequency),
{
    let clock = clock as u64;
    let frequency = frequency as u64;
    if frequency == 0 || frequency > clock / 2 {
        return Err(SpiError::InvalidFrequency);
    }
    let ratio = (clock + 2 * frequency - 1) / (2 * frequency);
    if ratio > 127 * 256 {
        return Err(SpiError::InvalidFrequency);
    }
    Ok(())
}

/// The PIO SPI program takes four system-clock cycles per bit and a 16-bit
/// clock divider: it accepts clocks whose fourfold rate is at most the
/// system clock `clock` and at least `clock / 65536`.
pub fn validate_pio_config(frequency: u32, clock: u32) -> (result: Result<(), SpiError>)
    ensures
        result is Ok <==> {
            let target = 4 * (frequency as int);
            0 < target && target <= clock && target <= u32::MAX && (clock as int) <= target * 65_536
        },
        result is Err ==> result == Err::<(), SpiError>(SpiError::InvalidFrequency),
{
    let clock = clock as u64;
    let target = (frequency as u64) * 4;
    if target == 0 || target > clock || target > u32::MAX as u64 {
        return Err(SpiError::InvalidFrequency);
    }
    if clock > target * 65_536 {
        return Err(SpiError::InvalidFrequency);
    }
    Ok(())
}

/// The word shifted out for position `i` of a transfer: the write buffer's
/// byte while it lasts, then 0xFF.
pub open spec fn transfer_word(write: Seq<u8>, i: int) -> u8 {
    if i < write.len() {
        write[i]
    } else {
        0xff
    }
}

/// The words a full-duplex transfer shifts out: as many as the longer of
/// the two buffers, the write buffer padded with 0xFF. The byte received
/// for position `i` goes to the read buffer if it is that long.
pub fn transfer_words(read_len: usize, write: &[u8]) -> (words: Vec<u8>)
    ensures
        words@.len() == if read_len > write@.len() { read_len as int } else { write@.len() as int },
        forall|i: int| 0 <= i < words@.len() ==> #[trigger] words@[i] == transfer_word(write@, i),
{
    let len = if read_len > write.len() {
        read_len
    } else {
        write.len()
    };
    let mut words: Vec<u8> = Vec::new();
    let mut i: usize = 0;
    while i < len
        invariant
            i <= len,
            len == if read_len > write@.len() { read_len as int } else { write@.len() as int },
            words@.len() == i,
            forall|j: int| 0 <= j < i ==> #[trigger] words@[j] == transfer_word(write@, j),
        decreases len - i,
    {
        let word = if i < write.len() {
            write[i]
        } else {
            0xff
        };
        words.push(word);
        i = i + 1;
    }
    words
}

/// One step of clocking a bit on the bit-banged bus.
#[derive(Clone, Copy, Debug, PartialEq, Eq, Structural)]
pub enum SpiPinStep {
    /// Drive the data-out line to this level.
    SetMosi(bool),
    /// Drive the clock to its active level.
    ClockActive,
    /// Drive the clock back to its idle level.
    ClockIdle,
    /// Read the data-in line; it becomes the received bit.
    SampleMiso,
    /// Wait half a bit time.
    Wait,
}

/// The pin steps that exchange one bit: in the first-transition phase the
/// data is set up before the clock leaves idle and sampled on that edge;
/// in the second-transition phase data changes on the first edge and is
/// sampled on the return to idle.
pub open spec fn bit_steps(capture_on_first_transition: bool, bit: bool) -> Seq<SpiPinStep> {
    if capture_on_first_transition {
        seq![
            SpiPinStep::SetMosi(bit),
            SpiPinStep::Wait,
            SpiPinStep::ClockActive,
            SpiPinStep::SampleMiso,
            SpiPinStep::Wait,
            SpiPinStep::ClockIdle,
        ]
    } else {
        seq![
            SpiPinStep::ClockActive,
            SpiPinStep::SetMosi(bit),
            SpiPinStep::Wait,
            SpiPinStep::ClockIdle,
            SpiPinStep::SampleMiso,
            SpiPinStep::Wait,
        ]
    }
}

/// When a bit is exchanged: the clock makes one active and one idle edge,
/// the data line is driven once, to the bit being sent, and the data-in
/// line is sampled once. With capture on the first transition (modes 0 and
/// 2) the bit is driven before the clock leaves idle and sampled while the
/// clock is active, before it returns to idle; with capture on the second
/// transition (modes 1 and 3) the bit is driven after the clock goes active
/// and sampled after it returns to idle.
pub proof fn lemma_bit_sampled_on_capture_edge(capture_on_first_transition: bool, bit: bool)
    ensures
        ({
            let s = bit_steps(capture_on_first_transition, bit);
            &&& s.len() == 6
            &&& s.contains(SpiPinStep::SetMosi(bit))
            &&& s.contains(SpiPinStep::ClockActive)
            &&& s.contains(SpiPinStep::ClockIdle)
            &&& s.contains(SpiPinStep::SampleMiso)
            &&& forall|j: int| 0 <= j < 6 && (#[trigger] s[j]) is SetMosi ==> s[j] == SpiPinStep::SetMosi(bit)
            &&& forall|j: int, k: int|
                0 <= j < 6 && 0 <= k < 6 && j != k && #[trigger] s[j] == #[trigger] s[k] ==> s[j] == SpiPinStep::Wait
            &&& forall|m: int, a: int, p: int, i: int|
                0 <= m < 6 && 0 <= a < 6 && 0 <= p < 6 && 0 <= i < 6 && #[trigger] s[m] == SpiPinStep::SetMosi(bit)
                    && #[trigger] s[a] == SpiPinStep::ClockActive && #[trigger] s[p] == SpiPinStep::SampleMiso
                    && #[trigger] s[i] == SpiPinStep::ClockIdle ==> if capture_on_first_transition {
                    m < a < p < i
                } else {
                    a < m < i < p
                }
        }),
{
    let s = bit_steps(capture_on_first_transition, bit);
    if capture_on_first_transition {
        assert(s[0] == SpiPinStep::SetMosi(bit) && s[1] == SpiPinStep::Wait && s[2] == SpiPinStep::ClockActive
            && s[3] == SpiPinStep::SampleMiso && s[4] == SpiPinStep::Wait && s[5] == SpiPinStep::ClockIdle);
    } else {
        assert(s[0] == SpiPinStep::ClockActive && s[1] == SpiPinStep::SetMosi(bit) && s[2] == SpiPinStep::Wait
            && s[3] == SpiPinStep::ClockIdle && s[4] == SpiPinStep::SampleMiso && s[5] == SpiPinStep::Wait);
    }
}

/// The pin steps for one bit of a transfer.
pub fn spi_bit_steps(capture_on_first_transition: bool, bit: bool) -> (steps: Vec<SpiPinStep>)
    ensures
        steps@ == bit_steps(capture_on_first_transition, bit),
{
    let mut steps: Vec<SpiPinStep> = Vec::new();
    if capture_on_first_transition {
        steps.push(SpiPinStep::SetMosi(bit));
        steps.push(SpiPinStep::Wait);
        steps.push(SpiPinStep::ClockActive);
        steps.push(SpiPinStep::SampleMiso);
        steps.push(SpiPinStep::Wait);
        steps.push(SpiPinStep::ClockIdle);
    } else {
        steps.push(SpiPinStep::ClockActive);
        steps.push(SpiPinStep::SetMosi(bit));
        steps.push(SpiPinStep::Wait);
        steps.push(SpiPinStep::ClockIdle);
        steps.push(SpiPinStep::SampleMiso);
        steps.push(SpiPinStep::Wait);
    }
    proof {
        assert(steps@ =~= bit_steps(capture_on_first_transition, bit));
    }
    steps
}

/// Blocking access to an SPI bus, implemented by each backend. What an
/// operation does depends on the hardware, so each backend names, for each
/// operation, which outcomes it can have: the backend's state after it,
/// what lands in the caller's buffer, and the result. A backend that names
/// nothing allows every outcome; the handles, generic over the backend,
/// know only the backend's own relations.
pub trait DynSpiBusBlocking: Sized {
    /// Whether flushing `self` can leave `after` and return `result`.
    open spec fn flushed(&self, after: Self, result: Result<(), SpiError>) -> bool {
        true
    }

    /// Whether writing `data` from `self` can leave `after` and return
    /// `result`.
    open spec fn wrote(&self, data: Seq<u8>, after: Self, result: Result<(), SpiError>) -> bool {
        true
    }

    /// Whether reading into a buffer holding `buffer` from `self` can leave
    /// `after`, the buffer holding `received`, and return `result`.
    open spec fn read_into(&self, buffer: Seq<u8>, after: Self, received: Seq<u8>, result: Result<(), SpiError>) -> bool {
        true
    }

    /// Whether transferring `write` out while reading into a buffer holding
    /// `read` can leave `after`, the buffer holding `received`, and return
    /// `result`.
    open spec fn transferred(
        &self,
        read: Seq<u8>,
        write: Seq<u8>,
        after: Self,
        received: Seq<u8>,
        result: Result<(), SpiError>,
    ) -> bool {
        true
    }

    /// Whether exchanging `words` in place can leave `after`, the words
    /// replaced by `received`, and return `result`.
    open spec fn transferred_in_place(
        &self,
        words: Seq<u8>,
        after: Self,
        received: Seq<u8>,
        result: Result<(), SpiError>,
    ) -> bool {
        true
    }

    fn flush_blocking(&mut self) -> (result: Result<(), SpiError>)
        ensures
            old(self).flushed(*final(self), result),
    ;

    fn write_blocking(&mut self, data: &[u8]) -> (result: Result<(), SpiError>)
        ensures
            old(self).wrote(data@, *final(self), result),
    ;

    fn read_blocking(&mut self, data: &mut [u8]) -> (result: Result<(), SpiError>)
        ensures
            old(self).read_into(old(data)@, *final(self), final(data)@, result),
    ;

    fn transfer_blocking(&mut self, read: &mut [u8], write: &[u8]) -> (result: Result<(), SpiError>)
        ensures
            old(self).transferred(old(read)@, write@, *final(self), final(read)@, result),
    ;

    fn transfer_in_place_blocking(&mut self, words: &mut [u8]) -> (result: Result<(), SpiError>)
        ensures
            old(self).transferred_in_place(old(words)@, *final(self), final(words)@, result),
    ;
}

/// A backend that offers blocking access; the asynchronous half lives
/// with the executor.
pub trait DynSpiBusCombined: DynSpiBusBlocking {
}

/// Owned handle to an SPI bus of some backend.
pub struct SpiBusHandle<B: DynSpiBusCombined> {
    inner: B,
    version: SpiBusVersion,
}

impl<B: DynSpiBusCombined> SpiBusHandle<B> {
    pub closed spec fn spec_version(&self) -> SpiBusVersion {
        self.version
    }

    pub closed spec fn spec_inner(&self) -> B {
        self.inner
    }

    /// Wraps a backend and records which kind it is.
    pub fn new(inner: B, version: SpiBusVersion) -> (handle: Self)
        ensures
            handle.spec_version() == version,
            handle.spec_inner() == inner,
    {
        SpiBusHandle { inner, version }
    }

    /// The backend kind.
    pub fn version(&self) -> (version: SpiBusVersion)
        ensures
            version == self.spec_version(),
    {
        self.version
    }

    /// Waits until the backend has shifted out everything queued.
    pub fn flush_blocking(&mut self) -> (result: Result<(), SpiError>)
        ensures
            final(self).spec_version() == old(self).spec_version(),
            old(self).spec_inner().flushed(final(self).spec_inner(), result),
    {
        self.inner.flush_blocking()
    }

    /// Shifts out `data`, discarding what comes in.
    pub fn write_blocking(&mut self, data: &[u8]) -> (result: Result<(), SpiError>)
        ensures
            final(self).spec_version() == old(self).spec_version(),
            old(self).spec_inner().wrote(data@, final(self).spec_inner(), result),
    {
        self.inner.write_blocking(data)
    }

    /// Fills `data` with received bytes.
    pub fn read_blocking(&mut self, data: &mut [u8]) -> (result: Result<(), SpiError>)
        ensures
            final(self).spec_version() == old(self).spec_version(),
            old(self).spec_inner().read_into(old(data)@, final(self).spec_inner(), final(data)@, result),
    {
        self.inner.read_blocking(data)
    }

    /// Full-duplex transfer of `write` out and `read` in.
    pub fn transfer_blocking(&mut self, read: &mut [u8], write: &[u8]) -> (result: Result<(), SpiError>)
        ensures
            final(self).spec_version() == old(self).spec_version(),
            old(self).spec_inner().transferred(old(read)@, write@, final(self).spec_inner(), final(read)@, result),
    {
        self.inner.transfer_blocking(read, write)
    }

    /// Shifts `words` out and replaces each with the byte received for it.
    pub fn transfer_in_place_blocking(&mut self, words: &mut [u8]) -> (result: Result<(), SpiError>)
        ensures
            final(self).spec_version() == old(self).spec_version(),
            old(self).spec_inner().transferred_in_place(old(words)@, final(self).spec_inner(), final(words)@, result),
    {
        self.inner.transfer_in_place_blocking(words)
    }

    /// The backend, for the asynchronous operations.
    pub fn inner_mut(&mut self) -> (inner: &mut B)
        ensures
            final(self).spec_inner() == *final(inner),
            *inner == old(self).spec_inner(),
            final(self).spec_version() == old(self).spec_version(),
    {
        &mut self.inner
    }
}

} // verus!
