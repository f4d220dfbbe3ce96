//! The startup bus allocator: which hardware peripherals, DMA channels and
//! PIO state machines are still free, and which ones each kind of bus
//! takes. The peripherals themselves stay with the platform; this keeps
//! the books and makes the choices.

use vstd::prelude::*;

verus! {

/// Error returned when a resource is already in use.
#[derive(Clone, Copy, Debug, PartialEq, Eq, Structural)]
pub enum AllocatorError {
    /// The requested hardware peripheral, DMA channel or PIO state machine is
    /// already in use.
    Exhausted,
}

/// One of the three PIO blocks.
#[derive(Clone, Copy, Debug, PartialEq, Eq, Structural)]
pub enum PioBlock {
    Block0,
    Block1,
    Block2,
}

/// One of the four state machines of a PIO block.
#[derive(Clone, Copy, Debug, PartialEq, Eq, Structural)]
pub enum Sm {
    Sm0,
    Sm1,
    Sm2,
    Sm3,
}

pub open spec fn block_index(block: PioBlock) -> int {
    match block {
        PioBlock::Block0 => 0,
        PioBlock::Block1 => 1,
        PioBlock::Block2 => 2,
    }
}

pub open spec fn sm_index(sm: Sm) -> int {
    match sm {
        Sm::Sm0 => 0,
        Sm::Sm1 => 1,
        Sm::Sm2 => 2,
        Sm::Sm3 => 3,
    }
}

pub open spec fn block_at(i: int) -> PioBlock {
    if i == 0 {
        PioBlock::Block0
    } else if i == 1 {
        PioBlock::Block1
    } else {
        PioBlock::Block2
    }
}

pub open spec fn sm_at(i: int) -> Sm {
    if i == 0 {
        Sm::Sm0
    } else if i == 1 {
        Sm::Sm1
    } else if i == 2 {
        Sm::Sm2
    } else {
        Sm::Sm3
    }
}

/// Position of a state machine among all twelve, block by block.
pub open spec fn slot_index(block: PioBlock, sm: Sm) -> int {
    4 * block_index(block) + sm_index(sm)
}

impl PioBlock {
    /// The block's number.
    pub fn index(self) -> (index: usize)
        ensures
            index == block_index(self),
    {
        match self {
            PioBlock::Block0 => 0,
            PioBlock::Block1 => 1,
            PioBlock::Block2 => 2,
        }
    }

    /// The block with number `index`.
    pub fn from_index(index: usize) -> (block: PioBlock)
        requires
            index < 3,
        ensures
            block == block_at(index as int),
            block_index(block) == index,
    {
        if index == 0 {
            PioBlock::Block0
        } else if index == 1 {
            PioBlock::Block1
        } else {
            PioBlock::Block2
        }
    }
}

impl Sm {
    /// The state machine's number within its block.
    pub fn index(self) -> (index: usize)
        ensures
            index == sm_index(self),
    {
        match self {
            Sm::Sm0 => 0,
            Sm::Sm1 => 1,
            Sm::Sm2 => 2,
            Sm::Sm3 => 3,
        }
    }

    /// The state machine with number `index`.
    pub fn from_index(index: usize) -> (sm: Sm)
        requires
            index < 4,
        ensures
            sm == sm_at(index as int),
            sm_index(sm) == index,
    {
        if index == 0 {
            Sm::Sm0
        } else if index == 1 {
            Sm::Sm1
        } else if index == 2 {
            Sm::Sm2
        } else {
            Sm::Sm3
        }
    }
}

// ── PIO state machines ───────────────────────────────────────────────────

/// Which of the twelve PIO state machines are still free.
pub struct PioManager {
    free: Vec<bool>,
}

/// Whether state machine `x` of block `b` is free.
pub open spec fn sm_free(free: Seq<bool>, b: int, x: int) -> bool {
    free[4 * b + x]
}

/// Whether `free` leaves two different state machines of block `b` free.
pub open spec fn block_has_pair(free: Seq<bool>, b: int) -> bool {
    exists|x: int, y: int| 0 <= x < y < 4 && #[trigger] sm_free(free, b, x) && #[trigger] sm_free(free, b, y)
}

/// The first two free state machines of block `b`, in order: `x` is free
/// and no lower one is, `y` is the next free one after `x`.
pub open spec fn first_pair(free: Seq<bool>, b: int, x: int, y: int) -> bool {
    &&& 0 <= x < y < 4
    &&& sm_free(free, b, x)
    &&& sm_free(free, b, y)
    &&& forall|z: int| 0 <= z < y && z != x ==> !#[trigger] sm_free(free, b, z)
}

impl PioManager {
    pub closed spec fn free(&self) -> Seq<bool> {
        self.free@
    }

    pub open spec fn wf(&self) -> bool {
        self.free().len() == 12
    }

    pub open spec fn is_free(&self, block: PioBlock, sm: Sm) -> bool {
        self.free()[slot_index(block, sm)]
    }

    /// All twelve state machines free.
    pub fn new() -> (manager: Self)
        ensures
            manager.wf(),
            forall|i: int| 0 <= i < 12 ==> #[trigger] manager.free()[i],
    {
        let mut free: Vec<bool> = Vec::new();
        let mut i: usize = 0;
        while i < 12
            invariant
                i <= 12,
                free@.len() == i,
                forall|j: int| 0 <= j < i ==> #[trigger] free@[j],
            decreases 12 - i,
        {
            free.push(true);
            i = i + 1;
        }
        PioManager { free }
    }

    /// Whether `sm` of `block` is free.
    pub fn has_sm(&self, block: PioBlock, sm: Sm) -> (free: bool)
        requires
            self.wf(),
        ensures
            free == self.is_free(block, sm),
    {
        self.free[4 * block.index() + sm.index()]
    }

    /// The first free state machine, block by block, or `None` when all
    /// twelve are in use.
    pub fn find_free_sm(&self) -> (found: Option<(PioBlock, Sm)>)
        requires
            self.wf(),
        ensures
            found is None <==> forall|i: int| 0 <= i < 12 ==> !#[trigger] self.free()[i],
            found matches Some((block, sm)) ==> self.is_free(block, sm) && forall|i: int|
                0 <= i < slot_index(block, sm) ==> !#[trigger] self.free()[i],
    {
        let mut i: usize = 0;
        while i < 12
            invariant
                i <= 12,
                self.wf(),
                forall|j: int| 0 <= j < i ==> !#[trigger] self.free()[j],
            decreases 12 - i,
        {
            if self.free[i] {
                let block = PioBlock::from_index(i / 4);
                let sm = Sm::from_index(i % 4);
                return Some((block, sm));
            }
            i = i + 1;
        }
        None
    }

    /// The first two free state machines of `block`, or `None` when fewer
    /// than two are free there.
    pub fn two_free_sms(&self, block: PioBlock) -> (pair: Option<(Sm, Sm)>)
        requires
            self.wf(),
        ensures
            pair is None <==> !block_has_pair(self.free(), block_index(block)),
            pair matches Some((a, b)) ==> first_pair(self.free(), block_index(block), sm_index(a), sm_index(b)),
    {
        let base = 4 * block.index();
        let ghost bi = block_index(block);
        let mut first: Option<usize> = None;
        let mut i: usize = 0;
        while i < 4
            invariant
                i <= 4,
                self.wf(),
                base == 4 * bi,
                bi == block_index(block),
                0 <= bi < 3,
                match first {
                    None => forall|z: int| 0 <= z < i ==> !#[trigger] sm_free(self.free(), bi, z),
                    Some(x) => x < i && sm_free(self.free(), bi, x as int) && forall|z: int|
                        0 <= z < i && z != x ==> !#[trigger] sm_free(self.free(), bi, z),
                },
            decreases 4 - i,
        {
            let here = self.free[base + i];
            proof {
                assert(here == sm_free(self.free(), bi, i as int));
            }
            if here {
                match first {
                    None => {
                        first = Some(i);
                    },
                    Some(x) => {
                        let a = Sm::from_index(x);
                        let b = Sm::from_index(i);
                        proof {
                            assert(sm_free(self.free(), bi, x as int));
                            assert(block_has_pair(self.free(), bi));
                        }
                        return Some((a, b));
                    },
                }
            }
            i = i + 1;
        }
        proof {
            if block_has_pair(self.free(), bi) {
                let (x, y) = choose|x: int, y: int|
                    0 <= x < y < 4 && #[trigger] sm_free(self.free(), bi, x) && #[trigger] sm_free(self.free(), bi, y);
                assert(sm_free(self.free(), bi, x) && sm_free(self.free(), bi, y));
            }
        }
        None
    }

    /// The first block with two free state machines, and its first two free
    /// ones, or `None` when no block has two free.
    pub fn find_free_sm_pair(&self) -> (found: Option<(PioBlock, Sm, Sm)>)
        requires
            self.wf(),
        ensures
            found is None <==> forall|b: int| 0 <= b < 3 ==> !block_has_pair(self.free(), b),
            found matches Some((block, a, b)) ==> first_pair(self.free(), block_index(block), sm_index(a), sm_index(b))
                && forall|c: int| 0 <= c < block_index(block) ==> !block_has_pair(self.free(), c),
    {
        let mut i: usize = 0;
        while i < 3
            invariant
                i <= 3,
                self.wf(),
                forall|c: int| 0 <= c < i ==> !block_has_pair(self.free(), c),
            decreases 3 - i,
        {
            let block = PioBlock::from_index(i);
            match self.two_free_sms(block) {
                Some((a, b)) => {
                    return Some((block, a, b));
                },
                None => {},
            }
            i = i + 1;
        }
        None
    }

    /// Marks `sm` of `block` as in use; it must be free.
    pub fn take_sm(&mut self, block: PioBlock, sm: Sm)
        requires
            old(self).wf(),
            old(self).is_free(block, sm),
        ensures
            final(self).wf(),
            final(self).free() == old(self).free().update(slot_index(block, sm), false),
    {
        let index = 4 * block.index() + sm.index();
        self.free.set(index, false);
    }

    /// Takes `sm` of `block` for a PIO SPI bus if it is free; says whether
    /// it was.
    pub fn build_spi_at(&mut self, block: PioBlock, sm: Sm) -> (built: bool)
        requires
            old(self).wf(),
        ensures
            final(self).wf(),
            built == old(self).is_free(block, sm),
            built ==> final(self).free() == old(self).free().update(slot_index(block, sm), false),
            !built ==> final(self).free() == old(self).free(),
    {
        if !self.has_sm(block, sm) {
            return false;
        }
        self.take_sm(block, sm);
        true
    }

    /// Takes `tx` and `rx` of `block` for a PIO UART if they are two
    /// different free state machines; otherwise takes neither. Says
    /// whether it took them.
    pub fn build_uart_at(&mut self, block: PioBlock, tx: Sm, rx: Sm) -> (built: bool)
        requires
            old(self).wf(),
        ensures
            final(self).wf(),
            built == (tx != rx && old(self).is_free(block, tx) && old(self).is_free(block, rx)),
            built ==> final(self).free() == old(self).free().update(slot_index(block, tx), false).update(
                slot_index(block, rx),
                false,
            ),
            !built ==> final(self).free() == old(self).free(),
    {
        if tx == rx || !self.has_sm(block, tx) || !self.has_sm(block, rx) {
            return false;
        }
        self.take_sm(block, tx);
        self.take_sm(block, rx);
        true
    }

    /// Takes the first free state machine, for a PIO SPI bus.
    pub fn reserve_sm(&mut self) -> (found: Option<(PioBlock, Sm)>)
        requires
            old(self).wf(),
        ensures
            final(self).wf(),
            found is None <==> forall|i: int| 0 <= i < 12 ==> !#[trigger] old(self).free()[i],
            found is None ==> final(self).free() == old(self).free(),
            found matches Some((block, sm)) ==> old(self).is_free(block, sm) && (forall|i: int|
                0 <= i < slot_index(block, sm) ==> !#[trigger] old(self).free()[i]) && final(self).free()
                == old(self).free().update(slot_index(block, sm), false),
    {
        let found = self.find_free_sm();
        match found {
            Some((block, sm)) => {
                self.take_sm(block, sm);
            },
            None => {},
        }
        found
    }

    /// Takes the first two free state machines of the first block that has
    /// two, for a PIO UART (transmitter and receiver).
    pub fn build_uart_pio(&mut self) -> (found: Option<(PioBlock, Sm, Sm)>)
        requires
            old(self).wf(),
        ensures
            final(self).wf(),
            found is None <==> forall|b: int| 0 <= b < 3 ==> !block_has_pair(old(self).free(), b),
            found is None ==> final(self).free() == old(self).free(),
            found matches Some((block, a, b)) ==> first_pair(
                old(self).free(),
                block_index(block),
                sm_index(a),
                sm_index(b),
            ) && (forall|c: int| 0 <= c < block_index(block) ==> !block_has_pair(old(self).free(), c))
                && final(self).free() == old(self).free().update(slot_index(block, a), false).update(
                slot_index(block, b),
                false,
            ),
    {
        let found = self.find_free_sm_pair();
        match found {
            Some((block, a, b)) => {
                self.take_sm(block, a);
                self.take_sm(block, b);
            },
            None => {},
        }
        found
    }
}

/// State machines are handed out in order: when exactly the first `n`
/// are in use, `reserve_sm` (whose contract relates `before`, `after` and
/// `found`) takes number `n`, so that the first `n + 1` are in use; with
/// all twelve in use it finds none. From a fresh manager twelve
/// reservations succeed and the thirteenth fails.
pub proof fn lemma_reserve_in_order(before: PioManager, after: PioManager, found: Option<(PioBlock, Sm)>, n: int)
    requires
        before.wf(),
        0 <= n <= 12,
        forall|i: int| 0 <= i < 12 ==> (#[trigger] before.free()[i] <==> i >= n),
        found is None <==> forall|i: int| 0 <= i < 12 ==> !#[trigger] before.free()[i],
        found is None ==> after.free() == before.free(),
        found matches Some((block, sm)) ==> before.is_free(block, sm) && (forall|i: int|
            0 <= i < slot_index(block, sm) ==> !#[trigger] before.free()[i]) && after.free()
            == before.free().update(slot_index(block, sm), false),
    ensures
        n == 12 <==> found is None,
        found matches Some((block, sm)) ==> slot_index(block, sm) == n,
        n < 12 ==> forall|i: int| 0 <= i < 12 ==> (#[trigger] after.free()[i] <==> i >= n + 1),
{
    if n < 12 {
        assert(before.free()[n]);
        if let Some((block, sm)) = found {
            let k = slot_index(block, sm);
            assert(0 <= k < 12);
            if k > n {
                assert(!before.free()[n]);
            }
        }
    }
}

// ── peripherals and DMA channels ─────────────────────────────────────────

/// A hardware SPI instance.
#[derive(Clone, Copy, Debug, PartialEq, Eq, Structural)]
pub enum SpiInstance {
    Spi0,
    Spi1,
}

/// A hardware I2C instance.
#[derive(Clone, Copy, Debug, PartialEq, Eq, Structural)]
pub enum I2cInstance {
    I2c0,
    I2c1,
}

/// A hardware UART instance.
#[derive(Clone, Copy, Debug, PartialEq, Eq, Structural)]
pub enum UartInstance {
    Uart0,
    Uart1,
}

pub open spec fn spi_slot(instance: SpiInstance) -> int {
    match instance {
        SpiInstance::Spi0 => 0,
        SpiInstance::Spi1 => 1,
    }
}

pub open spec fn i2c_slot(instance: I2cInstance) -> int {
    match instance {
        I2cInstance::I2c0 => 2,
        I2cInstance::I2c1 => 3,
    }
}

pub open spec fn uart_slot(instance: UartInstance) -> int {
    match instance {
        UartInstance::Uart0 => 4,
        UartInstance::Uart1 => 5,
    }
}

/// Which backend a UART bus got.
#[derive(Clone, Copy, Debug, PartialEq, Eq, Structural)]
pub enum UartBackend {
    /// PIO, on this block's transmitter and receiver state machines.
    Pio(PioBlock, Sm, Sm),
    /// Bit-banged on GPIO.
    BitBang,
}

/// The number of DMA channels.
pub const DMA_CHANNELS: usize = 16;

/// Which of the sixteen DMA channels the board hands to the allocator;
/// the others are not the allocator's to give out.
pub struct DmaPool {
    pub channels: Vec<bool>,
}

impl DmaPool {
    /// No DMA channels, for boards that use no DMA-driven buses.
    pub fn none() -> (pool: DmaPool)
        ensures
            pool.channels@ == Seq::new(16, |i: int| false),
    {
        let mut channels: Vec<bool> = Vec::new();
        let mut i: usize = 0;
        while i < DMA_CHANNELS
            invariant
                i <= DMA_CHANNELS,
                channels@ == Seq::new(i as nat, |j: int| false),
            decreases DMA_CHANNELS - i,
        {
            channels.push(false);
            i = i + 1;
            proof {
                assert(channels@ =~= Seq::new(i as nat, |j: int| false));
            }
        }
        DmaPool { channels }
    }
}

/// The startup allocator's books: which of the six hardware peripherals
/// (SPI0, SPI1, I2C0, I2C1, UART0, UART1) and sixteen DMA channels the
/// board handed over and are still free, and the PIO state machines.
pub struct BusAllocator {
    peripherals: Vec<bool>,
    dma: Vec<bool>,
    pio_manager: PioManager,
}

impl BusAllocator {
    pub closed spec fn peripherals(&self) -> Seq<bool> {
        self.peripherals@
    }

    pub closed spec fn dma(&self) -> Seq<bool> {
        self.dma@
    }

    pub closed spec fn pio(&self) -> PioManager {
        self.pio_manager
    }

    pub open spec fn wf(&self) -> bool {
        &&& self.peripherals().len() == 6
        &&& self.dma().len() == 16
        &&& self.pio().wf()
    }

    /// An allocator owning the peripherals and DMA channels marked `true`
    /// and all PIO state machines.
    pub fn new(
        spi0: bool,
        spi1: bool,
        i2c0: bool,
        i2c1: bool,
        uart0: bool,
        uart1: bool,
        dma: DmaPool,
    ) -> (allocator: Self)
        requires
            dma.channels@.len() == 16,
        ensures
            allocator.wf(),
            allocator.peripherals() == seq![spi0, spi1, i2c0, i2c1, uart0, uart1],
            allocator.dma() == dma.channels@,
            forall|i: int| 0 <= i < 12 ==> #[trigger] allocator.pio().free()[i],
    {
        let peripherals = vec![spi0, spi1, i2c0, i2c1, uart0, uart1];
        proof {
            assert(peripherals@ =~= seq![spi0, spi1, i2c0, i2c1, uart0, uart1]);
        }
        BusAllocator { peripherals, dma: dma.channels, pio_manager: PioManager::new() }
    }

    fn take_peripheral(&mut self, slot: usize) -> (result: Result<(), AllocatorError>)
        requires
            old(self).wf(),
            slot < 6,
        ensures
            final(self).wf(),
            final(self).dma() == old(self).dma(),
            final(self).pio() == old(self).pio(),
            result is Ok <==> old(self).peripherals()[slot as int],
            result is Err ==> result == Err::<(), AllocatorError>(AllocatorError::Exhausted)
                && final(self).peripherals() == old(self).peripherals(),
            result is Ok ==> final(self).peripherals() == old(self).peripherals().update(slot as int, false),
    {
        if !self.peripherals[slot] {
            return Err(AllocatorError::Exhausted);
        }
        self.peripherals.set(slot, false);
        Ok(())
    }

    fn give_back_peripheral(&mut self, slot: usize)
        requires
            old(self).wf(),
            slot < 6,
        ensures
            final(self).wf(),
            final(self).dma() == old(self).dma(),
            final(self).pio() == old(self).pio(),
            final(self).peripherals() == old(self).peripherals().update(slot as int, true),
    {
        self.peripherals.set(slot, true);
    }

    fn spi_slot_of(instance: SpiInstance) -> (slot: usize)
        ensures
            slot == spi_slot(instance),
    {
        match instance {
            SpiInstance::Spi0 => 0,
            SpiInstance::Spi1 => 1,
        }
    }

    fn i2c_slot_of(instance: I2cInstance) -> (slot: usize)
        ensures
            slot == i2c_slot(instance),
    {
        match instance {
            I2cInstance::I2c0 => 2,
            I2cInstance::I2c1 => 3,
        }
    }

    fn uart_slot_of(instance: UartInstance) -> (slot: usize)
        ensures
            slot == uart_slot(instance),
    {
        match instance {
            UartInstance::Uart0 => 4,
            UartInstance::Uart1 => 5,
        }
    }

    /// Takes a hardware SPI peripheral; `Exhausted` if it is in use or was
    /// never handed over.
    pub fn request_spi_hardware(&mut self, instance: SpiInstance) -> (result: Result<(), AllocatorError>)
        requires
            old(self).wf(),
        ensures
            final(self).wf(),
            final(self).dma() == old(self).dma(),
            final(self).pio() == old(self).pio(),
            result is Ok <==> old(self).peripherals()[spi_slot(instance)],
            result is Err ==> result == Err::<(), AllocatorError>(AllocatorError::Exhausted)
                && final(self).peripherals() == old(self).peripherals(),
            result is Ok ==> final(self).peripherals() == old(self).peripherals().update(spi_slot(instance), false),
    {
        self.take_peripheral(Self::spi_slot_of(instance))
    }

    /// Returns a hardware SPI peripheral to the pool.
    pub fn release_spi_hardware(&mut self, instance: SpiInstance)
        requires
            old(self).wf(),
        ensures
            final(self).wf(),
            final(self).dma() == old(self).dma(),
            final(self).pio() == old(self).pio(),
            final(self).peripherals() == old(self).peripherals().update(spi_slot(instance), true),
    {
        self.give_back_peripheral(Self::spi_slot_of(instance))
    }

    /// Takes a hardware I2C peripheral; `Exhausted` if it is in use or was
    /// never handed over.
    pub fn request_i2c_hardware(&mut self, instance: I2cInstance) -> (result: Result<(), AllocatorError>)
        requires
            old(self).wf(),
        ensures
            final(self).wf(),
            final(self).dma() == old(self).dma(),
            final(self).pio() == old(self).pio(),
            result is Ok <==> old(self).peripherals()[i2c_slot(instance)],
            result is Err ==> result == Err::<(), AllocatorError>(AllocatorError::Exhausted)
                && final(self).peripherals() == old(self).peripherals(),
            result is Ok ==> final(self).peripherals() == old(self).peripherals().update(i2c_slot(instance), false),
    {
        self.take_peripheral(Self::i2c_slot_of(instance))
    }

    /// Returns a hardware I2C peripheral to the pool.
    pub fn release_i2c_hardware(&mut self, instance: I2cInstance)
        requires
            old(self).wf(),
        ensures
            final(self).wf(),
            final(self).dma() == old(self).dma(),
            final(self).pio() == old(self).pio(),
            final(self).peripherals() == old(self).peripherals().update(i2c_slot(instance), true),
    {
        self.give_back_peripheral(Self::i2c_slot_of(instance))
    }

    /// Takes a hardware UART peripheral; `Exhausted` if it is in use or was
    /// never handed over.
    pub fn request_uart_hardware(&mut self, instance: UartInstance) -> (result: Result<(), AllocatorError>)
        requires
            old(self).wf(),
        ensures
            final(self).wf(),
            final(self).dma() == old(self).dma(),
            final(self).pio() == old(self).pio(),
            result is Ok <==> old(self).peripherals()[uart_slot(instance)],
            result is Err ==> result == Err::<(), AllocatorError>(AllocatorError::Exhausted)
                && final(self).peripherals() == old(self).peripherals(),
            result is Ok ==> final(self).peripherals() == old(self).peripherals().update(uart_slot(instance), false),
    {
        self.take_peripheral(Self::uart_slot_of(instance))
    }

    /// Returns a hardware UART peripheral to the pool.
    pub fn release_uart_hardware(&mut self, instance: UartInstance)
        requires
            old(self).wf(),
        ensures
            final(self).wf(),
            final(self).dma() == old(self).dma(),
            final(self).pio() == old(self).pio(),
            final(self).peripherals() == old(self).peripherals().update(uart_slot(instance), true),
    {
        self.give_back_peripheral(Self::uart_slot_of(instance))
    }

    /// Takes DMA channel `channel`; `Exhausted` if it is in use or was never
    /// handed over.
    pub fn request_dma(&mut self, channel: usize) -> (result: Result<(), AllocatorError>)
        requires
            old(self).wf(),
            channel < DMA_CHANNELS,
        ensures
            final(self).wf(),
            final(self).peripherals() == old(self).peripherals(),
            final(self).pio() == old(self).pio(),
            result is Ok <==> old(self).dma()[channel as int],
            result is Err ==> result == Err::<(), AllocatorError>(AllocatorError::Exhausted)
                && final(self).dma() == old(self).dma(),
            result is Ok ==> final(self).dma() == old(self).dma().update(channel as int, false),
    {
        if !self.dma[channel] {
            return Err(AllocatorError::Exhausted);
        }
        self.dma.set(channel, false);
        Ok(())
    }

    /// Returns DMA channel `channel` to the pool.
    pub fn release_dma(&mut self, channel: usize)
        requires
            old(self).wf(),
            channel < DMA_CHANNELS,
        ensures
            final(self).wf(),
            final(self).peripherals() == old(self).peripherals(),
            final(self).pio() == old(self).pio(),
            final(self).dma() == old(self).dma().update(channel as int, true),
    {
        self.dma.set(channel, true);
    }

    /// Takes what a DMA-driven hardware SPI or UART bus needs: the
    /// peripheral in slot `slot`, then the transmit and then the receive DMA
    /// channel, stopping at the first one in use; what was taken before
    /// stays taken.
    fn take_with_dma(&mut self, slot: usize, tx_dma: usize, rx_dma: usize) -> (result: Result<(), AllocatorError>)
        requires
            old(self).wf(),
            slot < 6,
            tx_dma < DMA_CHANNELS,
            rx_dma < DMA_CHANNELS,
        ensures
            final(self).wf(),
            final(self).pio() == old(self).pio(),
            result == taken_with_dma(old(self).peripherals(), old(self).dma(), slot as int, tx_dma as int, rx_dma as int).2,
            final(self).peripherals() == taken_with_dma(old(self).peripherals(), old(self).dma(), slot as int, tx_dma as int, rx_dma as int).0,
            final(self).dma() == taken_with_dma(old(self).peripherals(), old(self).dma(), slot as int, tx_dma as int, rx_dma as int).1,
    {
        self.take_peripheral(slot)?;
        self.request_dma(tx_dma)?;
        self.request_dma(rx_dma)?;
        Ok(())
    }

    /// Builds the books for a DMA-driven hardware SPI bus on `instance` with
    /// DMA channels `tx_dma` and `rx_dma`.
    pub fn create_spi_hardware(&mut self, instance: SpiInstance, tx_dma: usize, rx_dma: usize) -> (result:
        Result<(), AllocatorError>)
        requires
            old(self).wf(),
            tx_dma < DMA_CHANNELS,
            rx_dma < DMA_CHANNELS,
        ensures
            final(self).wf(),
            final(self).pio() == old(self).pio(),
            ({
                let t = taken_with_dma(old(self).peripherals(), old(self).dma(), spi_slot(instance), tx_dma as int, rx_dma as int);
                &&& result == t.2
                &&& final(self).peripherals() == t.0
                &&& final(self).dma() == t.1
            }),
            result is Ok ==> !final(self).peripherals()[spi_slot(instance)] && !final(self).dma()[tx_dma as int]
                && !final(self).dma()[rx_dma as int],
    {
        proof {
            lemma_hardware_bus_takes_its_channels(self.peripherals(), self.dma(), spi_slot(instance), tx_dma as int, rx_dma as int);
        }
        self.take_with_dma(Self::spi_slot_of(instance), tx_dma, rx_dma)
    }

    /// Builds the books for a DMA-driven hardware UART bus on `instance` with
    /// DMA channels `tx_dma` and `rx_dma`.
    pub fn create_uart_hardware(&mut self, instance: UartInstance, tx_dma: usize, rx_dma: usize) -> (result:
        Result<(), AllocatorError>)
        requires
            old(self).wf(),
            tx_dma < DMA_CHANNELS,
            rx_dma < DMA_CHANNELS,
        ensures
            final(self).wf(),
            final(self).pio() == old(self).pio(),
            ({
                let t = taken_with_dma(old(self).peripherals(), old(self).dma(), uart_slot(instance), tx_dma as int, rx_dma as int);
                &&& result == t.2
                &&& final(self).peripherals() == t.0
                &&& final(self).dma() == t.1
            }),
            result is Ok ==> !final(self).peripherals()[uart_slot(instance)] && !final(self).dma()[tx_dma as int]
                && !final(self).dma()[rx_dma as int],
    {
        proof {
            lemma_hardware_bus_takes_its_channels(self.peripherals(), self.dma(), uart_slot(instance), tx_dma as int, rx_dma as int);
        }
        self.take_with_dma(Self::uart_slot_of(instance), tx_dma, rx_dma)
    }

    /// Builds the books for a hardware I2C bus on `instance` (interrupt
    /// driven, no DMA).
    pub fn create_i2c_hardware(&mut self, instance: I2cInstance) -> (result: Result<(), AllocatorError>)
        requires
            old(self).wf(),
        ensures
            final(self).wf(),
            final(self).dma() == old(self).dma(),
            final(self).pio() == old(self).pio(),
            result is Ok <==> old(self).peripherals()[i2c_slot(instance)],
            result is Err ==> result == Err::<(), AllocatorError>(AllocatorError::Exhausted)
                && final(self).peripherals() == old(self).peripherals(),
            result is Ok ==> final(self).peripherals() == old(self).peripherals().update(i2c_slot(instance), false),
    {
        self.request_i2c_hardware(instance)
    }

    /// Builds the books for a PIO SPI bus: the transmit and receive DMA
    /// channels, then the first free state machine.
    pub fn create_spi_pio(&mut self, tx_dma: usize, rx_dma: usize) -> (result: Result<(PioBlock, Sm), AllocatorError>)
        requires
            old(self).wf(),
            tx_dma < DMA_CHANNELS,
            rx_dma < DMA_CHANNELS,
        ensures
            final(self).wf(),
            final(self).peripherals() == old(self).peripherals(),
            !old(self).dma()[tx_dma as int] ==> result == Err::<(PioBlock, Sm), AllocatorError>(AllocatorError::Exhausted)
                && final(self).dma() == old(self).dma() && final(self).pio().free() == old(self).pio().free(),
            old(self).dma()[tx_dma as int] && !old(self).dma().update(tx_dma as int, false)[rx_dma as int] ==> result
                == Err::<(PioBlock, Sm), AllocatorError>(AllocatorError::Exhausted) && final(self).dma() == old(self).dma().update(
                tx_dma as int,
                false,
            ) && final(self).pio().free() == old(self).pio().free(),
            old(self).dma()[tx_dma as int] && old(self).dma().update(tx_dma as int, false)[rx_dma as int] ==> {
                &&& final(self).dma() == old(self).dma().update(tx_dma as int, false).update(rx_dma as int, false)
                &&& (result is Err <==> forall|i: int| 0 <= i < 12 ==> !#[trigger] old(self).pio().free()[i])
                &&& result is Err ==> result == Err::<(PioBlock, Sm), AllocatorError>(AllocatorError::Exhausted)
                    && final(self).pio().free() == old(self).pio().free()
                &&& result matches Ok((block, sm)) ==> old(self).pio().is_free(block, sm) && (forall|i: int|
                    0 <= i < slot_index(block, sm) ==> !#[trigger] old(self).pio().free()[i])
                    && final(self).pio().free() == old(self).pio().free().update(slot_index(block, sm), false)
            },
    {
        self.request_dma(tx_dma)?;
        self.request_dma(rx_dma)?;
        match self.pio_manager.reserve_sm() {
            Some(found) => Ok(found),
            None => Err(AllocatorError::Exhausted),
        }
    }

    /// Builds the books for a PIO UART bus on two state machines of one
    /// block.
    pub fn create_uart_pio(&mut self) -> (result: Result<(PioBlock, Sm, Sm), AllocatorError>)
        requires
            old(self).wf(),
        ensures
            final(self).wf(),
            final(self).peripherals() == old(self).peripherals(),
            final(self).dma() == old(self).dma(),
            result is Err <==> forall|b: int| 0 <= b < 3 ==> !block_has_pair(old(self).pio().free(), b),
            result is Err ==> result == Err::<(PioBlock, Sm, Sm), AllocatorError>(AllocatorError::Exhausted)
                && final(self).pio().free() == old(self).pio().free(),
            result matches Ok((block, a, b)) ==> first_pair(
                old(self).pio().free(),
                block_index(block),
                sm_index(a),
                sm_index(b),
            ) && (forall|c: int| 0 <= c < block_index(block) ==> !block_has_pair(old(self).pio().free(), c))
                && final(self).pio().free() == old(self).pio().free().update(slot_index(block, a), false).update(
                slot_index(block, b),
                false,
            ),
    {
        match self.pio_manager.build_uart_pio() {
            Some(found) => Ok(found),
            None => Err(AllocatorError::Exhausted),
        }
    }

    /// Picks a UART backend: PIO when some block has two free state
    /// machines, else bit-banged, which needs nothing from the allocator.
    pub fn create_uart(&mut self) -> (backend: UartBackend)
        requires
            old(self).wf(),
        ensures
            final(self).wf(),
            final(self).peripherals() == old(self).peripherals(),
            final(self).dma() == old(self).dma(),
            backend is BitBang <==> forall|b: int| 0 <= b < 3 ==> !block_has_pair(old(self).pio().free(), b),
            backend is BitBang ==> final(self).pio().free() == old(self).pio().free(),
            backend matches UartBackend::Pio(block, a, b) ==> first_pair(
                old(self).pio().free(),
                block_index(block),
                sm_index(a),
                sm_index(b),
            ) && (forall|c: int| 0 <= c < block_index(block) ==> !block_has_pair(old(self).pio().free(), c))
                && final(self).pio().free() == old(self).pio().free().update(slot_index(block, a), false).update(
                slot_index(block, b),
                false,
            ),
    {
        match self.pio_manager.build_uart_pio() {
            Some((block, a, b)) => UartBackend::Pio(block, a, b),
            None => UartBackend::BitBang,
        }
    }
}

/// The books after taking peripheral slot `slot`, then DMA channel `tx`,
/// then DMA channel `rx`, stopping at the first that is not free:
/// peripherals, DMA channels and the result.
pub open spec fn taken_with_dma(peripherals: Seq<bool>, dma: Seq<bool>, slot: int, tx: int, rx: int) -> (
    Seq<bool>,
    Seq<bool>,
    Result<(), AllocatorError>,
) {
    if !peripherals[slot] {
        (peripherals, dma, Err(AllocatorError::Exhausted))
    } else {
        let p = peripherals.update(slot, false);
        if !dma[tx] {
            (p, dma, Err(AllocatorError::Exhausted))
        } else {
            let d = dma.update(tx, false);
            if !d[rx] {
                (p, d, Err(AllocatorError::Exhausted))
            } else {
                (p, d.update(rx, false), Ok(()))
            }
        }
    }
}

/// A DMA-driven hardware bus takes its peripheral and both of its DMA
/// channels, or fails: it succeeds exactly when the peripheral and both
/// channels are free and the two channels differ, and then the peripheral
/// and both channels are in use afterwards, so none can be handed out
/// again until released, while every other peripheral and channel stays as
/// it was. A failure is always `Exhausted`.
pub proof fn lemma_hardware_bus_takes_its_channels(
    peripherals: Seq<bool>,
    dma: Seq<bool>,
    slot: int,
    tx: int,
    rx: int,
)
    requires
        0 <= slot < peripherals.len(),
        0 <= tx < dma.len(),
        0 <= rx < dma.len(),
    ensures
        ({
            let (p, d, result) = taken_with_dma(peripherals, dma, slot, tx, rx);
            &&& p.len() == peripherals.len()
            &&& d.len() == dma.len()
            &&& result is Ok <==> peripherals[slot] && dma[tx] && dma[rx] && tx != rx
            &&& result is Err ==> result == Err::<(), AllocatorError>(AllocatorError::Exhausted)
            &&& result is Ok ==> !p[slot] && !d[tx] && !d[rx]
            &&& result is Ok ==> forall|i: int| 0 <= i < dma.len() && i != tx && i != rx ==> #[trigger] d[i] == dma[i]
            &&& result is Ok ==> forall|i: int| 0 <= i < peripherals.len() && i != slot ==> #[trigger] p[i] == peripherals[i]
        }),
{
}

/// A DMA channel already handed out is refused until it is released, and
/// granted again afterwards. `first`, `second` and `third` are the
/// allocator after `request_dma`, `release_dma` and `request_dma` of the
/// same channel, related to `start` as those functions ensure, and
/// `refused` is what a request right after the first one returns.
pub proof fn lemma_exclusive_until_released(
    start: BusAllocator,
    first: BusAllocator,
    released: BusAllocator,
    channel: int,
    granted: Result<(), AllocatorError>,
    refused: Result<(), AllocatorError>,
    regranted: Result<(), AllocatorError>,
)
    requires
        start.wf(),
        0 <= channel < 16,
        start.dma()[channel],
        granted is Ok <==> start.dma()[channel],
        granted is Ok ==> first.dma() == start.dma().update(channel, false),
        refused is Ok <==> first.dma()[channel],
        released.dma() == first.dma().update(channel, true),
        regranted is Ok <==> released.dma()[channel],
    ensures
        granted is Ok,
        refused is Err,
        regranted is Ok,
        released.dma() == start.dma(),
{
    assert(start.dma().update(channel, false).update(channel, true) =~= start.dma());
}

} // verus!
