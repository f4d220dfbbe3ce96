use xpanse::bus::spi::SpiPinStep;
use xpanse::driver_api::bus::legacy_spi_bit_steps;
use xpanse::buttons::{ButtonRole, Down, Left, Right, Up, A, B, X, Y};
use xpanse::bus::i2c::{BusStep, ControllerError, I2cOperation};
use xpanse::driver_api::allocator::{
    AllocatorError, BusAllocator, DmaPool, I2cInstance, PioBlock, PioManager, Sm, SpiInstance, UartBackend, UartInstance,
};
use xpanse::driver_api::app::{App, ButtonLoggerApp};
use xpanse::driver_api::bus::{
    bitbang_i2c_half_period_micros, bitbang_spi_delay_micros, bitbang_transfer_len, bitbang_uart_bit_micros,
    legacy_read_plan, legacy_transaction_plan, legacy_write_plan, legacy_write_read_plan, DynSpiBusBlocking,
    DynSpiBusCombined, I2cBusHandle, I2cBusVersion, I2cError, SpiBusHandle, SpiBusVersion, SpiError, UartBusHandle,
    UartBusVersion,
};
use xpanse::driver_api::registry::{RegisteredResource, Registry};
use xpanse::drivers::{
    spi_adc_channel, DriverError, DriverMeta, FourButtonDriver, FourButtons, SpiAdcDriver, SpiAdcError, SpiAdcSetup,
    SpiAdcSetupStep, TestDriver, TwoButtonDriver,
};
use xpanse::metadata::{ModuleDetectResistor, ModuleID, ModuleSlot};
use xpanse::registry::Registry as LeaseRegistry;

fn id() -> ModuleID {
    ModuleID { md0: ModuleDetectResistor::R1K, md1: ModuleDetectResistor::R1K1 }
}

#[test]
fn legacy_registry_is_last_in_first_out() {
    let mut registry: Registry<&str> = Registry::new();
    assert!(!registry.has(A::kind()));
    assert!(registry.take_resource(A::kind()).is_none());
    assert!(registry.capabilities(A::kind()).is_none());
    registry.register(A::kind(), ModuleSlot::FrontLeft, id(), "first");
    registry.register(A::kind(), ModuleSlot::BackLeft, id(), "second");
    registry.register(B::kind(), ModuleSlot::BackLeft, id(), "b");
    assert!(registry.has(A::kind()));
    assert_eq!(registry.capabilities(A::kind()).unwrap().items.len(), 2);
    let taken = registry.take_resource(A::kind()).unwrap();
    assert_eq!(taken.resource, "second");
    assert_eq!(taken.slot, ModuleSlot::BackLeft);
    registry.return_resource(A::kind(), taken);
    assert_eq!(registry.take_resource(A::kind()).unwrap().resource, "second");
    assert_eq!(registry.take_resource(A::kind()).unwrap().resource, "first");
    assert!(!registry.has(A::kind()));
    // The list stays, empty.
    assert_eq!(registry.capabilities(A::kind()).unwrap().items.len(), 0);
    assert_eq!(registry.take_resource(B::kind()).unwrap().resource, "b");
}

#[test]
fn legacy_button_logger() {
    let mut registry: Registry<u8> = Registry::new();
    assert!(!ButtonLoggerApp::<u8>::can_run(&registry));
    assert!(ButtonLoggerApp::<u8>::new(&mut registry).is_none());
    registry.return_resource(A::kind(), RegisteredResource { slot: ModuleSlot::FrontRight, module_id: id(), resource: 3 });
    assert!(ButtonLoggerApp::<u8>::can_run(&registry));
    let app = ButtonLoggerApp::<u8>::new(&mut registry).unwrap();
    assert_eq!(app.button.resource, 3);
    assert!(!registry.has(A::kind()));
}

#[test]
fn pio_state_machines_are_handed_out_in_order() {
    let mut pio = PioManager::new();
    assert_eq!(pio.find_free_sm(), Some((PioBlock::Block0, Sm::Sm0)));
    for i in 0..12usize {
        let found = pio.reserve_sm().unwrap();
        assert_eq!(found.0.index() * 4 + found.1.index(), i);
    }
    assert_eq!(pio.reserve_sm(), None);
    assert_eq!(pio.find_free_sm_pair(), None);
}

#[test]
fn pio_pairs_come_from_one_block() {
    let mut pio = PioManager::new();
    pio.take_sm(PioBlock::Block0, Sm::Sm1);
    pio.take_sm(PioBlock::Block0, Sm::Sm2);
    pio.take_sm(PioBlock::Block0, Sm::Sm3);
    assert_eq!(pio.two_free_sms(PioBlock::Block0), None);
    assert_eq!(pio.two_free_sms(PioBlock::Block1), Some((Sm::Sm0, Sm::Sm1)));
    assert_eq!(pio.find_free_sm_pair(), Some((PioBlock::Block1, Sm::Sm0, Sm::Sm1)));
    assert_eq!(pio.build_uart_pio(), Some((PioBlock::Block1, Sm::Sm0, Sm::Sm1)));
    assert!(!pio.has_sm(PioBlock::Block1, Sm::Sm1));
    assert!(pio.has_sm(PioBlock::Block0, Sm::Sm0));
    assert_eq!(pio.find_free_sm(), Some((PioBlock::Block0, Sm::Sm0)));
    assert_eq!(PioBlock::from_index(2), PioBlock::Block2);
    assert_eq!(Sm::from_index(3), Sm::Sm3);
}

#[test]
fn peripherals_are_exclusive_until_released() {
    let mut dma = vec![false; 16];
    dma[0] = true;
    dma[1] = true;
    let mut alloc = BusAllocator::new(true, false, true, true, true, false, DmaPool { channels: dma });
    assert_eq!(alloc.request_spi_hardware(SpiInstance::Spi1), Err(AllocatorError::Exhausted));
    assert_eq!(alloc.request_spi_hardware(SpiInstance::Spi0), Ok(()));
    assert_eq!(alloc.request_spi_hardware(SpiInstance::Spi0), Err(AllocatorError::Exhausted));
    alloc.release_spi_hardware(SpiInstance::Spi0);
    assert_eq!(alloc.request_spi_hardware(SpiInstance::Spi0), Ok(()));
    assert_eq!(alloc.create_i2c_hardware(I2cInstance::I2c0), Ok(()));
    assert_eq!(alloc.request_i2c_hardware(I2cInstance::I2c0), Err(AllocatorError::Exhausted));
    alloc.release_i2c_hardware(I2cInstance::I2c0);
    assert_eq!(alloc.request_i2c_hardware(I2cInstance::I2c0), Ok(()));
    assert_eq!(alloc.request_dma(5), Err(AllocatorError::Exhausted));
    assert_eq!(alloc.request_dma(0), Ok(()));
    assert_eq!(alloc.request_dma(0), Err(AllocatorError::Exhausted));
    alloc.release_dma(0);
    // UART0 with DMA 0 and 1; the second attempt fails on the peripheral.
    assert_eq!(alloc.create_uart_hardware(UartInstance::Uart0, 0, 1), Ok(()));
    assert_eq!(alloc.create_uart_hardware(UartInstance::Uart0, 0, 1), Err(AllocatorError::Exhausted));
    alloc.release_uart_hardware(UartInstance::Uart0);
    assert_eq!(alloc.request_uart_hardware(UartInstance::Uart0), Ok(()));
}

#[test]
fn partial_takes_stay_taken() {
    let mut dma = vec![false; 16];
    dma[2] = true;
    let mut alloc = BusAllocator::new(true, true, false, false, false, false, DmaPool { channels: dma });
    // SPI1 is taken, then DMA 2, then DMA 3 is missing.
    assert_eq!(alloc.create_spi_hardware(SpiInstance::Spi1, 2, 3), Err(AllocatorError::Exhausted));
    assert_eq!(alloc.request_spi_hardware(SpiInstance::Spi1), Err(AllocatorError::Exhausted));
    assert_eq!(alloc.request_dma(2), Err(AllocatorError::Exhausted));
}

#[test]
fn pio_buses_from_the_allocator() {
    let mut dma = vec![true; 16];
    dma[15] = false;
    let mut alloc = BusAllocator::new(false, false, false, false, false, false, DmaPool { channels: dma });
    assert_eq!(alloc.create_spi_pio(0, 1), Ok((PioBlock::Block0, Sm::Sm0)));
    assert_eq!(alloc.create_spi_pio(2, 15), Err(AllocatorError::Exhausted));
    assert_eq!(alloc.create_uart_pio(), Ok((PioBlock::Block0, Sm::Sm1, Sm::Sm2)));
    assert_eq!(alloc.create_uart(), UartBackend::Pio(PioBlock::Block1, Sm::Sm0, Sm::Sm1));
}

#[test]
fn uart_falls_back_to_bitbang() {
    let pool = DmaPool::none();
    assert_eq!(pool.channels, vec![false; 16]);
    let mut alloc = BusAllocator::new(false, false, false, false, false, false, pool);
    for _ in 0..6 {
        assert!(matches!(alloc.create_uart(), UartBackend::Pio(..)));
    }
    assert_eq!(alloc.create_uart(), UartBackend::BitBang);
    assert_eq!(alloc.create_uart_pio(), Err(AllocatorError::Exhausted));
}

#[test]
fn legacy_i2c_errors_and_timing() {
    assert_eq!(I2cError::from_controller(ControllerError::ArbitrationLoss), I2cError::Abort);
    assert_eq!(I2cError::from_controller(ControllerError::InvalidReadBufferLength), I2cError::InvalidBufferLength);
    assert_eq!(bitbang_i2c_half_period_micros(100_000), 5);
    assert_eq!(bitbang_i2c_half_period_micros(400_000), 1);
    assert_eq!(bitbang_i2c_half_period_micros(0), 5);
    assert_eq!(bitbang_spi_delay_micros(100_000), 5);
    assert_eq!(bitbang_spi_delay_micros(0), 10);
    assert_eq!(bitbang_transfer_len(3, 5), 3);
    assert_eq!(bitbang_uart_bit_micros(9_600), 104);
    let mut handle = I2cBusHandle::new(5u8, I2cBusVersion::BitBang);
    assert_eq!(handle.version(), I2cBusVersion::BitBang);
    assert_eq!(*handle.inner_mut(), 5);
    let uart = UartBusHandle::new((), UartBusVersion::Pio);
    assert_eq!(uart.version(), UartBusVersion::Pio);
}

#[test]
fn legacy_i2c_plans() {
    let plan = legacy_read_plan(0x10, 2);
    assert_eq!(plan.steps, vec![BusStep::Start, BusStep::Address(0x21), BusStep::Read { ack: true }, BusStep::Read { ack: false }, BusStep::Stop]);
    assert_eq!(plan.result, Ok(()));
    assert_eq!(legacy_read_plan(0x10, 0).result, Err(I2cError::InvalidBufferLength));
    let plan = legacy_write_plan(0x10, &vec![7]);
    assert_eq!(plan.steps, vec![BusStep::Start, BusStep::Address(0x20), BusStep::Write(7), BusStep::Stop]);
    let plan = legacy_write_read_plan(0x10, &vec![7], 1);
    assert_eq!(
        plan.steps,
        vec![
            BusStep::Start,
            BusStep::Address(0x20),
            BusStep::Write(7),
            BusStep::Start,
            BusStep::Address(0x21),
            BusStep::Read { ack: false },
            BusStep::Stop
        ]
    );
    assert_eq!(legacy_write_read_plan(0x10, &vec![], 1).steps, vec![]);
}

#[test]
fn legacy_transaction_restarts_every_operation() {
    let ops = vec![I2cOperation::Write(vec![1]), I2cOperation::Write(vec![2])];
    let plan = legacy_transaction_plan(0x10, &ops);
    assert_eq!(
        plan.steps,
        vec![
            BusStep::Start,
            BusStep::Address(0x20),
            BusStep::Write(1),
            BusStep::Start,
            BusStep::Address(0x20),
            BusStep::Write(2),
            BusStep::Stop
        ]
    );
    assert_eq!(plan.result, Ok(()));
    // A first read starts twice.
    let plan = legacy_transaction_plan(0x10, &vec![I2cOperation::Read(1)]);
    assert_eq!(plan.steps, vec![BusStep::Start, BusStep::Start, BusStep::Address(0x21), BusStep::Read { ack: false }, BusStep::Stop]);
    // An empty buffer is found after its address byte.
    let plan = legacy_transaction_plan(0x10, &vec![I2cOperation::Write(vec![1]), I2cOperation::Read(0)]);
    assert_eq!(
        plan.steps,
        vec![BusStep::Start, BusStep::Address(0x20), BusStep::Write(1), BusStep::Start, BusStep::Address(0x21), BusStep::Stop]
    );
    assert_eq!(plan.result, Err(I2cError::InvalidBufferLength));
    assert_eq!(legacy_transaction_plan(0x10, &vec![]).steps, vec![]);
}

struct Echo;

impl DynSpiBusBlocking for Echo {
    fn write_blocking(&mut self, _data: &[u8]) -> Result<(), SpiError> {
        Ok(())
    }
    fn read_blocking(&mut self, data: &mut [u8]) -> Result<(), SpiError> {
        data.fill(0);
        Ok(())
    }
    fn transfer_blocking(&mut self, read: &mut [u8], write: &[u8]) -> Result<(), SpiError> {
        for (r, w) in read.iter_mut().zip(write) {
            *r = w.wrapping_add(1);
        }
        Ok(())
    }
}

impl DynSpiBusCombined for Echo {}

#[test]
fn legacy_spi_transfer_in_place_goes_word_by_word() {
    let mut handle = SpiBusHandle::new(Echo, SpiBusVersion::Hardware);
    assert_eq!(handle.version(), SpiBusVersion::Hardware);
    let mut words = [1u8, 2, 3];
    handle.transfer_in_place_blocking(&mut words).unwrap();
    assert_eq!(words, [2, 3, 4]);
}

/// Answers each exchange with the byte plus one, and fails the exchange
/// numbered `fail_at` (counted from zero).
struct FailingEcho {
    exchanges: usize,
    fail_at: usize,
}

impl DynSpiBusBlocking for FailingEcho {
    fn write_blocking(&mut self, _data: &[u8]) -> Result<(), SpiError> {
        Ok(())
    }
    fn read_blocking(&mut self, _data: &mut [u8]) -> Result<(), SpiError> {
        Ok(())
    }
    fn transfer_blocking(&mut self, read: &mut [u8], write: &[u8]) -> Result<(), SpiError> {
        assert_eq!(read.len(), 1);
        assert_eq!(write.len(), 1);
        let n = self.exchanges;
        self.exchanges += 1;
        if n == self.fail_at {
            return Err(SpiError::Overrun);
        }
        read[0] = write[0].wrapping_add(1);
        Ok(())
    }
}

impl DynSpiBusCombined for FailingEcho {}

#[test]
fn legacy_spi_transfer_in_place_stops_at_first_failure() {
    let mut handle = SpiBusHandle::new(FailingEcho { exchanges: 0, fail_at: 1 }, SpiBusVersion::BitBang);
    let mut words = [10u8, 20, 30];
    assert_eq!(handle.transfer_in_place_blocking(&mut words), Err(SpiError::Overrun));
    assert_eq!(words, [11, 20, 30]);
    assert_eq!(handle.inner_mut().exchanges, 2);

    let mut handle = SpiBusHandle::new(FailingEcho { exchanges: 0, fail_at: 0 }, SpiBusVersion::BitBang);
    let mut empty: [u8; 0] = [];
    assert_eq!(handle.transfer_in_place_blocking(&mut empty), Ok(()));
    assert_eq!(handle.inner_mut().exchanges, 0);
}

// ── drivers ──────────────────────────────────────────────────────────────

#[test]
fn driver_ids() {
    assert_eq!(FourButtonDriver::id(), ModuleID { md0: ModuleDetectResistor::R1K5, md1: ModuleDetectResistor::R1K6 });
    assert_eq!(TwoButtonDriver::id(), ModuleID { md0: ModuleDetectResistor::R1K6, md1: ModuleDetectResistor::R1K5 });
    assert_eq!(TestDriver::id(), ModuleID { md0: ModuleDetectResistor::R1K, md1: ModuleDetectResistor::R1K1 });
    assert_eq!(SpiAdcDriver::id(), ModuleID { md0: ModuleDetectResistor::R4K7, md1: ModuleDetectResistor::R10K });
}

#[test]
fn four_button_driver_registers_aliased_groups() {
    let mut registry: LeaseRegistry<u32> = LeaseRegistry::new(1);
    let buttons = FourButtons { a: 1, down: 2, b: 3, right: 4, x: 5, left: 6, y: 7, up: 8 };
    assert_eq!(FourButtonDriver::create(&mut registry, ModuleSlot::FrontLeft, buttons), Ok(()));
    for kind in [A::kind(), B::kind(), X::kind(), Y::kind(), Up::kind(), Down::kind(), Left::kind(), Right::kind()] {
        assert_eq!(registry.resource_count(kind), 1);
    }
    let a = registry.take_resource(A::kind()).unwrap();
    assert_eq!(a.module_id(), Some(FourButtonDriver::id()));
    assert!(!registry.has(Down::kind()));
    assert!(registry.has(Up::kind()));
}

#[test]
fn two_button_and_test_drivers() {
    let mut registry: LeaseRegistry<u32> = LeaseRegistry::new(1);
    assert_eq!(TwoButtonDriver::create(&mut registry, ModuleSlot::BackRight, 1, 2), Ok(()));
    assert_eq!(TestDriver::create(&mut registry, ModuleSlot::BackLeft, 3), Ok(()));
    assert_eq!(registry.resource_count(A::kind()), 2);
    assert_eq!(*registry.take_resource(A::kind()).unwrap().resource(), 3);
    assert_eq!(*registry.take_resource(B::kind()).unwrap().resource(), 2);
}

#[test]
fn spi_adc_channels_and_setup() {
    assert_eq!(spi_adc_channel(7), Ok(7));
    assert_eq!(spi_adc_channel(8), Err(SpiAdcError::InvalidChannel));
    let (mut setup, first) = SpiAdcSetup::start();
    assert_eq!(first, SpiAdcSetupStep::CreateBus { frequency_hz: 400_000 });
    let mut steps = vec![first];
    while let Some(step) = setup.step(true) {
        steps.push(step);
    }
    assert_eq!(steps.len(), 12);
    assert_eq!(steps[1], SpiAdcSetupStep::ClearBrownOut);
    assert_eq!(steps[2], SpiAdcSetupStep::SetOversampling16);
    assert_eq!(steps[3], SpiAdcSetupStep::ConfigureChannel(0));
    assert_eq!(steps[10], SpiAdcSetupStep::ConfigureChannel(7));
    assert_eq!(steps[11], SpiAdcSetupStep::Register);
    let (mut failing, _) = SpiAdcSetup::start();
    assert_eq!(failing.step(false), Some(SpiAdcSetupStep::Fail(DriverError::InitFailed)));
}

#[test]
fn legacy_spi_bit_order() {
    assert_eq!(
        legacy_spi_bit_steps(true),
        vec![
            SpiPinStep::SetMosi(true),
            SpiPinStep::ClockActive,
            SpiPinStep::Wait,
            SpiPinStep::SampleMiso,
            SpiPinStep::ClockIdle,
            SpiPinStep::Wait
        ]
    );
}

#[test]
fn pio_builds_on_given_state_machines() {
    let mut pio = PioManager::new();
    assert!(pio.build_spi_at(PioBlock::Block2, Sm::Sm3));
    assert!(!pio.build_spi_at(PioBlock::Block2, Sm::Sm3));
    assert!(!pio.build_uart_at(PioBlock::Block2, Sm::Sm1, Sm::Sm1));
    assert!(!pio.build_uart_at(PioBlock::Block2, Sm::Sm0, Sm::Sm3));
    // The transmitter is not taken when the receiver is busy.
    assert!(pio.has_sm(PioBlock::Block2, Sm::Sm0));
    assert!(pio.build_uart_at(PioBlock::Block2, Sm::Sm0, Sm::Sm2));
    assert!(!pio.has_sm(PioBlock::Block2, Sm::Sm0) && !pio.has_sm(PioBlock::Block2, Sm::Sm2));
    assert!(pio.has_sm(PioBlock::Block2, Sm::Sm1));
}

#[test]
fn legacy_has_follows_registrations_and_takes() {
    let mut registry: Registry<u32> = Registry::new();
    assert!(!registry.has(A::kind()));
    let item = |resource| RegisteredResource {
        slot: ModuleSlot::FrontLeft,
        module_id: ModuleID { md0: ModuleDetectResistor::R1K, md1: ModuleDetectResistor::R1K1 },
        resource,
    };
    registry.register(A::kind(), ModuleSlot::FrontLeft, item(1).module_id, 1);
    registry.register(A::kind(), ModuleSlot::FrontLeft, item(2).module_id, 2);
    registry.register(B::kind(), ModuleSlot::FrontLeft, item(3).module_id, 3);
    let first = registry.take_resource(A::kind()).unwrap();
    assert!(registry.has(A::kind()));
    let second = registry.take_resource(A::kind()).unwrap();
    assert!(!registry.has(A::kind()));
    assert!(registry.take_resource(A::kind()).is_none());
    assert!(!registry.has(A::kind()));
    assert!(registry.has(B::kind()));
    registry.return_resource(A::kind(), second);
    assert!(registry.has(A::kind()));
    assert_eq!(first.resource, 2);
    let _ = item(0);
}
