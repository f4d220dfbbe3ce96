use xpanse::bus::i2c::{I2cBusHandle, I2cBusVersion};
use xpanse::bus::bits::{assemble_msb_first, byte_bits_msb_first, uart_decode_frame, uart_frame_levels};
use xpanse::bus::i2c::{
    bitbang_transaction_plan, check_address, make_address_byte, plan_hardware_transaction, scatter_reads,
    sends_stop, transaction_result, validate_bitbang_frequency, validate_hardware_config, BusStep, ControllerError,
    HardwarePlan, I2cError, I2cOperation,
};
use xpanse::bus::spi::{
    half_bit_nanos, spi_bit_steps, transfer_words, validate_bitbang_config, validate_hardware_config as spi_hardware_config,
    validate_pio_config, DynSpiBusBlocking, DynSpiBusCombined, SpiBusHandle, SpiBusVersion, SpiError, SpiPinStep,
};
use xpanse::bus::uart::{
    baud_parameters, frame_ticks, next_tx_idle, validate_bitbang_baud, validate_hardware_config as uart_hardware_config,
    UartError,
};

#[test]
fn msb_first_bits_round_trip() {
    let bits = byte_bits_msb_first(0b1010_0011);
    assert_eq!(bits, vec![true, false, true, false, false, false, true, true]);
    for byte in [0u8, 1, 0x80, 0x5a, 0xff] {
        assert_eq!(assemble_msb_first(&byte_bits_msb_first(byte)), byte);
    }
}

#[test]
fn uart_frames_round_trip() {
    let levels = uart_frame_levels(0b0000_0101);
    assert_eq!(levels, vec![false, true, false, true, false, false, false, false, false, true]);
    for byte in [0u8, 0x55, 0xa5, 0xff] {
        assert_eq!(uart_decode_frame(&uart_frame_levels(byte)), Ok(byte));
    }
    let mut bad_start = uart_frame_levels(3);
    bad_start[0] = true;
    assert_eq!(uart_decode_frame(&bad_start), Err(UartError::Framing));
    let mut bad_stop = uart_frame_levels(3);
    bad_stop[9] = false;
    assert_eq!(uart_decode_frame(&bad_stop), Err(UartError::Framing));
}

#[test]
fn i2c_address_checks() {
    assert_eq!(check_address(0x7f), Ok(()));
    assert_eq!(check_address(0x80), Err(I2cError::AddressOutOfRange));
    assert_eq!(make_address_byte(0x48, true), 0x91);
    assert_eq!(make_address_byte(0x48, false), 0x90);
    assert_eq!(I2cError::from_controller(ControllerError::ArbitrationLoss), I2cError::ArbitrationLoss);
    assert_eq!(I2cError::from_controller(ControllerError::InvalidWriteBufferLength), I2cError::InvalidBufferLength);
    assert_eq!(I2cError::from_controller(ControllerError::AddressReserved), I2cError::Other);
}

#[test]
fn i2c_config_checks() {
    assert_eq!(validate_hardware_config(100_000, 150_000_000), Ok(()));
    assert_eq!(validate_hardware_config(400_000, 150_000_000), Ok(()));
    assert_eq!(validate_hardware_config(1_000_000, 150_000_000), Ok(()));
    assert_eq!(validate_hardware_config(0, 150_000_000), Err(I2cError::Other));
    assert_eq!(validate_hardware_config(1_000_001, 150_000_000), Err(I2cError::Other));
    // Too slow for the counters.
    assert_eq!(validate_hardware_config(1_000, 150_000_000), Err(I2cError::Other));
    // Fast mode plus needs a clock above 32 MHz.
    assert_eq!(validate_hardware_config(1_000_000, 30_000_000), Err(I2cError::Other));
    assert_eq!(validate_bitbang_frequency(500_000, 1_000_000), Ok(()));
    assert_eq!(validate_bitbang_frequency(500_001, 1_000_000), Err(I2cError::Other));
    assert_eq!(validate_bitbang_frequency(0, 1_000_000), Err(I2cError::Other));
}

#[test]
fn hardware_i2c_plans() {
    let ops = vec![I2cOperation::Write(vec![1, 2]), I2cOperation::Write(vec![3]), I2cOperation::Read(2), I2cOperation::Read(1)];
    match plan_hardware_transaction(0x20, &ops).unwrap() {
        HardwarePlan::WriteRead(bytes, len) => {
            assert_eq!(bytes, vec![1, 2, 3]);
            assert_eq!(len, 3);
        }
        _ => panic!("expected a write-read"),
    }
    let parts = scatter_reads(&ops, &vec![9, 8, 7]);
    assert_eq!(parts, vec![vec![], vec![], vec![9, 8], vec![7]]);
    assert!(matches!(plan_hardware_transaction(0x20, &vec![]), Ok(HardwarePlan::Nothing)));
    assert!(matches!(plan_hardware_transaction(0x20, &vec![I2cOperation::Read(4)]), Ok(HardwarePlan::Read(4))));
    assert!(matches!(
        plan_hardware_transaction(0x20, &vec![I2cOperation::Read(1), I2cOperation::Write(vec![1])]),
        Err(I2cError::UnsupportedTransaction)
    ));
    assert!(matches!(plan_hardware_transaction(0x20, &vec![I2cOperation::Read(0)]), Err(I2cError::InvalidBufferLength)));
    assert!(matches!(plan_hardware_transaction(0x90, &vec![I2cOperation::Read(1)]), Err(I2cError::AddressOutOfRange)));
}

#[test]
fn bitbang_i2c_plan() {
    let ops = vec![I2cOperation::Write(vec![0x10]), I2cOperation::Read(2), I2cOperation::Read(1)];
    let steps = bitbang_transaction_plan(0x20, &ops).unwrap();
    assert_eq!(
        steps,
        vec![
            BusStep::Start,
            BusStep::Address(0x40),
            BusStep::Write(0x10),
            BusStep::Start,
            BusStep::Address(0x41),
            BusStep::Read { ack: true },
            BusStep::Read { ack: true },
            BusStep::Read { ack: false },
            BusStep::Stop,
        ]
    );
    assert_eq!(bitbang_transaction_plan(0x20, &vec![]).unwrap(), vec![]);
    assert_eq!(bitbang_transaction_plan(0x20, &vec![I2cOperation::Write(vec![])]), Err(I2cError::InvalidBufferLength));
    assert_eq!(bitbang_transaction_plan(0xff, &vec![]), Err(I2cError::AddressOutOfRange));
    assert!(sends_stop(Err(I2cError::Abort)));
    assert!(!sends_stop(Err(I2cError::ArbitrationLoss)));
    assert_eq!(transaction_result(Err(I2cError::Abort), Ok(())), Err(I2cError::Abort));
    assert_eq!(transaction_result(Ok(()), Err(I2cError::Abort)), Err(I2cError::Abort));
}

#[test]
fn spi_config_checks() {
    assert_eq!(validate_bitbang_config(500_000, 1_000_000), Ok(()));
    assert_eq!(validate_bitbang_config(0, 1_000_000), Err(SpiError::InvalidFrequency));
    assert_eq!(validate_bitbang_config(600_000, 1_000_000), Err(SpiError::InvalidFrequency));
    assert_eq!(half_bit_nanos(400_000), 1250);
    assert_eq!(half_bit_nanos(3), 166_666_667);
    assert_eq!(spi_hardware_config(1_000_000, 150_000_000), Ok(()));
    assert_eq!(spi_hardware_config(75_000_001, 150_000_000), Err(SpiError::InvalidFrequency));
    assert_eq!(spi_hardware_config(2_000, 150_000_000), Err(SpiError::InvalidFrequency));
    assert_eq!(validate_pio_config(1_000_000, 150_000_000), Ok(()));
    assert_eq!(validate_pio_config(100, 150_000_000), Err(SpiError::InvalidFrequency));
    assert_eq!(validate_pio_config(40_000_000, 150_000_000), Err(SpiError::InvalidFrequency));
}

#[test]
fn spi_transfer_words_pad_with_ff() {
    assert_eq!(transfer_words(4, &[1, 2]), vec![1, 2, 0xff, 0xff]);
    assert_eq!(transfer_words(1, &[1, 2, 3]), vec![1, 2, 3]);
    assert_eq!(transfer_words(2, &[]), vec![0xff, 0xff]);
    assert_eq!(spi_bit_steps(true, true)[0], SpiPinStep::SetMosi(true));
    assert_eq!(spi_bit_steps(false, false)[0], SpiPinStep::ClockActive);
    assert_eq!(spi_bit_steps(false, false)[4], SpiPinStep::SampleMiso);
}

struct Loopback {
    written: Vec<u8>,
}

impl DynSpiBusBlocking for Loopback {
    fn flush_blocking(&mut self) -> Result<(), SpiError> {
        Ok(())
    }
    fn write_blocking(&mut self, data: &[u8]) -> Result<(), SpiError> {
        self.written.extend_from_slice(data);
        Ok(())
    }
    fn read_blocking(&mut self, data: &mut [u8]) -> Result<(), SpiError> {
        data.fill(0xff);
        Ok(())
    }
    fn transfer_blocking(&mut self, read: &mut [u8], write: &[u8]) -> Result<(), SpiError> {
        for (r, w) in read.iter_mut().zip(write) {
            *r = *w;
        }
        Ok(())
    }
    fn transfer_in_place_blocking(&mut self, _words: &mut [u8]) -> Result<(), SpiError> {
        Ok(())
    }
}

impl DynSpiBusCombined for Loopback {}

#[test]
fn spi_handle_forwards() {
    let mut handle = SpiBusHandle::new(Loopback { written: vec![] }, SpiBusVersion::BitBang);
    assert_eq!(handle.version(), SpiBusVersion::BitBang);
    handle.write_blocking(&[1, 2, 3]).unwrap();
    let mut read = [0u8; 2];
    handle.transfer_blocking(&mut read, &[7, 8]).unwrap();
    assert_eq!(read, [7, 8]);
    let mut data = [0u8; 3];
    handle.read_blocking(&mut data).unwrap();
    assert_eq!(data, [0xff; 3]);
    assert_eq!(handle.inner_mut().written, vec![1, 2, 3]);
    assert_eq!(handle.flush_blocking(), Ok(()));
}

#[test]
fn uart_baud_checks() {
    assert_eq!(validate_bitbang_baud(115_200, 1_000_000), Ok(()));
    assert_eq!(validate_bitbang_baud(250_001, 1_000_000), Err(UartError::InvalidBaudRate));
    assert_eq!(validate_bitbang_baud(0, 1_000_000), Err(UartError::InvalidBaudRate));
    assert_eq!(uart_hardware_config(115_200, 150_000_000), Ok(()));
    assert_eq!(uart_hardware_config(143, 150_000_000), Err(UartError::InvalidBaudRate));
    assert_eq!(uart_hardware_config(144, 150_000_000), Ok(()));
    assert_eq!(uart_hardware_config(9_375_001, 150_000_000), Err(UartError::InvalidBaudRate));
}

#[test]
fn pio_uart_baud_parameters() {
    // 150 MHz / (8 * 163) = 115030 baud, 0.15 % off.
    assert_eq!(baud_parameters(115_200, 150_000_000), Ok((115_030, 115_030)));
    assert_eq!(baud_parameters(0, 150_000_000), Err(UartError::InvalidBaudRate));
    assert_eq!(baud_parameters(100, 150_000_000), Err(UartError::InvalidBaudRate));
    assert_eq!(baud_parameters(20_000_000, 150_000_000), Err(UartError::InvalidBaudRate));
    assert_eq!(frame_ticks(1_000_000, 115_030), 87);
    assert_eq!(frame_ticks(1, 1_000_000), 1);
    assert_eq!(next_tx_idle(100, 50, 87, 2), 100 + 87 * 3);
    assert_eq!(next_tx_idle(10, 50, 87, 0), 50 + 87);
    assert_eq!(next_tx_idle(u64::MAX - 5, 0, 87, 2), u64::MAX);
}

#[test]
fn i2c_handle_keeps_its_version() {
    let mut handle = I2cBusHandle::new(vec![1u8], I2cBusVersion::Hardware);
    assert_eq!(handle.version(), I2cBusVersion::Hardware);
    handle.inner_mut().push(2);
    assert_eq!(handle.inner_mut().len(), 2);
}
