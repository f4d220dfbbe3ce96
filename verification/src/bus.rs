//! Bus logic of the platform: how bytes are framed on the bit-banged
//! lines, which configurations each backend accepts, and how I2C
//! transactions are carried out.

pub mod bits;
pub mod i2c;
pub mod spi;
pub mod uart;
