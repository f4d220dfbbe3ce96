//! The earlier driver API: a registry of capability lists without leases,
//! the startup bus allocator with its PIO state-machine pool, the bus
//! errors and handles, the ADC service's errors, and the apps and drivers
//! written against it.

pub mod registry;
pub mod allocator;
pub mod bus;
pub mod app;
pub mod adc;
