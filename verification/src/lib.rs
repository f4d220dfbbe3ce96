//! Verified core of the xpanse modular handheld platform: module metadata,
//! the capability registry, the startup bus allocator, bus planning and
//! configuration checks, direct video, the module drivers, and the game
//! logic of the bundled apps.

pub mod metadata;
pub mod registry;
pub mod buttons;
pub mod apps;
pub mod video;
pub mod collections;
pub mod neon_beat;
pub mod snake;
pub mod cube;
pub mod nes;
pub mod bus;
pub mod driver_api;
pub mod drivers;
