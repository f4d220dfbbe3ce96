# xpanse

The verified core of the xpanse handheld firmware, written in Verus.

- `src/` is the library. Every function carries a contract that Verus
  proves: the capability registry with leases and atomic resource sets,
  the earlier list-based registry and its bus allocator with the PIO
  state-machine pool, I2C/SPI/UART configuration checks and transfer
  plans, bit framing, the direct-video frame buffer, the NES ROM loader,
  controller and palette, the module drivers, and the game rules of
  Snake, Neon Beat and the cube game as state machines.
- `tests/` runs the library on concrete values.
- `app/` is the platform glue: process-wide ids, floating-point
  conversions, HAL error types, the type-erased asynchronous buses over
  embedded-hal-async and embedded-io-async, the NES emulator core's
  cartridge, controller and screen, the game loops that drive the
  verified game state machines, and the bit-banged I2C, SPI and UART
  executors that carry out the verified pin plans.

## Design notes

- A registered group keeps its capabilities as a `Vec` of (kind, value)
  pairs whose kinds are distinct, an invariant every registry operation
  keeps. A group holds a handful of capabilities and is leased, returned and
  searched as a whole, so a list with that invariant gives the same lookups
  as a map keyed by kind, and the registry's contracts (which groups offer a
  kind, which one is leased, the backtracking choice of a resource set) are
  stated over sequences in registration order, which a list gives directly.
- The blocking SPI backends name, per operation, which outcomes they can
  have; the bus handles state that each operation's outcome is one the
  backend allows for exactly the arguments handed on.
