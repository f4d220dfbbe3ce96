//! Module drivers: each recognises its module by the detection resistors
//! and publishes the module's buttons or devices in the registry.

use vstd::prelude::*;

use crate::buttons::{ButtonRole, Down, Left, Right, Up, A, B, X, Y};
use crate::metadata::{ModuleDetectResistor, ModuleID, ModuleSlot};
use crate::registry::{kinds_of, with_group, with_groups, CapabilityKind, GroupView, Registry, ResourceMetadata};

verus! {

/// Error returned when a driver cannot bring up its module.
#[derive(Clone, Copy, Debug, PartialEq, Eq, Structural)]
pub enum DriverError {
    InitFailed,
}

/// The module a driver handles, by its detection resistors.
pub trait DriverMeta {
    spec fn spec_id() -> ModuleID;

    fn id() -> (id: ModuleID)
        ensures
            id == Self::spec_id(),
    ;
}

// ── four-button module ───────────────────────────────────────────────────

/// Four side buttons, each serving two roles: A and down, B and right, X
/// and left, Y and up.
pub struct FourButtonDriver;

impl DriverMeta for FourButtonDriver {
    open spec fn spec_id() -> ModuleID {
        ModuleID { md0: ModuleDetectResistor::R1K5, md1: ModuleDetectResistor::R1K6 }
    }

    fn id() -> (id: ModuleID) {
        ModuleID { md0: ModuleDetectResistor::R1K5, md1: ModuleDetectResistor::R1K6 }
    }
}

/// The button objects of the four-button module, two roles per physical
/// button.
pub struct FourButtons<R> {
    pub a: R,
    pub down: R,
    pub b: R,
    pub right: R,
    pub x: R,
    pub left: R,
    pub y: R,
    pub up: R,
}

/// The groups the four-button module registers: one per physical button,
/// in the order A/down, B/right, X/left, Y/up.
pub open spec fn four_button_groups<R>(buttons: FourButtons<R>) -> Seq<Seq<(CapabilityKind, R)>> {
    seq![
        seq![(A::spec_kind(), buttons.a), (Down::spec_kind(), buttons.down)],
        seq![(B::spec_kind(), buttons.b), (Right::spec_kind(), buttons.right)],
        seq![(X::spec_kind(), buttons.x), (Left::spec_kind(), buttons.left)],
        seq![(Y::spec_kind(), buttons.y), (Up::spec_kind(), buttons.up)],
    ]
}

fn pair<R>(k1: CapabilityKind, r1: R, k2: CapabilityKind, r2: R) -> (group: Vec<(CapabilityKind, R)>)
    ensures
        group@ == seq![(k1, r1), (k2, r2)],
{
    let mut group: Vec<(CapabilityKind, R)> = Vec::new();
    group.push((k1, r1));
    group.push((k2, r2));
    proof {
        assert(group@ =~= seq![(k1, r1), (k2, r2)]);
    }
    group
}

impl FourButtonDriver {
    /// Registers the module's four buttons, each as one group of its two
    /// roles.
    pub fn create<R>(registry: &mut Registry<R>, slot: ModuleSlot, buttons: FourButtons<R>) -> (result: Result<(), DriverError>)
        requires
            old(registry).wf(),
            old(registry)@.next_allocated + 4 <= u32::MAX,
        ensures
            result is Ok,
            final(registry).wf(),
            final(registry)@.id == old(registry)@.id,
            final(registry)@.next_allocated == old(registry)@.next_allocated + 4,
            final(registry)@.slots == with_groups(
                old(registry)@.slots,
                four_button_groups(buttons),
                old(registry)@.next_allocated,
                slot,
                Self::spec_id(),
            ),
    {
        let ghost expected = four_button_groups(buttons);
        let FourButtons { a, down, b, right, x, left, y, up } = buttons;
        let mut groups: Vec<Vec<(CapabilityKind, R)>> = Vec::new();
        groups.push(pair(A::kind(), a, Down::kind(), down));
        groups.push(pair(B::kind(), b, Right::kind(), right));
        groups.push(pair(X::kind(), x, Left::kind(), left));
        groups.push(pair(Y::kind(), y, Up::kind(), up));
        proof {
            assert(crate::registry::group_lists(groups@) =~= expected);
            assert forall|i: int| 0 <= i < groups@.len() implies kinds_of(#[trigger] groups@[i]@).no_duplicates() by {
                assert(groups@[i]@ == expected[i]);
                assert(kinds_of(expected[i])[0] != kinds_of(expected[i])[1]);
            }
        }
        match registry.register_groups(slot, Self::id(), groups) {
            Ok(()) => Ok(()),
            Err(_) => Err(DriverError::InitFailed),
        }
    }
}

// ── two-button module ────────────────────────────────────────────────────

/// Two buttons, A and B.
pub struct TwoButtonDriver;

impl DriverMeta for TwoButtonDriver {
    open spec fn spec_id() -> ModuleID {
        ModuleID { md0: ModuleDetectResistor::R1K6, md1: ModuleDetectResistor::R1K5 }
    }

    fn id() -> (id: ModuleID) {
        ModuleID { md0: ModuleDetectResistor::R1K6, md1: ModuleDetectResistor::R1K5 }
    }
}

/// The group of one button registered by a module.
pub open spec fn button_group<R>(next: u32, slot: ModuleSlot, module_id: ModuleID, kind: CapabilityKind, button: R) -> GroupView<R> {
    GroupView {
        metadata: ResourceMetadata::ModuleAllocated { allocated_id: next, slot, module_id },
        capabilities: seq![(kind, button)],
    }
}

impl TwoButtonDriver {
    /// Registers button A (GPIO 0) and then button B (GPIO 1).
    pub fn create<R>(registry: &mut Registry<R>, slot: ModuleSlot, a: R, b: R) -> (result: Result<(), DriverError>)
        requires
            old(registry).wf(),
            old(registry)@.next_allocated + 2 <= u32::MAX,
        ensures
            result is Ok,
            final(registry).wf(),
            final(registry)@.id == old(registry)@.id,
            final(registry)@.next_allocated == old(registry)@.next_allocated + 2,
            final(registry)@.slots == with_group(
                with_group(
                    old(registry)@.slots,
                    button_group(old(registry)@.next_allocated, slot, Self::spec_id(), A::spec_kind(), a),
                ),
                button_group((old(registry)@.next_allocated + 1) as u32, slot, Self::spec_id(), B::spec_kind(), b),
            ),
    {
        registry.register(slot, Self::id(), A::kind(), a);
        registry.register(slot, Self::id(), B::kind(), b);
        Ok(())
    }
}

// ── test module ──────────────────────────────────────────────────────────

/// A single button A on GPIO 3.
pub struct TestDriver;

impl DriverMeta for TestDriver {
    open spec fn spec_id() -> ModuleID {
        ModuleID { md0: ModuleDetectResistor::R1K, md1: ModuleDetectResistor::R1K1 }
    }

    fn id() -> (id: ModuleID) {
        ModuleID { md0: ModuleDetectResistor::R1K, md1: ModuleDetectResistor::R1K1 }
    }
}

impl TestDriver {
    /// Registers button A.
    pub fn create<R>(registry: &mut Registry<R>, slot: ModuleSlot, a: R) -> (result: Result<(), DriverError>)
        requires
            old(registry).wf(),
            old(registry)@.next_allocated + 1 <= u32::MAX,
        ensures
            result is Ok,
            final(registry).wf(),
            final(registry)@.id == old(registry)@.id,
            final(registry)@.next_allocated == old(registry)@.next_allocated + 1,
            final(registry)@.slots == with_group(
                old(registry)@.slots,
                button_group(old(registry)@.next_allocated, slot, Self::spec_id(), A::spec_kind(), a),
            ),
    {
        registry.register(slot, Self::id(), A::kind(), a);
        Ok(())
    }
}

// ── SPI ADC module ───────────────────────────────────────────────────────

/// An eight-channel ADS7028 converter on a bit-banged SPI bus.
pub struct SpiAdcDriver;

impl DriverMeta for SpiAdcDriver {
    open spec fn spec_id() -> ModuleID {
        ModuleID { md0: ModuleDetectResistor::R4K7, md1: ModuleDetectResistor::R10K }
    }

    fn id() -> (id: ModuleID) {
        ModuleID { md0: ModuleDetectResistor::R4K7, md1: ModuleDetectResistor::R10K }
    }
}

/// Error returned when reading the converter.
#[derive(Clone, Copy, Debug, PartialEq, Eq, Structural)]
pub enum SpiAdcError {
    /// Only channels 0 to 7 exist.
    InvalidChannel,
    /// The SPI transfer failed.
    Bus,
}

/// Clock of the converter's SPI bus, in hertz.
pub const SPI_ADC_FREQUENCY_HZ: u32 = 400_000;

/// The number of converter channels.
pub const SPI_ADC_CHANNELS: u8 = 8;

/// Checks a channel number before it is read.
pub fn spi_adc_channel(channel: u8) -> (result: Result<u8, SpiAdcError>)
    ensures
        channel < 8 ==> result == Ok::<u8, SpiAdcError>(channel),
        channel >= 8 ==> result == Err::<u8, SpiAdcError>(SpiAdcError::InvalidChannel),
{
    if channel < SPI_ADC_CHANNELS {
        Ok(channel)
    } else {
        Err(SpiAdcError::InvalidChannel)
    }
}

/// One step of bringing up the converter module.
#[derive(Clone, Copy, Debug, PartialEq, Eq, Structural)]
pub enum SpiAdcSetupStep {
    /// Build a bit-banged SPI bus at this clock on GPIO 2 (clock), 4 (data
    /// out) and 3 (data in), with GPIO 9 as chip select.
    CreateBus { frequency_hz: u32 },
    /// Clear the converter's brown-out flag.
    ClearBrownOut,
    /// Average sixteen samples per conversion.
    SetOversampling16,
    /// Configure this channel as an analog input.
    ConfigureChannel(u8),
    /// Register the converter in the registry; bring-up is done.
    Register,
    /// A step failed: the driver reports `InitFailed`.
    Fail(DriverError),
}

/// The bring-up sequence of the converter module: the bus, the brown-out
/// flag, oversampling, the eight channels in order, then registration.
pub open spec fn spi_adc_setup_steps() -> Seq<SpiAdcSetupStep> {
    seq![
        SpiAdcSetupStep::CreateBus { frequency_hz: SPI_ADC_FREQUENCY_HZ },
        SpiAdcSetupStep::ClearBrownOut,
        SpiAdcSetupStep::SetOversampling16,
    ] + Seq::new(8, |i: int| SpiAdcSetupStep::ConfigureChannel(i as u8)) + seq![SpiAdcSetupStep::Register]
}

/// Where the converter's bring-up stands: the number of steps done.
pub struct SpiAdcSetup {
    done: usize,
}

impl SpiAdcSetup {
    pub closed spec fn position(&self) -> int {
        self.done as int
    }

    pub open spec fn wf(&self) -> bool {
        0 <= self.position() < 12
    }

    /// Starts the bring-up; the first step is to build the bus.
    pub fn start() -> (started: (SpiAdcSetup, SpiAdcSetupStep))
        ensures
            started.0.wf(),
            started.0.position() == 0,
            started.1 == spi_adc_setup_steps()[0],
    {
        (SpiAdcSetup { done: 0 }, SpiAdcSetupStep::CreateBus { frequency_hz: SPI_ADC_FREQUENCY_HZ })
    }

    /// The step after the current one finished, successfully or not: a
    /// failure ends the bring-up with `InitFailed`; after registration
    /// there is nothing left to do (`None`).
    pub fn step(&mut self, succeeded: bool) -> (next: Option<SpiAdcSetupStep>)
        requires
            old(self).wf(),
        ensures
            !succeeded ==> next == Some(SpiAdcSetupStep::Fail(DriverError::InitFailed)) && *final(self) == *old(self),
            succeeded && old(self).position() == 11 ==> next is None && *final(self) == *old(self),
            succeeded && old(self).position() < 11 ==> final(self).wf() && final(self).position() == old(self).position() + 1
                && next == Some(spi_adc_setup_steps()[old(self).position() + 1]),
    {
        if !succeeded {
            return Some(SpiAdcSetupStep::Fail(DriverError::InitFailed));
        }
        if self.done == 11 {
            return None;
        }
        self.done = self.done + 1;
        let step = if self.done == 1 {
            SpiAdcSetupStep::ClearBrownOut
        } else if self.done == 2 {
            SpiAdcSetupStep::SetOversampling16
        } else if self.done < 11 {
            SpiAdcSetupStep::ConfigureChannel((self.done - 3) as u8)
        } else {
            SpiAdcSetupStep::Register
        };
        proof {
            let s = spi_adc_setup_steps();
            if 3 <= self.done < 11 {
                assert(s[self.done as int] == SpiAdcSetupStep::ConfigureChannel((self.done - 3) as u8));
            }
        }
        Some(step)
    }
}

} // verus!
