//! Module metadata: the physical slot a module sits in and the resistor code
//! that identifies the module type.
//!
//! Module identification is resistor-coded: two detection resistors (`md0` and
//! `md1`) are read by the ADC at boot. The combination selects a [`ModuleID`],
//! which a driver matches against its own identifier.

use vstd::prelude::*;

verus! {

/// Physical slot that a module is plugged into.
#[derive(Clone, Copy, Debug, PartialEq, Eq, Structural)]
pub enum ModuleSlot {
    FrontRight,
    FrontLeft,
    BackRight,
    BackLeft,
}

/// Resistor-coded module identifier: two detection resistor values.
#[derive(Clone, Copy, Debug, PartialEq, Eq, Structural)]
pub struct ModuleID {
    /// Resistor on detection line 0.
    pub md0: ModuleDetectResistor,
    /// Resistor on detection line 1.
    pub md1: ModuleDetectResistor,
}

/// Standard E24-series resistor values used for module detection.
#[derive(Clone, Copy, Debug, PartialEq, Eq, Structural)]
pub enum ModuleDetectResistor {
    R1K,
    R1K1,
    R1K2,
    R1K3,
    R1K5,
    R1K6,
    R1K8,
    R2K,
    R2K2,
    R2K4,
    R2K7,
    R3K,
    R3K3,
    R3K6,
    R3K9,
    R4K3,
    R4K7,
    R5K1,
    R5K6,
    R6K2,
    R6K8,
    R7K5,
    R8K2,
    R9K1,
    R10K,
    R11K,
    R12K,
    R13K,
    R15K,
    R16K,
    R18K,
    R20K,
    R22K,
    R24K,
    R27K,
    R30K,
    R33K,
    R36K,
    R39K,
    R43K,
    R47K,
    R51K,
    R56K,
    R62K,
    R68K,
    R75K,
    R82K,
    R91K,
    R100K,
}

/// Fixed pull-down resistor on the module-detection line, in ohms.
pub const BOTTOM_RESISTOR_OHMS: u32 = 10_000;

/// Nominal resistance of a detection resistor, in ohms.
pub open spec fn resistor_ohms(r: ModuleDetectResistor) -> u32 {
    match r {
        ModuleDetectResistor::R1K => 1000,
        ModuleDetectResistor::R1K1 => 1100,
        ModuleDetectResistor::R1K2 => 1200,
        ModuleDetectResistor::R1K3 => 1300,
        ModuleDetectResistor::R1K5 => 1500,
        ModuleDetectResistor::R1K6 => 1600,
        ModuleDetectResistor::R1K8 => 1800,
        ModuleDetectResistor::R2K => 2000,
        ModuleDetectResistor::R2K2 => 2200,
        ModuleDetectResistor::R2K4 => 2400,
        ModuleDetectResistor::R2K7 => 2700,
        ModuleDetectResistor::R3K => 3000,
        ModuleDetectResistor::R3K3 => 3300,
        ModuleDetectResistor::R3K6 => 3600,
        ModuleDetectResistor::R3K9 => 3900,
        ModuleDetectResistor::R4K3 => 4300,
        ModuleDetectResistor::R4K7 => 4700,
        ModuleDetectResistor::R5K1 => 5100,
        ModuleDetectResistor::R5K6 => 5600,
        ModuleDetectResistor::R6K2 => 6200,
        ModuleDetectResistor::R6K8 => 6800,
        ModuleDetectResistor::R7K5 => 7500,
        ModuleDetectResistor::R8K2 => 8200,
        ModuleDetectResistor::R9K1 => 9100,
        ModuleDetectResistor::R10K => 10000,
        ModuleDetectResistor::R11K => 11000,
        ModuleDetectResistor::R12K => 12000,
        ModuleDetectResistor::R13K => 13000,
        ModuleDetectResistor::R15K => 15000,
        ModuleDetectResistor::R16K => 16000,
        ModuleDetectResistor::R18K => 18000,
        ModuleDetectResistor::R20K => 20000,
        ModuleDetectResistor::R22K => 22000,
        ModuleDetectResistor::R24K => 24000,
        ModuleDetectResistor::R27K => 27000,
        ModuleDetectResistor::R30K => 30000,
        ModuleDetectResistor::R33K => 33000,
        ModuleDetectResistor::R36K => 36000,
        ModuleDetectResistor::R39K => 39000,
        ModuleDetectResistor::R43K => 43000,
        ModuleDetectResistor::R47K => 47000,
        ModuleDetectResistor::R51K => 51000,
        ModuleDetectResistor::R56K => 56000,
        ModuleDetectResistor::R62K => 62000,
        ModuleDetectResistor::R68K => 68000,
        ModuleDetectResistor::R75K => 75000,
        ModuleDetectResistor::R82K => 82000,
        ModuleDetectResistor::R91K => 91000,
        ModuleDetectResistor::R100K => 100000,
    }
}

/// The resistance table used when a measured divider voltage is matched to
/// the closest standard resistor, in the order in which it is searched:
/// each entry pairs a resistor with its own resistance.
pub open spec fn resistor_map() -> Seq<(u32, ModuleDetectResistor)> {
    seq![
        (1000u32, ModuleDetectResistor::R1K),
        (1100u32, ModuleDetectResistor::R1K1),
        (1200u32, ModuleDetectResistor::R1K2),
        (1300u32, ModuleDetectResistor::R1K3),
        (1500u32, ModuleDetectResistor::R1K5),
        (1600u32, ModuleDetectResistor::R1K6),
        (1800u32, ModuleDetectResistor::R1K8),
        (2000u32, ModuleDetectResistor::R2K),
        (2200u32, ModuleDetectResistor::R2K2),
        (2400u32, ModuleDetectResistor::R2K4),
        (2700u32, ModuleDetectResistor::R2K7),
        (3000u32, ModuleDetectResistor::R3K),
        (3300u32, ModuleDetectResistor::R3K3),
        (3600u32, ModuleDetectResistor::R3K6),
        (3900u32, ModuleDetectResistor::R3K9),
        (4300u32, ModuleDetectResistor::R4K3),
        (4700u32, ModuleDetectResistor::R4K7),
        (5100u32, ModuleDetectResistor::R5K1),
        (5600u32, ModuleDetectResistor::R5K6),
        (6200u32, ModuleDetectResistor::R6K2),
        (6800u32, ModuleDetectResistor::R6K8),
        (7500u32, ModuleDetectResistor::R7K5),
        (8200u32, ModuleDetectResistor::R8K2),
        (9100u32, ModuleDetectResistor::R9K1),
        (10000u32, ModuleDetectResistor::R10K),
        (11000u32, ModuleDetectResistor::R11K),
        (12000u32, ModuleDetectResistor::R12K),
        (13000u32, ModuleDetectResistor::R13K),
        (15000u32, ModuleDetectResistor::R15K),
        (16000u32, ModuleDetectResistor::R16K),
        (18000u32, ModuleDetectResistor::R18K),
        (20000u32, ModuleDetectResistor::R20K),
        (22000u32, ModuleDetectResistor::R22K),
        (24000u32, ModuleDetectResistor::R24K),
        (27000u32, ModuleDetectResistor::R27K),
        (30000u32, ModuleDetectResistor::R30K),
        (33000u32, ModuleDetectResistor::R33K),
        (36000u32, ModuleDetectResistor::R36K),
        (39000u32, ModuleDetectResistor::R39K),
        (43000u32, ModuleDetectResistor::R43K),
        (47000u32, ModuleDetectResistor::R47K),
        (51000u32, ModuleDetectResistor::R51K),
        (56000u32, ModuleDetectResistor::R56K),
        (62000u32, ModuleDetectResistor::R62K),
        (68000u32, ModuleDetectResistor::R68K),
        (75000u32, ModuleDetectResistor::R75K),
        (82000u32, ModuleDetectResistor::R82K),
        (91000u32, ModuleDetectResistor::R91K),
        (100000u32, ModuleDetectResistor::R100K),
    ]
}

impl ModuleDetectResistor {
    /// Nominal resistance in ohms.
    pub fn ohms(self) -> (ohms: u32)
        ensures
            ohms == resistor_ohms(self),
    {
        match self {
            ModuleDetectResistor::R1K => 1000,
            ModuleDetectResistor::R1K1 => 1100,
            ModuleDetectResistor::R1K2 => 1200,
            ModuleDetectResistor::R1K3 => 1300,
            ModuleDetectResistor::R1K5 => 1500,
            ModuleDetectResistor::R1K6 => 1600,
            ModuleDetectResistor::R1K8 => 1800,
            ModuleDetectResistor::R2K => 2000,
            ModuleDetectResistor::R2K2 => 2200,
            ModuleDetectResistor::R2K4 => 2400,
            ModuleDetectResistor::R2K7 => 2700,
            ModuleDetectResistor::R3K => 3000,
            ModuleDetectResistor::R3K3 => 3300,
            ModuleDetectResistor::R3K6 => 3600,
            ModuleDetectResistor::R3K9 => 3900,
            ModuleDetectResistor::R4K3 => 4300,
            ModuleDetectResistor::R4K7 => 4700,
            ModuleDetectResistor::R5K1 => 5100,
            ModuleDetectResistor::R5K6 => 5600,
            ModuleDetectResistor::R6K2 => 6200,
            ModuleDetectResistor::R6K8 => 6800,
            ModuleDetectResistor::R7K5 => 7500,
            ModuleDetectResistor::R8K2 => 8200,
            ModuleDetectResistor::R9K1 => 9100,
            ModuleDetectResistor::R10K => 10000,
            ModuleDetectResistor::R11K => 11000,
            ModuleDetectResistor::R12K => 12000,
            ModuleDetectResistor::R13K => 13000,
            ModuleDetectResistor::R15K => 15000,
            ModuleDetectResistor::R16K => 16000,
            ModuleDetectResistor::R18K => 18000,
            ModuleDetectResistor::R20K => 20000,
            ModuleDetectResistor::R22K => 22000,
            ModuleDetectResistor::R24K => 24000,
            ModuleDetectResistor::R27K => 27000,
            ModuleDetectResistor::R30K => 30000,
            ModuleDetectResistor::R33K => 33000,
            ModuleDetectResistor::R36K => 36000,
            ModuleDetectResistor::R39K => 39000,
            ModuleDetectResistor::R43K => 43000,
            ModuleDetectResistor::R47K => 47000,
            ModuleDetectResistor::R51K => 51000,
            ModuleDetectResistor::R56K => 56000,
            ModuleDetectResistor::R62K => 62000,
            ModuleDetectResistor::R68K => 68000,
            ModuleDetectResistor::R75K => 75000,
            ModuleDetectResistor::R82K => 82000,
            ModuleDetectResistor::R91K => 91000,
            ModuleDetectResistor::R100K => 100000,
        }
    }
}

/// Number of entries of the resistance table.
pub const RESISTOR_MAP_LEN: usize = 49;

/// Entry `index` of the resistance table.
pub fn resistor_map_entry(index: usize) -> (entry: (u32, ModuleDetectResistor))
    requires
        index < RESISTOR_MAP_LEN,
    ensures
        entry == resistor_map()[index as int],
{
    let table: [(u32, ModuleDetectResistor); 49] = [
        (1000, ModuleDetectResistor::R1K),
        (1100, ModuleDetectResistor::R1K1),
        (1200, ModuleDetectResistor::R1K2),
        (1300, ModuleDetectResistor::R1K3),
        (1500, ModuleDetectResistor::R1K5),
        (1600, ModuleDetectResistor::R1K6),
        (1800, ModuleDetectResistor::R1K8),
        (2000, ModuleDetectResistor::R2K),
        (2200, ModuleDetectResistor::R2K2),
        (2400, ModuleDetectResistor::R2K4),
        (2700, ModuleDetectResistor::R2K7),
        (3000, ModuleDetectResistor::R3K),
        (3300, ModuleDetectResistor::R3K3),
        (3600, ModuleDetectResistor::R3K6),
        (3900, ModuleDetectResistor::R3K9),
        (4300, ModuleDetectResistor::R4K3),
        (4700, ModuleDetectResistor::R4K7),
        (5100, ModuleDetectResistor::R5K1),
        (5600, ModuleDetectResistor::R5K6),
        (6200, ModuleDetectResistor::R6K2),
        (6800, ModuleDetectResistor::R6K8),
        (7500, ModuleDetectResistor::R7K5),
        (8200, ModuleDetectResistor::R8K2),
        (9100, ModuleDetectResistor::R9K1),
        (10000, ModuleDetectResistor::R10K),
        (11000, ModuleDetectResistor::R11K),
        (12000, ModuleDetectResistor::R12K),
        (13000, ModuleDetectResistor::R13K),
        (15000, ModuleDetectResistor::R15K),
        (16000, ModuleDetectResistor::R16K),
        (18000, ModuleDetectResistor::R18K),
        (20000, ModuleDetectResistor::R20K),
        (22000, ModuleDetectResistor::R22K),
        (24000, ModuleDetectResistor::R24K),
        (27000, ModuleDetectResistor::R27K),
        (30000, ModuleDetectResistor::R30K),
        (33000, ModuleDetectResistor::R33K),
        (36000, ModuleDetectResistor::R36K),
        (39000, ModuleDetectResistor::R39K),
        (43000, ModuleDetectResistor::R43K),
        (47000, ModuleDetectResistor::R47K),
        (51000, ModuleDetectResistor::R51K),
        (56000, ModuleDetectResistor::R56K),
        (62000, ModuleDetectResistor::R62K),
        (68000, ModuleDetectResistor::R68K),
        (75000, ModuleDetectResistor::R75K),
        (82000, ModuleDetectResistor::R82K),
        (91000, ModuleDetectResistor::R91K),
        (100000, ModuleDetectResistor::R100K),
    ];
    proof {
        assert(table@ =~= resistor_map());
    }
    table[index]
}

/// How far table entry `i` lies from a resistance of `milliohms`.
pub open spec fn map_distance(i: int, milliohms: u64) -> int {
    let value = (resistor_map()[i].0 as int) * 1000;
    if value >= milliohms {
        value - milliohms
    } else {
        milliohms - value
    }
}

/// Whether entry `k` of the table is the closest to `milliohms`, and the
/// first of the closest.
pub open spec fn is_closest_entry(k: int, milliohms: u64) -> bool {
    &&& 0 <= k < RESISTOR_MAP_LEN
    &&& forall|j: int| 0 <= j < RESISTOR_MAP_LEN ==> map_distance(k, milliohms) <= #[trigger] map_distance(j, milliohms)
    &&& forall|j: int| 0 <= j < k ==> map_distance(k, milliohms) < #[trigger] map_distance(j, milliohms)
}

/// The standard resistor closest to a resistance of `milliohms`
/// milliohms, the first in table order when two are equally close.
pub fn closest_resistor(milliohms: u64) -> (resistor: ModuleDetectResistor)
    ensures
        exists|k: int| is_closest_entry(k, milliohms) && resistor == resistor_map()[k].1,
{
    let first = resistor_map_entry(0);
    let mut best: usize = 0;
    let mut best_distance: u64 = distance_to(first.0, milliohms);
    let mut i: usize = 1;
    while i < RESISTOR_MAP_LEN
        invariant
            1 <= i <= RESISTOR_MAP_LEN,
            best < i,
            best_distance == map_distance(best as int, milliohms),
            forall|j: int| 0 <= j < i ==> best_distance <= #[trigger] map_distance(j, milliohms),
            forall|j: int| 0 <= j < best ==> best_distance < #[trigger] map_distance(j, milliohms),
        decreases RESISTOR_MAP_LEN - i,
    {
        let entry = resistor_map_entry(i);
        let distance = distance_to(entry.0, milliohms);
        if distance < best_distance {
            best = i;
            best_distance = distance;
        }
        i = i + 1;
    }
    let entry = resistor_map_entry(best);
    proof {
        assert(is_closest_entry(best as int, milliohms));
    }
    entry.1
}

/// The standard resistor of a resistance in ohms, if there is one.
pub open spec fn resistor_of_ohms(ohms: u32) -> Option<ModuleDetectResistor> {
    match ohms {
        1000 => Some(ModuleDetectResistor::R1K),
        1100 => Some(ModuleDetectResistor::R1K1),
        1200 => Some(ModuleDetectResistor::R1K2),
        1300 => Some(ModuleDetectResistor::R1K3),
        1500 => Some(ModuleDetectResistor::R1K5),
        1600 => Some(ModuleDetectResistor::R1K6),
        1800 => Some(ModuleDetectResistor::R1K8),
        2000 => Some(ModuleDetectResistor::R2K),
        2200 => Some(ModuleDetectResistor::R2K2),
        2400 => Some(ModuleDetectResistor::R2K4),
        2700 => Some(ModuleDetectResistor::R2K7),
        3000 => Some(ModuleDetectResistor::R3K),
        3300 => Some(ModuleDetectResistor::R3K3),
        3600 => Some(ModuleDetectResistor::R3K6),
        3900 => Some(ModuleDetectResistor::R3K9),
        4300 => Some(ModuleDetectResistor::R4K3),
        4700 => Some(ModuleDetectResistor::R4K7),
        5100 => Some(ModuleDetectResistor::R5K1),
        5600 => Some(ModuleDetectResistor::R5K6),
        6200 => Some(ModuleDetectResistor::R6K2),
        6800 => Some(ModuleDetectResistor::R6K8),
        7500 => Some(ModuleDetectResistor::R7K5),
        8200 => Some(ModuleDetectResistor::R8K2),
        9100 => Some(ModuleDetectResistor::R9K1),
        10000 => Some(ModuleDetectResistor::R10K),
        11000 => Some(ModuleDetectResistor::R11K),
        12000 => Some(ModuleDetectResistor::R12K),
        13000 => Some(ModuleDetectResistor::R13K),
        15000 => Some(ModuleDetectResistor::R15K),
        16000 => Some(ModuleDetectResistor::R16K),
        18000 => Some(ModuleDetectResistor::R18K),
        20000 => Some(ModuleDetectResistor::R20K),
        22000 => Some(ModuleDetectResistor::R22K),
        24000 => Some(ModuleDetectResistor::R24K),
        27000 => Some(ModuleDetectResistor::R27K),
        30000 => Some(ModuleDetectResistor::R30K),
        33000 => Some(ModuleDetectResistor::R33K),
        36000 => Some(ModuleDetectResistor::R36K),
        39000 => Some(ModuleDetectResistor::R39K),
        43000 => Some(ModuleDetectResistor::R43K),
        47000 => Some(ModuleDetectResistor::R47K),
        51000 => Some(ModuleDetectResistor::R51K),
        56000 => Some(ModuleDetectResistor::R56K),
        62000 => Some(ModuleDetectResistor::R62K),
        68000 => Some(ModuleDetectResistor::R68K),
        75000 => Some(ModuleDetectResistor::R75K),
        82000 => Some(ModuleDetectResistor::R82K),
        91000 => Some(ModuleDetectResistor::R91K),
        100000 => Some(ModuleDetectResistor::R100K),
        _ => None,
    }
}

/// Each table entry pairs a resistor with its own resistance, every
/// resistor is listed, and a resistor is determined by its resistance.
proof fn lemma_resistor_table(r: ModuleDetectResistor)
    ensures
        forall|i: int| 0 <= i < RESISTOR_MAP_LEN ==> #[trigger] resistor_map()[i].0 == resistor_ohms(resistor_map()[i].1),
        exists|i: int| 0 <= i < RESISTOR_MAP_LEN && #[trigger] resistor_map()[i].1 == r,
        forall|q: ModuleDetectResistor| #[trigger] resistor_of_ohms(resistor_ohms(q)) == Some(q),
{
    assert forall|i: int| 0 <= i < RESISTOR_MAP_LEN implies #[trigger] resistor_map()[i].0 == resistor_ohms(resistor_map()[i].1) by {
        if i == 0 {
        } else if i == 1 {
        } else if i == 2 {
        } else if i == 3 {
        } else if i == 4 {
        } else if i == 5 {
        } else if i == 6 {
        } else if i == 7 {
        } else if i == 8 {
        } else if i == 9 {
        } else if i == 10 {
        } else if i == 11 {
        } else if i == 12 {
        } else if i == 13 {
        } else if i == 14 {
        } else if i == 15 {
        } else if i == 16 {
        } else if i == 17 {
        } else if i == 18 {
        } else if i == 19 {
        } else if i == 20 {
        } else if i == 21 {
        } else if i == 22 {
        } else if i == 23 {
        } else if i == 24 {
        } else if i == 25 {
        } else if i == 26 {
        } else if i == 27 {
        } else if i == 28 {
        } else if i == 29 {
        } else if i == 30 {
        } else if i == 31 {
        } else if i == 32 {
        } else if i == 33 {
        } else if i == 34 {
        } else if i == 35 {
        } else if i == 36 {
        } else if i == 37 {
        } else if i == 38 {
        } else if i == 39 {
        } else if i == 40 {
        } else if i == 41 {
        } else if i == 42 {
        } else if i == 43 {
        } else if i == 44 {
        } else if i == 45 {
        } else if i == 46 {
        } else if i == 47 {
        } else if i == 48 {
        }
    }
    match r {
        ModuleDetectResistor::R1K => assert(resistor_map()[0].1 == r),
        ModuleDetectResistor::R1K1 => assert(resistor_map()[1].1 == r),
        ModuleDetectResistor::R1K2 => assert(resistor_map()[2].1 == r),
        ModuleDetectResistor::R1K3 => assert(resistor_map()[3].1 == r),
        ModuleDetectResistor::R1K5 => assert(resistor_map()[4].1 == r),
        ModuleDetectResistor::R1K6 => assert(resistor_map()[5].1 == r),
        ModuleDetectResistor::R1K8 => assert(resistor_map()[6].1 == r),
        ModuleDetectResistor::R2K => assert(resistor_map()[7].1 == r),
        ModuleDetectResistor::R2K2 => assert(resistor_map()[8].1 == r),
        ModuleDetectResistor::R2K4 => assert(resistor_map()[9].1 == r),
        ModuleDetectResistor::R2K7 => assert(resistor_map()[10].1 == r),
        ModuleDetectResistor::R3K => assert(resistor_map()[11].1 == r),
        ModuleDetectResistor::R3K3 => assert(resistor_map()[12].1 == r),
        ModuleDetectResistor::R3K6 => assert(resistor_map()[13].1 == r),
        ModuleDetectResistor::R3K9 => assert(resistor_map()[14].1 == r),
        ModuleDetectResistor::R4K3 => assert(resistor_map()[15].1 == r),
        ModuleDetectResistor::R4K7 => assert(resistor_map()[16].1 == r),
        ModuleDetectResistor::R5K1 => assert(resistor_map()[17].1 == r),
        ModuleDetectResistor::R5K6 => assert(resistor_map()[18].1 == r),
        ModuleDetectResistor::R6K2 => assert(resistor_map()[19].1 == r),
        ModuleDetectResistor::R6K8 => assert(resistor_map()[20].1 == r),
        ModuleDetectResistor::R7K5 => assert(resistor_map()[21].1 == r),
        ModuleDetectResistor::R8K2 => assert(resistor_map()[22].1 == r),
        ModuleDetectResistor::R9K1 => assert(resistor_map()[23].1 == r),
        ModuleDetectResistor::R10K => assert(resistor_map()[24].1 == r),
        ModuleDetectResistor::R11K => assert(resistor_map()[25].1 == r),
        ModuleDetectResistor::R12K => assert(resistor_map()[26].1 == r),
        ModuleDetectResistor::R13K => assert(resistor_map()[27].1 == r),
        ModuleDetectResistor::R15K => assert(resistor_map()[28].1 == r),
        ModuleDetectResistor::R16K => assert(resistor_map()[29].1 == r),
        ModuleDetectResistor::R18K => assert(resistor_map()[30].1 == r),
        ModuleDetectResistor::R20K => assert(resistor_map()[31].1 == r),
        ModuleDetectResistor::R22K => assert(resistor_map()[32].1 == r),
        ModuleDetectResistor::R24K => assert(resistor_map()[33].1 == r),
        ModuleDetectResistor::R27K => assert(resistor_map()[34].1 == r),
        ModuleDetectResistor::R30K => assert(resistor_map()[35].1 == r),
        ModuleDetectResistor::R33K => assert(resistor_map()[36].1 == r),
        ModuleDetectResistor::R36K => assert(resistor_map()[37].1 == r),
        ModuleDetectResistor::R39K => assert(resistor_map()[38].1 == r),
        ModuleDetectResistor::R43K => assert(resistor_map()[39].1 == r),
        ModuleDetectResistor::R47K => assert(resistor_map()[40].1 == r),
        ModuleDetectResistor::R51K => assert(resistor_map()[41].1 == r),
        ModuleDetectResistor::R56K => assert(resistor_map()[42].1 == r),
        ModuleDetectResistor::R62K => assert(resistor_map()[43].1 == r),
        ModuleDetectResistor::R68K => assert(resistor_map()[44].1 == r),
        ModuleDetectResistor::R75K => assert(resistor_map()[45].1 == r),
        ModuleDetectResistor::R82K => assert(resistor_map()[46].1 == r),
        ModuleDetectResistor::R91K => assert(resistor_map()[47].1 == r),
        ModuleDetectResistor::R100K => assert(resistor_map()[48].1 == r),
    }
}

/// A resistance that is exactly a standard value is matched to that
/// resistor: the detection reads back the resistor that produced it.
pub proof fn lemma_standard_resistance_matches(r: ModuleDetectResistor)
    ensures
        950_000 <= resistor_ohms(r) * 1000 <= 105_000_000,
        forall|k: int| is_closest_entry(k, (resistor_ohms(r) * 1000) as u64) ==> resistor_map()[k].1 == r,
{
    lemma_resistor_table(r);
    let m = (resistor_ohms(r) * 1000) as u64;
    let i = choose|i: int| 0 <= i < RESISTOR_MAP_LEN && #[trigger] resistor_map()[i].1 == r;
    assert(resistor_map()[i].0 == resistor_ohms(r));
    assert(map_distance(i, m) == 0);
    assert forall|k: int| is_closest_entry(k, m) implies resistor_map()[k].1 == r by {
        assert(map_distance(k, m) <= map_distance(i, m));
        assert(resistor_map()[k].0 == resistor_ohms(resistor_map()[k].1));
        assert(resistor_of_ohms(resistor_ohms(resistor_map()[k].1)) == Some(resistor_map()[k].1));
        assert(resistor_of_ohms(resistor_ohms(r)) == Some(r));
    }
}

/// The distance between `ohms` ohms and `milliohms` milliohms, in
/// milliohms.
fn distance_to(ohms: u32, milliohms: u64) -> (distance: u64)
    ensures
        distance == if (ohms as int) * 1000 >= milliohms { (ohms as int) * 1000 - milliohms } else { milliohms - (ohms as int) * 1000 },
{
    let value = (ohms as u64) * 1000;
    if value >= milliohms {
        value - milliohms
    } else {
        milliohms - value
    }
}

/// The standard resistor for a computed detection resistance of
/// `milliohms` milliohms: `None` outside 950 Ω to 105 kΩ, else the closest
/// table entry.
pub fn resistor_from_milliohms(milliohms: u64) -> (resistor: Option<ModuleDetectResistor>)
    ensures
        milliohms < 950_000 || milliohms > 105_000_000 ==> resistor is None,
        950_000 <= milliohms <= 105_000_000 ==> exists|k: int|
            is_closest_entry(k, milliohms) && resistor == Some(resistor_map()[k].1),
        forall|r: ModuleDetectResistor| milliohms == #[trigger] resistor_ohms(r) * 1000 ==> resistor == Some(r),
{
    if milliohms < 950_000 || milliohms > 105_000_000 {
        proof {
            assert forall|r: ModuleDetectResistor| milliohms == #[trigger] resistor_ohms(r) * 1000 implies false by {
                lemma_standard_resistance_matches(r);
            }
        }
        return None;
    }
    let resistor = closest_resistor(milliohms);
    proof {
        assert forall|r: ModuleDetectResistor| milliohms == #[trigger] resistor_ohms(r) * 1000 implies Some(resistor) == Some(r) by {
            lemma_standard_resistance_matches(r);
        }
    }
    Some(resistor)
}

} // verus!
