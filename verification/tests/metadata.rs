use xpanse::metadata::{closest_resistor, resistor_from_milliohms, resistor_map_entry, ModuleDetectResistor};

#[test]
fn resistor_values() {
    assert_eq!(ModuleDetectResistor::R4K7.ohms(), 4_700);
    assert_eq!(ModuleDetectResistor::R100K.ohms(), 100_000);
    assert_eq!(resistor_map_entry(0), (1_000, ModuleDetectResistor::R1K));
    assert_eq!(resistor_map_entry(48), (100_000, ModuleDetectResistor::R100K));
}

#[test]
fn closest_standard_resistor() {
    // 10 kΩ pull-down at half of AVDD: 10 kΩ.
    assert_eq!(resistor_from_milliohms(10_000_000), Some(ModuleDetectResistor::R10K));
    assert_eq!(closest_resistor(4_650_000), ModuleDetectResistor::R4K7);
    // Exactly between 1.0 kΩ and 1.1 kΩ: the first wins.
    assert_eq!(closest_resistor(1_050_000), ModuleDetectResistor::R1K);
    assert_eq!(closest_resistor(43_100_000), ModuleDetectResistor::R43K);
    assert_eq!(resistor_from_milliohms(949_999), None);
    assert_eq!(resistor_from_milliohms(105_000_001), None);
    assert_eq!(resistor_from_milliohms(105_000_000), Some(ModuleDetectResistor::R100K));
}

#[test]
fn every_standard_resistance_reads_back() {
    for i in 0..49 {
        let (ohms, resistor) = resistor_map_entry(i);
        assert_eq!(resistor.ohms(), ohms);
        assert_eq!(resistor_from_milliohms(u64::from(ohms) * 1000), Some(resistor));
    }
    assert_eq!(resistor_from_milliohms(43_000_000), Some(ModuleDetectResistor::R43K));
}
