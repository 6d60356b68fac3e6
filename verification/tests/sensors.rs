use esp_ahrs_probe::sensors::{Gy86Module, Level, PinWrite, SupplyPin};

#[test]
fn module_starts_unpowered() {
    let m = Gy86Module::new();
    assert_eq!(m.level(SupplyPin::VccIn), Level::Low);
    assert_eq!(m.level(SupplyPin::V3_3), Level::Low);
    assert_eq!(m.level(SupplyPin::Gnd), Level::Low);
}

#[test]
fn power_on_grounds_first_then_raises_supplies() {
    let mut m = Gy86Module::new();
    let ws = m.power_on();
    assert_eq!(
        ws,
        [
            PinWrite { pin: SupplyPin::Gnd, level: Level::Low },
            PinWrite { pin: SupplyPin::V3_3, level: Level::High },
            PinWrite { pin: SupplyPin::VccIn, level: Level::High },
        ]
    );
    assert_eq!(m.level(SupplyPin::VccIn), Level::High);
    assert_eq!(m.level(SupplyPin::V3_3), Level::High);
    assert_eq!(m.level(SupplyPin::Gnd), Level::Low);
}

#[test]
fn power_off_drops_vcc_first() {
    let mut m = Gy86Module::new();
    m.power_on();
    let ws = m.power_off();
    assert_eq!(
        ws,
        [
            PinWrite { pin: SupplyPin::VccIn, level: Level::Low },
            PinWrite { pin: SupplyPin::V3_3, level: Level::Low },
            PinWrite { pin: SupplyPin::Gnd, level: Level::Low },
        ]
    );
    for pin in [SupplyPin::VccIn, SupplyPin::V3_3, SupplyPin::Gnd] {
        assert_eq!(m.level(pin), Level::Low);
    }
}
