use esp_ahrs_probe::hmc5883l::{
    decode_measurement, Hmc5883l, InitAction, InitStage, RawMagneticField, HMC5883L_ADDRESS,
};

#[test]
fn new_uses_fixed_address() {
    let mut dev = Hmc5883l::new(42u32);
    assert_eq!(dev.address(), 0x1E);
    assert_eq!(HMC5883L_ADDRESS, 0x1E);
    assert_eq!(*dev.bus_mut(), 42);
    *dev.bus_mut() = 7;
    assert_eq!(*dev.bus_mut(), 7);
    assert_eq!(dev.address(), 0x1E);
}

fn run(outcomes: &[bool]) -> (Vec<InitAction>, InitStage) {
    let mut stage = InitStage::start();
    let mut actions = Vec::new();
    for ok in outcomes {
        actions.push(stage.action());
        stage = stage.next(*ok);
    }
    (actions, stage)
}

#[test]
fn init_writes_configuration_in_order() {
    let (actions, stage) = run(&[true, true, true, true]);
    assert_eq!(
        actions,
        vec![
            InitAction::WriteRegister { reg: 0x00, value: 0x70 },
            InitAction::WriteRegister { reg: 0x01, value: 0x20 },
            InitAction::WriteRegister { reg: 0x02, value: 0x00 },
            InitAction::DelayMs { ms: 10 },
        ]
    );
    assert_eq!(stage, InitStage::Ready);
    assert_eq!(stage.action(), InitAction::Finished);
    assert!(stage.is_done());
}

#[test]
fn init_stops_at_first_failed_write() {
    let (actions, stage) = run(&[true, false, true, true]);
    assert_eq!(actions[2], InitAction::Aborted);
    assert_eq!(actions[3], InitAction::Aborted);
    assert_eq!(stage, InitStage::Failed);
    assert!(stage.is_done());

    let (_, stage) = run(&[false]);
    assert_eq!(stage, InitStage::Failed);
    let (_, stage) = run(&[true, true, false, true]);
    assert_eq!(stage, InitStage::Failed);
}

#[test]
fn init_settle_cannot_fail() {
    let (_, stage) = run(&[true, true, true, false]);
    assert_eq!(stage, InitStage::Ready);
    assert!(!InitStage::start().is_done());
}

#[test]
fn decode_measurement_reads_x_z_y_big_endian() {
    let f = decode_measurement(&[0x01, 0x02, 0xFF, 0xFE, 0x80, 0x00]);
    assert_eq!(f, RawMagneticField { x: 258, y: -32768, z: -2 });
    let g = decode_measurement(&[0x7F, 0xFF, 0x00, 0x00, 0xF0, 0x00]);
    assert_eq!(g.x, i16::MAX);
    assert_eq!(g.z, 0);
    assert_eq!(g.y, -4096);
}
