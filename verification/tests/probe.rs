use esp_ahrs_probe::probe::{
    sample_due, BringUpAction, BringUpStage, CycleAction, CycleStage, SAMPLE_INTERVAL_US,
};

fn bring_up(outcomes: &[bool]) -> (Vec<BringUpAction>, BringUpStage) {
    let mut stage = BringUpStage::start();
    let mut actions = Vec::new();
    for ok in outcomes {
        actions.push(stage.action());
        stage = stage.next(*ok);
    }
    (actions, stage)
}

#[test]
fn bring_up_enables_bypass_in_order() {
    let (actions, stage) = bring_up(&[true, true, true, true]);
    assert_eq!(
        actions,
        vec![
            BringUpAction::InitMpu,
            BringUpAction::WriteMpuRegister { reg: 0x6A, value: 0x00 },
            BringUpAction::WriteMpuRegister { reg: 0x37, value: 0x02 },
            BringUpAction::DelayMs { ms: 10 },
        ]
    );
    assert_eq!(stage, BringUpStage::Ready);
    assert_eq!(stage.action(), BringUpAction::Finished);
}

#[test]
fn bring_up_halts_at_first_failure() {
    let (actions, stage) = bring_up(&[true, false, true, true]);
    assert_eq!(actions[2], BringUpAction::Halt);
    assert_eq!(stage, BringUpStage::Halted);
    assert_eq!(bring_up(&[false]).1, BringUpStage::Halted);
    assert_eq!(bring_up(&[true, true, false]).1, BringUpStage::Halted);
    assert_eq!(bring_up(&[true, true, true, false]).1, BringUpStage::Ready);
}

#[test]
fn sample_is_due_after_the_interval() {
    assert_eq!(SAMPLE_INTERVAL_US, 10_000);
    assert!(!sample_due(0));
    assert!(!sample_due(9_999));
    assert!(sample_due(10_000));
    assert!(sample_due(250_000));
}

fn cycle(outcomes: &[bool]) -> (Vec<CycleAction>, CycleStage) {
    let mut stage = CycleStage::start();
    let mut actions = Vec::new();
    for ok in outcomes {
        actions.push(stage.action());
        stage = stage.next(*ok);
    }
    (actions, stage)
}

#[test]
fn cycle_estimates_after_three_reads() {
    let (actions, stage) = cycle(&[true, true, true, false]);
    assert_eq!(
        actions,
        vec![
            CycleAction::ReadAccel,
            CycleAction::ReadGyro,
            CycleAction::ReadMag,
            CycleAction::Estimate,
        ]
    );
    assert_eq!(stage, CycleStage::Done);
    assert_eq!(stage.action(), CycleAction::Finished);
}

#[test]
fn cycle_skips_after_failed_read() {
    let (actions, stage) = cycle(&[true, false, true, true]);
    assert_eq!(actions[2], CycleAction::Skip);
    assert_eq!(actions[3], CycleAction::Skip);
    assert_eq!(stage, CycleStage::Skipped);
    assert_eq!(cycle(&[false]).1, CycleStage::Skipped);
    assert_eq!(cycle(&[true, true, false]).1, CycleStage::Skipped);
}
