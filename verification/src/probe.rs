use vstd::prelude::*;

verus! {

/// MPU-6050 user control register.
pub const MPU_REG_USER_CTRL: u8 = 0x6a;

/// User control value that turns the MPU-6050's own I2C master off.
pub const USER_CTRL_MASTER_OFF: u8 = 0x00;

/// MPU-6050 interrupt pin configuration register.
pub const MPU_REG_INT_PIN_CFG: u8 = 0x37;

/// Interrupt pin configuration value that enables the auxiliary I2C bypass,
/// which puts the HMC5883L on the main bus.
pub const INT_PIN_CFG_BYPASS_EN: u8 = 0x02;

/// Time given to the bus after the bypass is enabled, in milliseconds.
pub const BYPASS_SETTLE_MS: u8 = 10;

/// Period of the sampling loop, in microseconds.
pub const SAMPLE_INTERVAL_US: u64 = 10_000;

/// Where the bring-up of the MPU-6050 stands.
#[derive(Clone, Copy, Debug, PartialEq, Eq, Structural)]
pub enum BringUpStage {
    /// The MPU-6050 is to be initialised.
    InitMpu,
    /// Its I2C master is to be turned off.
    MasterOff,
    /// The auxiliary bus bypass is to be enabled.
    EnableBypass,
    /// The bus is given time to settle.
    Settle,
    /// The MPU-6050 is up and the magnetometer reachable.
    Ready,
    /// A step failed; the probe stops there.
    Halted,
}

/// What the probe asks its caller to do next while bringing up the MPU-6050.
#[derive(Clone, Copy, Debug, PartialEq, Eq, Structural)]
pub enum BringUpAction {
    /// Initialise the MPU-6050 (wake it and set its ranges).
    InitMpu,
    /// Write `value` to the MPU-6050 register `reg`.
    WriteMpuRegister { reg: u8, value: u8 },
    /// Wait `ms` milliseconds.
    DelayMs { ms: u8 },
    /// Bring-up is complete.
    Finished,
    /// Bring-up failed: report the error and stop.
    Halt,
}

impl BringUpStage {
    /// The action that belongs to each stage.
    pub open spec fn spec_action(self) -> BringUpAction {
        match self {
            BringUpStage::InitMpu => BringUpAction::InitMpu,
            BringUpStage::MasterOff => BringUpAction::WriteMpuRegister { reg: MPU_REG_USER_CTRL, value: USER_CTRL_MASTER_OFF },
            BringUpStage::EnableBypass => BringUpAction::WriteMpuRegister { reg: MPU_REG_INT_PIN_CFG, value: INT_PIN_CFG_BYPASS_EN },
            BringUpStage::Settle => BringUpAction::DelayMs { ms: BYPASS_SETTLE_MS },
            BringUpStage::Ready => BringUpAction::Finished,
            BringUpStage::Halted => BringUpAction::Halt,
        }
    }

    /// The stage after this one's action, which `succeeded` or not. Any
    /// failed step halts; a wait cannot fail; the final stages stay.
    pub open spec fn spec_next(self, succeeded: bool) -> BringUpStage {
        match self {
            BringUpStage::InitMpu => if succeeded { BringUpStage::MasterOff } else { BringUpStage::Halted },
            BringUpStage::MasterOff => if succeeded { BringUpStage::EnableBypass } else { BringUpStage::Halted },
            BringUpStage::EnableBypass => if succeeded { BringUpStage::Settle } else { BringUpStage::Halted },
            BringUpStage::Settle => BringUpStage::Ready,
            BringUpStage::Ready => BringUpStage::Ready,
            BringUpStage::Halted => BringUpStage::Halted,
        }
    }

    /// The stage reached from `self` when the actions on the way have the
    /// given outcomes, in order.
    pub open spec fn run(self, outcomes: Seq<bool>) -> BringUpStage
        decreases outcomes.len(),
    {
        if outcomes.len() == 0 {
            self
        } else {
            self.spec_next(outcomes[0]).run(outcomes.drop_first())
        }
    }

    /// The actions asked for from `self` when the actions on the way have the
    /// given outcomes, in order.
    pub open spec fn trace(self, outcomes: Seq<bool>) -> Seq<BringUpAction>
        decreases outcomes.len(),
    {
        if outcomes.len() == 0 {
            Seq::empty()
        } else {
            seq![self.spec_action()] + self.spec_next(outcomes[0]).trace(outcomes.drop_first())
        }
    }

    /// The first stage of bring-up.
    pub fn start() -> (s: Self)
        ensures
            s == BringUpStage::InitMpu,
    {
        BringUpStage::InitMpu
    }

    /// The action of this stage.
    pub fn action(&self) -> (a: BringUpAction)
        ensures
            a == self.spec_action(),
    {
        match self {
            BringUpStage::InitMpu => BringUpAction::InitMpu,
            BringUpStage::MasterOff => BringUpAction::WriteMpuRegister { reg: MPU_REG_USER_CTRL, value: USER_CTRL_MASTER_OFF },
            BringUpStage::EnableBypass => BringUpAction::WriteMpuRegister { reg: MPU_REG_INT_PIN_CFG, value: INT_PIN_CFG_BYPASS_EN },
            BringUpStage::Settle => BringUpAction::DelayMs { ms: BYPASS_SETTLE_MS },
            BringUpStage::Ready => BringUpAction::Finished,
            BringUpStage::Halted => BringUpAction::Halt,
        }
    }

    /// The stage after this one's action, which `succeeded` or not.
    pub fn next(self, succeeded: bool) -> (s: Self)
        ensures
            s == self.spec_next(succeeded),
    {
        match self {
            BringUpStage::InitMpu => if succeeded { BringUpStage::MasterOff } else { BringUpStage::Halted },
            BringUpStage::MasterOff => if succeeded { BringUpStage::EnableBypass } else { BringUpStage::Halted },
            BringUpStage::EnableBypass => if succeeded { BringUpStage::Settle } else { BringUpStage::Halted },
            BringUpStage::Settle => BringUpStage::Ready,
            BringUpStage::Ready => BringUpStage::Ready,
            BringUpStage::Halted => BringUpStage::Halted,
        }
    }
}

/// Once bring-up is over, successfully or not, it stays so.
pub proof fn lemma_bring_up_final_stages_absorb(stage: BringUpStage, outcomes: Seq<bool>)
    requires
        stage == BringUpStage::Ready || stage == BringUpStage::Halted,
    ensures
        stage.run(outcomes) == stage,
    decreases outcomes.len(),
{
    if outcomes.len() > 0 {
        lemma_bring_up_final_stages_absorb(stage.spec_next(outcomes[0]), outcomes.drop_first());
    }
}

/// Bring-up succeeds exactly when the initialisation and both register
/// writes succeed, and halts at the first step that fails.
pub proof fn lemma_bring_up_outcome(outcomes: Seq<bool>)
    requires
        outcomes.len() >= 4,
    ensures
        BringUpStage::InitMpu.run(outcomes) == (if outcomes[0] && outcomes[1] && outcomes[2] {
            BringUpStage::Ready
        } else {
            BringUpStage::Halted
        }),
{
    let o1 = outcomes.drop_first();
    let o2 = o1.drop_first();
    let o3 = o2.drop_first();
    let o4 = o3.drop_first();
    let s1 = BringUpStage::InitMpu.spec_next(outcomes[0]);
    let s2 = s1.spec_next(o1[0]);
    let s3 = s2.spec_next(o2[0]);
    let s4 = s3.spec_next(o3[0]);
    assert(BringUpStage::InitMpu.run(outcomes) == s1.run(o1));
    assert(s1.run(o1) == s2.run(o2));
    assert(s2.run(o2) == s3.run(o3));
    assert(s3.run(o3) == s4.run(o4));
    lemma_bring_up_final_stages_absorb(s4, o4);
}

/// When every step succeeds, the probe asks exactly for: initialising the
/// MPU-6050, its I2C master turned off, the auxiliary bypass enabled, a 10 ms
/// wait; and then reports completion.
pub proof fn lemma_bring_up_success_trace()
    ensures
        BringUpStage::InitMpu.trace(seq![true, true, true, true]) == seq![
            BringUpAction::InitMpu,
            BringUpAction::WriteMpuRegister { reg: 0x6a, value: 0x00 },
            BringUpAction::WriteMpuRegister { reg: 0x37, value: 0x02 },
            BringUpAction::DelayMs { ms: 10 },
        ],
        BringUpStage::InitMpu.run(seq![true, true, true, true]).spec_action() == BringUpAction::Finished,
{
    let o = seq![true, true, true, true];
    assert(o.drop_first() =~= seq![true, true, true]);
    assert(o.drop_first().drop_first() =~= seq![true, true]);
    assert(o.drop_first().drop_first().drop_first() =~= seq![true]);
    assert(o.drop_first().drop_first().drop_first().drop_first() =~= Seq::<bool>::empty());
    reveal_with_fuel(BringUpStage::trace, 5);
    reveal_with_fuel(BringUpStage::run, 5);
    assert(BringUpStage::InitMpu.trace(o) =~= seq![
        BringUpAction::InitMpu,
        BringUpAction::WriteMpuRegister { reg: 0x6a, value: 0x00 },
        BringUpAction::WriteMpuRegister { reg: 0x37, value: 0x02 },
        BringUpAction::DelayMs { ms: 10 },
    ]);
}

/// Whether a sampling cycle is due, `elapsed_us` microseconds after the last
/// one began.
pub fn sample_due(elapsed_us: u64) -> (due: bool)
    ensures
        due <==> elapsed_us >= SAMPLE_INTERVAL_US,
{
    elapsed_us >= SAMPLE_INTERVAL_US
}

/// Where one sampling cycle stands.
#[derive(Clone, Copy, Debug, PartialEq, Eq, Structural)]
pub enum CycleStage {
    /// The accelerometer is to be read.
    ReadAccel,
    /// The gyroscope is to be read.
    ReadGyro,
    /// The magnetometer is to be read.
    ReadMag,
    /// The filter is to be run on the three readings.
    Estimate,
    /// The cycle is complete.
    Done,
    /// A read failed; the rest of the cycle is skipped.
    Skipped,
}

/// What the probe asks its caller to do next in a sampling cycle.
#[derive(Clone, Copy, Debug, PartialEq, Eq, Structural)]
pub enum CycleAction {
    ReadAccel,
    ReadGyro,
    ReadMag,
    /// Run the filter's prediction and update on the readings; their errors
    /// are reported and do not stop the probe.
    Estimate,
    /// The cycle is over.
    Finished,
    /// Report the failed read and wait for the next cycle.
    Skip,
}

impl CycleStage {
    /// The action that belongs to each stage.
    pub open spec fn spec_action(self) -> CycleAction {
        match self {
            CycleStage::ReadAccel => CycleAction::ReadAccel,
            CycleStage::ReadGyro => CycleAction::ReadGyro,
            CycleStage::ReadMag => CycleAction::ReadMag,
            CycleStage::Estimate => CycleAction::Estimate,
            CycleStage::Done => CycleAction::Finished,
            CycleStage::Skipped => CycleAction::Skip,
        }
    }

    /// The stage after this one's action, which `succeeded` or not. A failed
    /// read skips the rest of the cycle; the filter's own failures are only
    /// reported; the final stages stay.
    pub open spec fn spec_next(self, succeeded: bool) -> CycleStage {
        match self {
            CycleStage::ReadAccel => if succeeded { CycleStage::ReadGyro } else { CycleStage::Skipped },
            CycleStage::ReadGyro => if succeeded { CycleStage::ReadMag } else { CycleStage::Skipped },
            CycleStage::ReadMag => if succeeded { CycleStage::Estimate } else { CycleStage::Skipped },
            CycleStage::Estimate => CycleStage::Done,
            CycleStage::Done => CycleStage::Done,
            CycleStage::Skipped => CycleStage::Skipped,
        }
    }

    /// The stage reached from `self` when the actions on the way have the
    /// given outcomes, in order.
    pub open spec fn run(self, outcomes: Seq<bool>) -> CycleStage
        decreases outcomes.len(),
    {
        if outcomes.len() == 0 {
            self
        } else {
            self.spec_next(outcomes[0]).run(outcomes.drop_first())
        }
    }

    /// The first stage of a cycle.
    pub fn start() -> (s: Self)
        ensures
            s == CycleStage::ReadAccel,
    {
        CycleStage::ReadAccel
    }

    /// The action of this stage.
    pub fn action(&self) -> (a: CycleAction)
        ensures
            a == self.spec_action(),
    {
        match self {
            CycleStage::ReadAccel => CycleAction::ReadAccel,
            CycleStage::ReadGyro => CycleAction::ReadGyro,
            CycleStage::ReadMag => CycleAction::ReadMag,
            CycleStage::Estimate => CycleAction::Estimate,
            CycleStage::Done => CycleAction::Finished,
            CycleStage::Skipped => CycleAction::Skip,
        }
    }

    /// The stage after this one's action, which `succeeded` or not.
    pub fn next(self, succeeded: bool) -> (s: Self)
        ensures
            s == self.spec_next(succeeded),
    {
        match self {
            CycleStage::ReadAccel => if succeeded { CycleStage::ReadGyro } else { CycleStage::Skipped },
            CycleStage::ReadGyro => if succeeded { CycleStage::ReadMag } else { CycleStage::Skipped },
            CycleStage::ReadMag => if succeeded { CycleStage::Estimate } else { CycleStage::Skipped },
            CycleStage::Estimate => CycleStage::Done,
            CycleStage::Done => CycleStage::Done,
            CycleStage::Skipped => CycleStage::Skipped,
        }
    }
}

/// Once a cycle is over, completed or skipped, it stays so.
pub proof fn lemma_cycle_final_stages_absorb(stage: CycleStage, outcomes: Seq<bool>)
    requires
        stage == CycleStage::Done || stage == CycleStage::Skipped,
    ensures
        stage.run(outcomes) == stage,
    decreases outcomes.len(),
{
    if outcomes.len() > 0 {
        lemma_cycle_final_stages_absorb(stage.spec_next(outcomes[0]), outcomes.drop_first());
    }
}

/// The filter is run in a cycle exactly when all three reads succeed; any
/// failed read skips the cycle, and a cycle that reaches the filter completes
/// whatever the filter reports.
pub proof fn lemma_cycle_outcome(outcomes: Seq<bool>)
    requires
        outcomes.len() >= 3,
    ensures
        CycleStage::ReadAccel.run(outcomes.take(3)) == (if outcomes[0] && outcomes[1] && outcomes[2] {
            CycleStage::Estimate
        } else {
            CycleStage::Skipped
        }),
        outcomes.len() >= 4 ==> CycleStage::ReadAccel.run(outcomes) == (if outcomes[0] && outcomes[1] && outcomes[2] {
            CycleStage::Done
        } else {
            CycleStage::Skipped
        }),
{
    let t = outcomes.take(3);
    assert(t.drop_first() =~= seq![outcomes[1], outcomes[2]]);
    assert(t.drop_first().drop_first() =~= seq![outcomes[2]]);
    assert(t.drop_first().drop_first().drop_first() =~= Seq::<bool>::empty());
    reveal_with_fuel(CycleStage::run, 4);
    let s1 = CycleStage::ReadAccel.spec_next(outcomes[0]);
    let s2 = s1.spec_next(outcomes[1]);
    let s3 = s2.spec_next(outcomes[2]);
    assert(CycleStage::ReadAccel.run(t) == s3);
    if outcomes.len() >= 4 {
        let o1 = outcomes.drop_first();
        let o2 = o1.drop_first();
        let o3 = o2.drop_first();
        let o4 = o3.drop_first();
        let s4 = s3.spec_next(o3[0]);
        assert(CycleStage::ReadAccel.run(outcomes) == s1.run(o1));
        assert(s1.run(o1) == s2.run(o2));
        assert(s2.run(o2) == s3.run(o3));
        assert(s3.run(o3) == s4.run(o4));
        lemma_cycle_final_stages_absorb(s4, o4);
    }
}

} // verus!
