use vstd::prelude::*;

verus! {

/// Seven-bit I2C address of the HMC5883L.
pub const HMC5883L_ADDRESS: u8 = 0x1e;

/// Configuration register A.
pub const REG_CONFIG_A: u8 = 0x00;

/// Configuration register B.
pub const REG_CONFIG_B: u8 = 0x01;

/// Mode register.
pub const REG_MODE: u8 = 0x02;

/// First data register; the six data registers follow it.
pub const REG_DATA_X_MSB: u8 = 0x03;

/// Register A value: 8 samples averaged, 15 Hz output rate.
pub const CONFIG_A_AVG_8_15HZ: u8 = 0x70;

/// Register B value: gain for a range of +-1.3 Ga.
pub const CONFIG_B_GAIN_1_3_GA: u8 = 0x20;

/// Mode register value: continuous measurement.
pub const MODE_CONTINUOUS: u8 = 0x00;

/// Time the sensor is given after configuration, in milliseconds.
pub const INIT_SETTLE_MS: u8 = 10;

/// Number of data bytes in one measurement.
pub const MEASUREMENT_LEN: usize = 6;

/// HMC5883L three-axis magnetometer on an I2C bus.
pub struct Hmc5883l<I2C> {
    i2c: I2C,
    address: u8,
}

impl<I2C> Hmc5883l<I2C> {
    /// The bus the sensor is on.
    pub closed spec fn bus(&self) -> I2C {
        self.i2c
    }

    /// The address the sensor answers to.
    pub closed spec fn device_address(&self) -> u8 {
        self.address
    }

    /// A driver for the sensor on `i2c`, at the sensor's fixed address.
    pub fn new(i2c: I2C) -> (s: Self)
        ensures
            s.bus() == i2c,
            s.device_address() == HMC5883L_ADDRESS,
    {
        Self { i2c, address: HMC5883L_ADDRESS }
    }

    /// The address the sensor answers to.
    pub fn address(&self) -> (a: u8)
        ensures
            a == self.device_address(),
    {
        self.address
    }

    /// The bus, to carry out the transfers that the driver asks for.
    pub fn bus_mut(&mut self) -> (bus: &mut I2C)
        ensures
            *bus == old(self).bus(),
            final(self).bus() == *final(bus),
            final(self).device_address() == old(self).device_address(),
    {
        &mut self.i2c
    }
}

/// Where the configuration of the sensor stands.
#[derive(Clone, Copy, Debug, PartialEq, Eq, Structural)]
pub enum InitStage {
    /// Register A is to be written.
    ConfigA,
    /// Register B is to be written.
    ConfigB,
    /// The mode register is to be written.
    Mode,
    /// The sensor is given time to settle.
    Settle,
    /// The sensor is configured.
    Ready,
    /// A register write failed; configuration stopped there.
    Failed,
}

/// What the driver asks its caller to do next while configuring the sensor.
#[derive(Clone, Copy, Debug, PartialEq, Eq, Structural)]
pub enum InitAction {
    /// Write `value` to register `reg` (the bus transfer is the two bytes
    /// `reg`, `value` to the sensor's address).
    WriteRegister { reg: u8, value: u8 },
    /// Wait `ms` milliseconds.
    DelayMs { ms: u8 },
    /// Configuration is complete.
    Finished,
    /// Configuration failed; the error of the failed write is the result.
    Aborted,
}

impl InitStage {
    /// The action that belongs to each stage.
    pub open spec fn spec_action(self) -> InitAction {
        match self {
            InitStage::ConfigA => InitAction::WriteRegister { reg: REG_CONFIG_A, value: CONFIG_A_AVG_8_15HZ },
            InitStage::ConfigB => InitAction::WriteRegister { reg: REG_CONFIG_B, value: CONFIG_B_GAIN_1_3_GA },
            InitStage::Mode => InitAction::WriteRegister { reg: REG_MODE, value: MODE_CONTINUOUS },
            InitStage::Settle => InitAction::DelayMs { ms: INIT_SETTLE_MS },
            InitStage::Ready => InitAction::Finished,
            InitStage::Failed => InitAction::Aborted,
        }
    }

    /// The stage after this one's action, which `succeeded` or not. A failed
    /// register write ends configuration; a wait cannot fail; the final
    /// stages stay as they are.
    pub open spec fn spec_next(self, succeeded: bool) -> InitStage {
        match self {
            InitStage::ConfigA => if succeeded { InitStage::ConfigB } else { InitStage::Failed },
            InitStage::ConfigB => if succeeded { InitStage::Mode } else { InitStage::Failed },
            InitStage::Mode => if succeeded { InitStage::Settle } else { InitStage::Failed },
            InitStage::Settle => InitStage::Ready,
            InitStage::Ready => InitStage::Ready,
            InitStage::Failed => InitStage::Failed,
        }
    }

    /// The stage reached from `self` when the actions on the way have the
    /// given outcomes, in order.
    pub open spec fn run(self, outcomes: Seq<bool>) -> InitStage
        decreases outcomes.len(),
    {
        if outcomes.len() == 0 {
            self
        } else {
            self.spec_next(outcomes[0]).run(outcomes.drop_first())
        }
    }

    /// The actions asked for from `self` when the actions on the way have the
    /// given outcomes, in order (one action per outcome).
    pub open spec fn trace(self, outcomes: Seq<bool>) -> Seq<InitAction>
        decreases outcomes.len(),
    {
        if outcomes.len() == 0 {
            Seq::empty()
        } else {
            seq![self.spec_action()] + self.spec_next(outcomes[0]).trace(outcomes.drop_first())
        }
    }

    /// The first stage of configuration.
    pub fn start() -> (s: Self)
        ensures
            s == InitStage::ConfigA,
    {
        InitStage::ConfigA
    }

    /// The action of this stage.
    pub fn action(&self) -> (a: InitAction)
        ensures
            a == self.spec_action(),
    {
        match self {
            InitStage::ConfigA => InitAction::WriteRegister { reg: REG_CONFIG_A, value: CONFIG_A_AVG_8_15HZ },
            InitStage::ConfigB => InitAction::WriteRegister { reg: REG_CONFIG_B, value: CONFIG_B_GAIN_1_3_GA },
            InitStage::Mode => InitAction::WriteRegister { reg: REG_MODE, value: MODE_CONTINUOUS },
            InitStage::Settle => InitAction::DelayMs { ms: INIT_SETTLE_MS },
            InitStage::Ready => InitAction::Finished,
            InitStage::Failed => InitAction::Aborted,
        }
    }

    /// The stage after this one's action, which `succeeded` or not.
    pub fn next(self, succeeded: bool) -> (s: Self)
        ensures
            s == self.spec_next(succeeded),
    {
        match self {
            InitStage::ConfigA => if succeeded { InitStage::ConfigB } else { InitStage::Failed },
            InitStage::ConfigB => if succeeded { InitStage::Mode } else { InitStage::Failed },
            InitStage::Mode => if succeeded { InitStage::Settle } else { InitStage::Failed },
            InitStage::Settle => InitStage::Ready,
            InitStage::Ready => InitStage::Ready,
            InitStage::Failed => InitStage::Failed,
        }
    }

    /// Whether configuration is over, successfully or not.
    pub fn is_done(&self) -> (d: bool)
        ensures
            d <==> (*self == InitStage::Ready || *self == InitStage::Failed),
    {
        match self {
            InitStage::Ready | InitStage::Failed => true,
            _ => false,
        }
    }
}

/// Once configuration is over, successfully or not, it stays so whatever
/// happens after.
pub proof fn lemma_init_final_stages_absorb(stage: InitStage, outcomes: Seq<bool>)
    requires
        stage == InitStage::Ready || stage == InitStage::Failed,
    ensures
        stage.run(outcomes) == stage,
    decreases outcomes.len(),
{
    if outcomes.len() > 0 {
        lemma_init_final_stages_absorb(stage.spec_next(outcomes[0]), outcomes.drop_first());
    }
}

/// Configuration writes register A, register B and the mode register, in
/// that order, then waits for the sensor to settle; it succeeds exactly when
/// the three writes succeed, and stops at the first failed write.
pub proof fn lemma_init_outcome(outcomes: Seq<bool>)
    requires
        outcomes.len() >= 4,
    ensures
        InitStage::ConfigA.run(outcomes) == (if outcomes[0] && outcomes[1] && outcomes[2] {
            InitStage::Ready
        } else {
            InitStage::Failed
        }),
{
    let s0 = InitStage::ConfigA;
    let o1 = outcomes.drop_first();
    let o2 = o1.drop_first();
    let o3 = o2.drop_first();
    let o4 = o3.drop_first();
    let s1 = s0.spec_next(outcomes[0]);
    let s2 = s1.spec_next(o1[0]);
    let s3 = s2.spec_next(o2[0]);
    let s4 = s3.spec_next(o3[0]);
    assert(s0.run(outcomes) == s1.run(o1));
    assert(s1.run(o1) == s2.run(o2));
    assert(s2.run(o2) == s3.run(o3));
    assert(s3.run(o3) == s4.run(o4));
    assert(s4 == InitStage::Ready || s4 == InitStage::Failed);
    lemma_init_final_stages_absorb(s4, o4);
}

/// When every write succeeds, the driver asks exactly for: register A set to
/// 8-sample averaging at 15 Hz, register B set to the +-1.3 Ga gain, the mode
/// register set to continuous measurement, a 10 ms wait; and then reports
/// completion.
pub proof fn lemma_init_success_trace()
    ensures
        InitStage::ConfigA.trace(seq![true, true, true, true]) == seq![
            InitAction::WriteRegister { reg: 0x00, value: 0x70 },
            InitAction::WriteRegister { reg: 0x01, value: 0x20 },
            InitAction::WriteRegister { reg: 0x02, value: 0x00 },
            InitAction::DelayMs { ms: 10 },
        ],
        InitStage::ConfigA.run(seq![true, true, true, true]).spec_action() == InitAction::Finished,
{
    let o = seq![true, true, true, true];
    assert(o.drop_first() =~= seq![true, true, true]);
    assert(o.drop_first().drop_first() =~= seq![true, true]);
    assert(o.drop_first().drop_first().drop_first() =~= seq![true]);
    assert(o.drop_first().drop_first().drop_first().drop_first() =~= Seq::<bool>::empty());
    reveal_with_fuel(InitStage::trace, 5);
    reveal_with_fuel(InitStage::run, 5);
    assert(InitStage::ConfigA.trace(o) =~= seq![
        InitAction::WriteRegister { reg: 0x00, value: 0x70 },
        InitAction::WriteRegister { reg: 0x01, value: 0x20 },
        InitAction::WriteRegister { reg: 0x02, value: 0x00 },
        InitAction::DelayMs { ms: 10 },
    ]);
}

/// After a failed write no further register is written: from the failed
/// stage every action asked for is the report of failure.
pub proof fn lemma_init_no_write_after_failure(outcomes: Seq<bool>)
    ensures
        forall|i: int| 0 <= i < outcomes.len() ==> #[trigger] InitStage::Failed.trace(outcomes)[i] == InitAction::Aborted,
        InitStage::Failed.trace(outcomes).len() == outcomes.len(),
    decreases outcomes.len(),
{
    if outcomes.len() > 0 {
        lemma_init_no_write_after_failure(outcomes.drop_first());
        let rest = InitStage::Failed.trace(outcomes.drop_first());
        assert forall|i: int| 0 <= i < outcomes.len() implies #[trigger] InitStage::Failed.trace(outcomes)[i] == InitAction::Aborted by {
            if i > 0 {
                assert(InitStage::Failed.trace(outcomes)[i] == rest[i - 1]);
            }
        }
    }
}

/// Signed value of the big-endian 16-bit two's-complement pair `hi`, `lo`.
pub open spec fn be_i16(hi: u8, lo: u8) -> int {
    let u = hi * 256 + lo;
    if u >= 32768 {
        u - 65536
    } else {
        u
    }
}

/// The decoded value of a big-endian pair is the one 16-bit two's-complement
/// value that the pair's bits stand for: it lies in `[-32768, 32768)` and is
/// congruent to `hi * 256 + lo` modulo 65536.
pub proof fn lemma_be_i16_twos_complement(hi: u8, lo: u8)
    ensures
        -32768 <= be_i16(hi, lo) < 32768,
        (be_i16(hi, lo) - (hi * 256 + lo)) % 65536 == 0,
        hi < 0x80 ==> be_i16(hi, lo) == hi * 256 + lo,
        hi >= 0x80 ==> be_i16(hi, lo) < 0,
{
}

fn i16_from_be(hi: u8, lo: u8) -> (v: i16)
    ensures
        v == be_i16(hi, lo),
{
    let u: i32 = (hi as i32) * 256 + (lo as i32);
    if u >= 32768 {
        (u - 65536) as i16
    } else {
        u as i16
    }
}

/// One raw measurement of the magnetic field, in sensor counts.
#[derive(Clone, Copy, Debug, PartialEq, Eq, Structural)]
pub struct RawMagneticField {
    pub x: i16,
    pub y: i16,
    pub z: i16,
}

/// Decodes the six data registers, read from `REG_DATA_X_MSB` on. The sensor
/// stores the axes in the order X, Z, Y, each most significant byte first.
pub fn decode_measurement(buf: &[u8; 6]) -> (f: RawMagneticField)
    ensures
        f.x == be_i16(buf@[0], buf@[1]),
        f.z == be_i16(buf@[2], buf@[3]),
        f.y == be_i16(buf@[4], buf@[5]),
        (f.x - (buf@[0] * 256 + buf@[1])) % 65536 == 0,
        (f.z - (buf@[2] * 256 + buf@[3])) % 65536 == 0,
        (f.y - (buf@[4] * 256 + buf@[5])) % 65536 == 0,
{
    proof {
        lemma_be_i16_twos_complement(buf@[0], buf@[1]);
        lemma_be_i16_twos_complement(buf@[2], buf@[3]);
        lemma_be_i16_twos_complement(buf@[4], buf@[5]);
    }
    let x = i16_from_be(buf[0], buf[1]);
    let z = i16_from_be(buf[2], buf[3]);
    let y = i16_from_be(buf[4], buf[5]);
    RawMagneticField { x, y, z }
}

} // verus!
