use vstd::prelude::*;

verus! {

/// Level of a supply pin.
#[derive(Clone, Copy, Debug, PartialEq, Eq, Structural)]
pub enum Level {
    Low,
    High,
}

/// The three pins that supply the GY-86 module.
#[derive(Clone, Copy, Debug, PartialEq, Eq, Structural)]
pub enum SupplyPin {
    /// The module's VCC_IN input.
    VccIn,
    /// The module's 3.3 V input.
    V3_3,
    /// The module's ground.
    Gnd,
}

/// Driving one supply pin to one level.
#[derive(Clone, Copy, Debug, PartialEq, Eq, Structural)]
pub struct PinWrite {
    pub pin: SupplyPin,
    pub level: Level,
}

/// Levels of the supply pins, in the order VCC_IN, 3.3 V, ground.
pub type SupplyLevels = (Level, Level, Level);

/// The levels after driving `w`.
pub open spec fn apply_write(levels: SupplyLevels, w: PinWrite) -> SupplyLevels {
    match w.pin {
        SupplyPin::VccIn => (w.level, levels.1, levels.2),
        SupplyPin::V3_3 => (levels.0, w.level, levels.2),
        SupplyPin::Gnd => (levels.0, levels.1, w.level),
    }
}

/// The levels after driving the writes of `ws` in order.
pub open spec fn apply_writes(levels: SupplyLevels, ws: Seq<PinWrite>) -> SupplyLevels
    decreases ws.len(),
{
    if ws.len() == 0 {
        levels
    } else {
        apply_writes(apply_write(levels, ws[0]), ws.drop_first())
    }
}

/// Power-up order: ground held low first, then 3.3 V, then VCC_IN.
pub open spec fn power_on_writes() -> Seq<PinWrite> {
    seq![
        PinWrite { pin: SupplyPin::Gnd, level: Level::Low },
        PinWrite { pin: SupplyPin::V3_3, level: Level::High },
        PinWrite { pin: SupplyPin::VccIn, level: Level::High },
    ]
}

/// Power-down order: VCC_IN first, then 3.3 V, then ground.
pub open spec fn power_off_writes() -> Seq<PinWrite> {
    seq![
        PinWrite { pin: SupplyPin::VccIn, level: Level::Low },
        PinWrite { pin: SupplyPin::V3_3, level: Level::Low },
        PinWrite { pin: SupplyPin::Gnd, level: Level::Low },
    ]
}

/// All pins low: the state in which the pins are set up.
pub open spec fn all_low() -> SupplyLevels {
    (Level::Low, Level::Low, Level::Low)
}

/// The GY-86 sensor module, supplied from three output pins. This type
/// keeps the level each pin is driven to and tells the caller which pin
/// writes to carry out, in which order.
pub struct Gy86Module {
    vcc_in: Level,
    v3_3: Level,
    gnd: Level,
}

impl View for Gy86Module {
    type V = SupplyLevels;

    closed spec fn view(&self) -> SupplyLevels {
        (self.vcc_in, self.v3_3, self.gnd)
    }
}

impl Gy86Module {
    /// The module with every supply pin set up low.
    pub fn new() -> (m: Self)
        ensures
            m@ == all_low(),
    {
        Gy86Module { vcc_in: Level::Low, v3_3: Level::Low, gnd: Level::Low }
    }

    /// Powers the module: returns the pin writes to carry out, in order, and
    /// records their effect.
    pub fn power_on(&mut self) -> (ws: [PinWrite; 3])
        ensures
            ws@ == power_on_writes(),
            final(self)@ == apply_writes(old(self)@, ws@),
    {
        let ws = [
            PinWrite { pin: SupplyPin::Gnd, level: Level::Low },
            PinWrite { pin: SupplyPin::V3_3, level: Level::High },
            PinWrite { pin: SupplyPin::VccIn, level: Level::High },
        ];
        self.gnd = Level::Low;
        self.v3_3 = Level::High;
        self.vcc_in = Level::High;
        proof {
            assert(ws@ =~= power_on_writes());
            reveal_with_fuel(apply_writes, 4);
        }
        ws
    }

    /// Cuts the module's supply: returns the pin writes to carry out, in
    /// order, and records their effect.
    pub fn power_off(&mut self) -> (ws: [PinWrite; 3])
        ensures
            ws@ == power_off_writes(),
            final(self)@ == apply_writes(old(self)@, ws@),
    {
        let ws = [
            PinWrite { pin: SupplyPin::VccIn, level: Level::Low },
            PinWrite { pin: SupplyPin::V3_3, level: Level::Low },
            PinWrite { pin: SupplyPin::Gnd, level: Level::Low },
        ];
        self.vcc_in = Level::Low;
        self.v3_3 = Level::Low;
        self.gnd = Level::Low;
        proof {
            assert(ws@ =~= power_off_writes());
            reveal_with_fuel(apply_writes, 4);
        }
        ws
    }

    /// The level `pin` is driven to.
    pub fn level(&self, pin: SupplyPin) -> (l: Level)
        ensures
            l == match pin {
                SupplyPin::VccIn => self@.0,
                SupplyPin::V3_3 => self@.1,
                SupplyPin::Gnd => self@.2,
            },
    {
        match pin {
            SupplyPin::VccIn => self.vcc_in,
            SupplyPin::V3_3 => self.v3_3,
            SupplyPin::Gnd => self.gnd,
        }
    }
}

/// Whatever the pins were driven to, powering the module leaves both supplies
/// high and ground low, and cutting it leaves every pin low.
pub proof fn lemma_power_states(levels: SupplyLevels)
    ensures
        apply_writes(levels, power_on_writes()) == (Level::High, Level::High, Level::Low),
        apply_writes(levels, power_off_writes()) == all_low(),
{
    reveal_with_fuel(apply_writes, 4);
}

/// Powering the module and then cutting its supply brings the pins back to
/// the state they were set up in.
pub proof fn lemma_power_cycle_restores(levels: SupplyLevels)
    ensures
        apply_writes(apply_writes(levels, power_on_writes()), power_off_writes()) == all_low(),
{
    lemma_power_states(levels);
    lemma_power_states(apply_writes(levels, power_on_writes()));
}

/// Each supply sequence drives each of the three pins once (three writes to
/// distinct pins) and never drives ground high. On power-up ground is held low before either supply rises;
/// on power-down VCC_IN falls before 3.3 V, and both before ground.
pub proof fn lemma_supply_order()
    ensures
        forall|i: int, j: int| 0 <= i < 3 && 0 <= j < 3 && i != j ==> (#[trigger] power_on_writes()[i]).pin != (#[trigger] power_on_writes()[j]).pin,
        forall|i: int, j: int| 0 <= i < 3 && 0 <= j < 3 && i != j ==> (#[trigger] power_off_writes()[i]).pin != (#[trigger] power_off_writes()[j]).pin,
        forall|i: int| 0 <= i < 3 && (#[trigger] power_on_writes()[i]).pin == SupplyPin::Gnd ==> power_on_writes()[i].level == Level::Low,
        forall|i: int| 0 <= i < 3 && (#[trigger] power_off_writes()[i]).pin == SupplyPin::Gnd ==> power_off_writes()[i].level == Level::Low,
        forall|i: int, j: int| 0 <= i < 3 && 0 <= j < 3 && (#[trigger] power_on_writes()[i]).pin == SupplyPin::Gnd
            && (#[trigger] power_on_writes()[j]).level == Level::High ==> i < j,
        forall|i: int, j: int| 0 <= i < 3 && 0 <= j < 3 && (#[trigger] power_off_writes()[i]).pin == SupplyPin::VccIn
            && (#[trigger] power_off_writes()[j]).pin == SupplyPin::V3_3 ==> i < j,
        forall|i: int, j: int| 0 <= i < 3 && 0 <= j < 3 && (#[trigger] power_off_writes()[i]).pin != SupplyPin::Gnd
            && (#[trigger] power_off_writes()[j]).pin == SupplyPin::Gnd ==> i < j,
        power_on_writes().len() == 3 && power_off_writes().len() == 3,
{
}

} // verus!
