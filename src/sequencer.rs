//! The power sequencer: the order and timing in which the board's reset line,
//! LDO enable and main rail enable are driven.
//!
//! A coupled board has one task that owns all three outputs and runs a whole
//! sequence per command. A decoupled board has one task for the reset line,
//! which pulses it, and one for the main rail, which follows rail commands.
//! The functions here decide what to drive; the tasks drive it and wait.
use vstd::prelude::*;

verus! {

/// A command for the sequencer of a coupled board.
#[derive(Debug, Clone, Copy, PartialEq, Eq, Structural)]
pub enum SequencerCommand {
    Reset,
    Shutdown,
}

/// A command for the rail task of a decoupled board.
#[derive(Debug, Clone, Copy, PartialEq, Eq, Structural)]
pub enum RailCommand {
    BuckOn,
    BuckOff,
}

/// Whether one task sequences reset and rails together, or the rail has a task of its own.
#[derive(Debug, Clone, Copy, PartialEq, Eq, Structural)]
pub enum RailControl {
    Coupled,
    Decoupled,
}

/// Where a coupled sequencer stands.
#[derive(Debug, Clone, Copy, PartialEq, Eq, Structural)]
pub enum Phase {
    Down,
    Resetting,
    PoweringUp,
    Running,
}

/// The levels of the three sequenced outputs.
#[derive(Debug, Clone, Copy, PartialEq, Eq, Structural)]
pub struct Outputs {
    pub rail_enable: bool,
    pub ldo_enable: bool,
    pub reset_asserted: bool,
}

/// Drive the outputs, then hold them for `hold_ms` before the next step.
#[derive(Debug, Clone, Copy, PartialEq, Eq, Structural)]
pub struct Step {
    pub phase: Phase,
    pub outputs: Outputs,
    pub hold_ms: u32,
}

/// The settle delays of a reset sequence.
#[derive(Debug, Clone, Copy, PartialEq, Eq, Structural)]
pub struct Timing {
    /// Rails off and reset asserted.
    pub reset_hold_ms: u32,
    /// After the LDOs are enabled.
    pub ldo_settle_ms: u32,
    /// After the main rail is enabled.
    pub rail_settle_ms: u32,
    /// After reset is released.
    pub release_ms: u32,
}

impl Timing {
    /// The delays the boards use: 250 ms, 100 ms, 250 ms, 250 ms.
    pub fn standard() -> (r: Timing)
        ensures
            r == (Timing { reset_hold_ms: 250, ldo_settle_ms: 100, rail_settle_ms: 250, release_ms: 250 }),
    {
        Timing { reset_hold_ms: 250, ldo_settle_ms: 100, rail_settle_ms: 250, release_ms: 250 }
    }
}

pub open spec fn outputs(rail_enable: bool, ldo_enable: bool, reset_asserted: bool) -> Outputs {
    Outputs { rail_enable, ldo_enable, reset_asserted }
}

/// The steps a coupled sequencer runs for a command. A reset switches
/// everything off with reset asserted, enables the LDOs, then the main rail,
/// then releases reset. A shutdown switches everything off with reset
/// asserted at once.
pub open spec fn spec_sequence(cmd: SequencerCommand, t: Timing) -> Seq<Step> {
    match cmd {
        SequencerCommand::Reset => seq![
            Step { phase: Phase::Resetting, outputs: outputs(false, false, true), hold_ms: t.reset_hold_ms },
            Step { phase: Phase::PoweringUp, outputs: outputs(false, true, true), hold_ms: t.ldo_settle_ms },
            Step { phase: Phase::PoweringUp, outputs: outputs(true, true, true), hold_ms: t.rail_settle_ms },
            Step { phase: Phase::Running, outputs: outputs(true, true, false), hold_ms: t.release_ms },
        ],
        SequencerCommand::Shutdown => seq![
            Step { phase: Phase::Down, outputs: outputs(false, false, true), hold_ms: 0 },
        ],
    }
}

/// The steps of a coupled sequence for `cmd`.
pub fn sequence_for(cmd: SequencerCommand, timing: &Timing) -> (r: Vec<Step>)
    ensures
        r@ == spec_sequence(cmd, *timing),
{
    let mut steps: Vec<Step> = Vec::new();
    match cmd {
        SequencerCommand::Reset => {
            steps.push(Step {
                phase: Phase::Resetting,
                outputs: Outputs { rail_enable: false, ldo_enable: false, reset_asserted: true },
                hold_ms: timing.reset_hold_ms,
            });
            steps.push(Step {
                phase: Phase::PoweringUp,
                outputs: Outputs { rail_enable: false, ldo_enable: true, reset_asserted: true },
                hold_ms: timing.ldo_settle_ms,
            });
            steps.push(Step {
                phase: Phase::PoweringUp,
                outputs: Outputs { rail_enable: true, ldo_enable: true, reset_asserted: true },
                hold_ms: timing.rail_settle_ms,
            });
            steps.push(Step {
                phase: Phase::Running,
                outputs: Outputs { rail_enable: true, ldo_enable: true, reset_asserted: false },
                hold_ms: timing.release_ms,
            });
        },
        SequencerCommand::Shutdown => {
            steps.push(Step {
                phase: Phase::Down,
                outputs: Outputs { rail_enable: false, ldo_enable: false, reset_asserted: true },
                hold_ms: 0,
            });
        },
    }
    assert(steps@ =~= spec_sequence(cmd, *timing));
    steps
}

/// The sequencer of a coupled board. It starts `Down`; each command runs its
/// whole sequence, and the phase is that of the sequence's last step.
pub struct PowerSequencer {
    phase: Phase,
}

impl PowerSequencer {
    pub closed spec fn spec_phase(&self) -> Phase {
        self.phase
    }

    /// A sequencer with the board powered down.
    pub fn new() -> (r: PowerSequencer)
        ensures
            r.spec_phase() == Phase::Down,
    {
        PowerSequencer { phase: Phase::Down }
    }

    pub fn phase(&self) -> (r: Phase)
        ensures
            r == self.spec_phase(),
    {
        self.phase
    }

    /// Takes a command: gives the steps to run and moves to the phase they end in.
    pub fn handle(&mut self, cmd: SequencerCommand, timing: &Timing) -> (r: Vec<Step>)
        ensures
            r@ == spec_sequence(cmd, *timing),
            final(self).spec_phase() == r@.last().phase,
            cmd == SequencerCommand::Reset ==> final(self).spec_phase() == Phase::Running,
            cmd == SequencerCommand::Shutdown ==> final(self).spec_phase() == Phase::Down,
    {
        let steps = sequence_for(cmd, timing);
        let last = steps.len() - 1;
        self.phase = steps[last].phase;
        steps
    }
}

/// Every reset sequence holds the device in reset until the last step, never
/// enables the main rail before the LDOs, and ends running with reset released;
/// a shutdown leaves everything off with reset asserted and takes no time.
pub proof fn sequences_are_ordered(t: Timing)
    ensures
        ({
            let r = spec_sequence(SequencerCommand::Reset, t);
            &&& forall|i: int| 0 <= i < r.len() - 1 ==> (#[trigger] r[i]).outputs.reset_asserted
            &&& forall|i: int| 0 <= i < r.len() ==> ((#[trigger] r[i]).outputs.rail_enable ==> r[i].outputs.ldo_enable)
            &&& r.last() == (Step { phase: Phase::Running, outputs: outputs(true, true, false), hold_ms: t.release_ms })
        }),
        spec_sequence(SequencerCommand::Shutdown, t) == seq![
            Step { phase: Phase::Down, outputs: outputs(false, false, true), hold_ms: 0 },
        ],
{
    let r = spec_sequence(SequencerCommand::Reset, t);
    assert(r.len() == 4);
}

/// The main-rail level a decoupled rail task drives for a command.
pub fn rail_enabled(cmd: RailCommand) -> (r: bool)
    ensures
        r == (cmd == RailCommand::BuckOn),
{
    match cmd {
        RailCommand::BuckOn => true,
        RailCommand::BuckOff => false,
    }
}

/// The rail command a control request's enable flag asks for: zero switches the rail off.
pub fn rail_command_for(state_1v2: i32) -> (r: RailCommand)
    ensures
        r == (if state_1v2 == 0 { RailCommand::BuckOff } else { RailCommand::BuckOn }),
{
    if state_1v2 == 0 {
        RailCommand::BuckOff
    } else {
        RailCommand::BuckOn
    }
}

/// One reset pulse of a decoupled board: assert reset and hold, then release and hold.
/// Each entry is (reset asserted, hold in milliseconds).
pub fn reset_pulse(hold_ms: u32) -> (r: Vec<(bool, u32)>)
    ensures
        r@ == seq![(true, hold_ms), (false, hold_ms)],
{
    let mut steps: Vec<(bool, u32)> = Vec::new();
    steps.push((true, hold_ms));
    steps.push((false, hold_ms));
    assert(steps@ =~= seq![(true, hold_ms), (false, hold_ms)]);
    steps
}

} // verus!
