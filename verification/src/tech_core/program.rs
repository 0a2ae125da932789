//! Phases of the tech core and the light programs they call for.
use vstd::prelude::*;

verus! {

/// The segments that each half ring of the first light is made of.
pub const FIRST_LIGHT_SEGMENT_COUNT: usize = 24;

/// How many segments a flowing light passes in a second.
pub const FLOW_SEGMENT_HZ: u32 = 12;

pub const NANOS_PER_SECOND: u64 = 1_000_000_000;

/// A full turn in millionths of a degree.
pub const FULL_TURN_MICRO_DEGREES: i64 = 360_000_000;

#[derive(Debug, Clone, Copy, PartialEq, Eq, Hash, Structural)]
pub enum Team {
    Red,
    Blue,
}

/// The lower case name of a team.
pub open spec fn team_name_spec(team: Team) -> Seq<char> {
    match team {
        Team::Red => "red"@,
        Team::Blue => "blue"@,
    }
}

pub fn team_name(team: Team) -> (r: &'static str)
    ensures
        r@ == team_name_spec(team),
{
    match team {
        Team::Red => "red",
        Team::Blue => "blue",
    }
}

/// Marks the root of a loaded tech core.
#[derive(Debug, Clone, Copy, PartialEq, Eq, Structural)]
pub struct TechCoreRoot;

#[derive(Debug, Clone, Copy, PartialEq, Eq, Hash, Structural)]
pub enum TechCoreLightGroup {
    First,
    Second,
    Third,
}

impl TechCoreLightGroup {
    /// The groups from the first to the third.
    pub fn all() -> (r: [TechCoreLightGroup; 3])
        ensures
            r@ == seq![
                TechCoreLightGroup::First,
                TechCoreLightGroup::Second,
                TechCoreLightGroup::Third,
            ],
    {
        [TechCoreLightGroup::First, TechCoreLightGroup::Second, TechCoreLightGroup::Third]
    }

    pub open spec fn index_spec(self) -> int {
        match self {
            TechCoreLightGroup::First => 0,
            TechCoreLightGroup::Second => 1,
            TechCoreLightGroup::Third => 2,
        }
    }

    pub fn index(self) -> (r: usize)
        ensures
            r == self.index_spec(),
    {
        match self {
            TechCoreLightGroup::First => 0,
            TechCoreLightGroup::Second => 1,
            TechCoreLightGroup::Third => 2,
        }
    }

    /// The group's number, counted from one.
    pub fn number(self) -> (r: u8)
        ensures
            r == self.index_spec() + 1,
    {
        self.index() as u8 + 1
    }
}

#[derive(Debug, Clone, Copy, PartialEq, Eq, Hash, Structural)]
pub enum LightColor {
    White,
    Team,
    Green,
}

impl LightColor {
    pub open spec fn name_for_team(self, team: Team) -> Seq<char> {
        match self {
            LightColor::White => "white"@,
            LightColor::Green => "green"@,
            LightColor::Team => team_name_spec(team),
        }
    }

    /// The name of the color that the light has for a team.
    pub fn as_str_for_team(self, team: Team) -> (r: &'static str)
        ensures
            r@ == self.name_for_team(team),
    {
        match self {
            LightColor::White => "white",
            LightColor::Green => "green",
            LightColor::Team => match team {
                Team::Red => "red",
                Team::Blue => "blue",
            },
        }
    }
}

#[derive(Debug, Clone, Copy, PartialEq, Eq, Hash, Structural)]
pub enum BlinkRate {
    Hz1,
    Hz3,
}

impl BlinkRate {
    pub open spec fn hz_spec(self) -> nat {
        match self {
            BlinkRate::Hz1 => 1,
            BlinkRate::Hz3 => 3,
        }
    }

    /// How often the light goes on in a second.
    pub fn hz(self) -> (r: u32)
        ensures
            r == self.hz_spec(),
    {
        match self {
            BlinkRate::Hz1 => 1,
            BlinkRate::Hz3 => 3,
        }
    }
}

#[derive(Debug, Clone, Copy, PartialEq, Eq, Hash, Structural)]
pub enum AssemblyLightProgram {
    InProgress,
    Completed,
}

#[derive(Debug, Clone, Copy, PartialEq, Eq, Hash, Structural)]
pub enum LightProgram {
    Off,
    Solid(LightColor),
    Blink { color: LightColor, rate: BlinkRate },
    Flow { color: LightColor },
    Assembly(AssemblyLightProgram),
}

/// Whether a light that blinks at `hz` is in the first half of a period after `elapsed_ns`.
pub open spec fn blink_is_on(elapsed_ns: int, hz: int) -> bool {
    (elapsed_ns * hz) % 1_000_000_000 < 500_000_000
}

impl LightProgram {
    pub open spec fn active_color_spec(self, elapsed_ns: int) -> Option<LightColor> {
        match self {
            LightProgram::Off => None,
            LightProgram::Solid(color) => Some(color),
            LightProgram::Blink { color, rate } => if blink_is_on(
                elapsed_ns,
                rate.hz_spec() as int,
            ) {
                Some(color)
            } else {
                None
            },
            LightProgram::Flow { color } => Some(color),
            LightProgram::Assembly(AssemblyLightProgram::InProgress) => None,
            LightProgram::Assembly(AssemblyLightProgram::Completed) => Some(LightColor::Green),
        }
    }

    /// Returns the active color only for programs with a uniform group color.
    /// Segmented assembly guidance is described by its active segments instead.
    pub fn active_color(self, elapsed_ns: u64) -> (r: Option<LightColor>)
        ensures
            r == self.active_color_spec(elapsed_ns as int),
    {
        match self {
            LightProgram::Off => None,
            LightProgram::Solid(color) => Some(color),
            LightProgram::Blink { color, rate } => {
                let hz: u32 = rate.hz();
                proof {
                    assert(elapsed_ns * hz <= u64::MAX * 3) by (nonlinear_arith)
                        requires
                            hz <= 3,
                            elapsed_ns <= u64::MAX,
                    ;
                }
                let cycles: u128 = elapsed_ns as u128 * hz as u128;
                if cycles % 1_000_000_000 < 500_000_000 {
                    Some(color)
                } else {
                    None
                }
            },
            LightProgram::Flow { color } => Some(color),
            LightProgram::Assembly(AssemblyLightProgram::InProgress) => None,
            LightProgram::Assembly(AssemblyLightProgram::Completed) => Some(LightColor::Green),
        }
    }
}

/// A segment of the first light. The two half rings have the same segments.
#[derive(Debug, Clone, Copy, PartialEq, Eq, Hash, Structural)]
pub struct TechCoreFirstLightSegment(usize);

impl TechCoreFirstLightSegment {
    pub const MIN_NUMBER: usize = 1;

    pub const MAX_NUMBER: usize = 24;

    /// The segment's place, counted from zero.
    pub closed spec fn index_spec(self) -> nat {
        self.0 as nat
    }

    #[verifier::type_invariant]
    pub closed spec fn on_the_ring(self) -> bool {
        self.0 < FIRST_LIGHT_SEGMENT_COUNT
    }

    pub fn from_zero_based(index: usize) -> (r: Option<Self>)
        ensures
            r is Some <==> index < FIRST_LIGHT_SEGMENT_COUNT,
            r is Some ==> r->0.index_spec() == index,
    {
        if index < FIRST_LIGHT_SEGMENT_COUNT {
            Some(TechCoreFirstLightSegment(index))
        } else {
            None
        }
    }

    pub fn from_number(number: usize) -> (r: Option<Self>)
        ensures
            r is Some <==> 1 <= number <= FIRST_LIGHT_SEGMENT_COUNT,
            r is Some ==> r->0.index_spec() == number - 1,
    {
        if number >= Self::MIN_NUMBER && number <= Self::MAX_NUMBER {
            Some(TechCoreFirstLightSegment(number - 1))
        } else {
            None
        }
    }

    /// The segment that an angle on the ring falls on, the angle given in millionths of a degree.
    pub fn from_angle_degrees(micro_degrees: i64) -> (r: Self)
        ensures
            r.index_spec() == (micro_degrees as int % 360_000_000) * FIRST_LIGHT_SEGMENT_COUNT
                / 360_000_000,
    {
        let rest: i64 = micro_degrees % FULL_TURN_MICRO_DEGREES;
        let normalized: i64 = if rest < 0 {
            rest + FULL_TURN_MICRO_DEGREES
        } else {
            rest
        };
        proof {
            assert(normalized == micro_degrees as int % 360_000_000);
        }
        let index: usize = (normalized as u64 * FIRST_LIGHT_SEGMENT_COUNT as u64 / 360_000_000) as usize;
        TechCoreFirstLightSegment(index)
    }

    pub fn index(self) -> (r: usize)
        ensures
            r == self.index_spec(),
            r < FIRST_LIGHT_SEGMENT_COUNT,
    {
        proof {
            use_type_invariant(self);
        }
        self.0
    }

    /// The segment's number, counted from one.
    pub fn number(self) -> (r: usize)
        ensures
            r == self.index_spec() + 1,
            r <= FIRST_LIGHT_SEGMENT_COUNT,
    {
        proof {
            use_type_invariant(self);
        }
        self.0 + 1
    }

    /// Whether two segments are the same.
    pub fn same(self, other: Self) -> (r: bool)
        ensures
            r == (self == other),
            r == (self.index_spec() == other.index_spec()),
    {
        self.0 == other.0
    }
}

/// The two segments that guide the fifth step.
#[derive(Debug, Clone, Copy, PartialEq, Eq, Hash, Structural)]
pub struct TechCoreStep5Lights {
    pub target: TechCoreFirstLightSegment,
    pub energy_unit: TechCoreFirstLightSegment,
}

impl TechCoreStep5Lights {
    pub fn new(target: TechCoreFirstLightSegment, energy_unit: TechCoreFirstLightSegment) -> (r: Self)
        ensures
            r.target == target,
            r.energy_unit == energy_unit,
    {
        TechCoreStep5Lights { target, energy_unit }
    }

    pub fn target(self) -> (r: TechCoreFirstLightSegment)
        ensures
            r == self.target,
    {
        self.target
    }

    pub fn energy_unit(self) -> (r: TechCoreFirstLightSegment)
        ensures
            r == self.energy_unit,
    {
        self.energy_unit
    }

    /// The target at the first segment, the energy unit opposite.
    pub open spec fn is_default(self) -> bool {
        self.target.index_spec() == 0 && self.energy_unit.index_spec() == FIRST_LIGHT_SEGMENT_COUNT
            / 2
    }
}

impl Default for TechCoreStep5Lights {
    /// The target at the first segment, the energy unit opposite.
    fn default() -> (r: Self)
        ensures
            r.is_default(),
    {
        TechCoreStep5Lights {
            target: TechCoreFirstLightSegment::from_zero_based(0).unwrap(),
            energy_unit: TechCoreFirstLightSegment::from_zero_based(
                FIRST_LIGHT_SEGMENT_COUNT / 2,
            ).unwrap(),
        }
    }
}

/// Which segments of a flowing light are lit.
#[derive(Debug, Clone, Copy, PartialEq, Eq, Hash, Structural)]
pub enum FlowActivation {
    Segment(usize),
    All,
}

/// The segments that are lit after `elapsed_ns`: one after the other up the ring, then down again,
/// then all of them.
pub open spec fn flow_activation_spec(elapsed_ns: int) -> FlowActivation {
    let step = elapsed_ns * FLOW_SEGMENT_HZ / 1_000_000_000;
    if step < FIRST_LIGHT_SEGMENT_COUNT {
        FlowActivation::Segment(step as usize)
    } else if step < 2 * FIRST_LIGHT_SEGMENT_COUNT {
        FlowActivation::Segment((2 * FIRST_LIGHT_SEGMENT_COUNT - 1 - step) as usize)
    } else {
        FlowActivation::All
    }
}

pub fn flow_activation(elapsed_ns: u64) -> (r: FlowActivation)
    ensures
        r == flow_activation_spec(elapsed_ns as int),
        r matches FlowActivation::Segment(index) ==> index < FIRST_LIGHT_SEGMENT_COUNT,
{
    let step: u128 = elapsed_ns as u128 * FLOW_SEGMENT_HZ as u128 / 1_000_000_000;
    let forward_len: u128 = FIRST_LIGHT_SEGMENT_COUNT as u128;
    let round_trip_len: u128 = forward_len * 2;
    if step < forward_len {
        FlowActivation::Segment(step as usize)
    } else if step < round_trip_len {
        FlowActivation::Segment((round_trip_len - 1 - step) as usize)
    } else {
        FlowActivation::All
    }
}

/// A flowing light runs back the way it came: a step before the turn and the step as long after it
/// light the same segment.
pub proof fn law_flow_runs_back_mirrored(before_ns: int, after_ns: int)
    requires
        0 <= before_ns,
        0 <= after_ns,
        before_ns * FLOW_SEGMENT_HZ / 1_000_000_000 + after_ns * FLOW_SEGMENT_HZ / 1_000_000_000
            == 2 * FIRST_LIGHT_SEGMENT_COUNT - 1,
    ensures
        flow_activation_spec(before_ns) is Segment,
        flow_activation_spec(before_ns) == flow_activation_spec(after_ns),
{
}

#[derive(Debug, Clone, Copy, PartialEq, Eq, Hash, Structural)]
pub enum TechCorePhase {
    MatchRunningIdle,
    DifficultySelectedArmNotReady,
    DifficultySelectedArmReady,
    Step2Completed,
    Step3Completed,
    Step4Completed,
    Step5InProgress,
    Step5Completed,
    ConfirmedRecovering,
}

impl TechCorePhase {
    pub const DEBUG_SEQUENCE: [TechCorePhase; 9] = [
        TechCorePhase::MatchRunningIdle,
        TechCorePhase::DifficultySelectedArmNotReady,
        TechCorePhase::DifficultySelectedArmReady,
        TechCorePhase::Step2Completed,
        TechCorePhase::Step3Completed,
        TechCorePhase::Step4Completed,
        TechCorePhase::Step5InProgress,
        TechCorePhase::Step5Completed,
        TechCorePhase::ConfirmedRecovering,
    ];

    /// The programs of the three light groups.
    pub open spec fn programs_spec(self) -> Seq<LightProgram> {
        let white_1 = LightProgram::Blink { color: LightColor::White, rate: BlinkRate::Hz1 };
        let white_3 = LightProgram::Blink { color: LightColor::White, rate: BlinkRate::Hz3 };
        let team_1 = LightProgram::Blink { color: LightColor::Team, rate: BlinkRate::Hz1 };
        let team_3 = LightProgram::Blink { color: LightColor::Team, rate: BlinkRate::Hz3 };
        let team = LightProgram::Solid(LightColor::Team);
        match self {
            TechCorePhase::MatchRunningIdle => seq![LightProgram::Off, team, team],
            TechCorePhase::DifficultySelectedArmNotReady => seq![
                LightProgram::Flow { color: LightColor::White },
                team,
                team,
            ],
            TechCorePhase::DifficultySelectedArmReady => seq![white_1, team_1, team_1],
            TechCorePhase::Step2Completed => seq![white_1, team_1, team_3],
            TechCorePhase::Step3Completed => seq![white_1, team_3, team_3],
            TechCorePhase::Step4Completed => seq![white_1, team, team],
            TechCorePhase::Step5InProgress => seq![
                LightProgram::Assembly(AssemblyLightProgram::InProgress),
                team,
                team,
            ],
            TechCorePhase::Step5Completed => seq![
                LightProgram::Assembly(AssemblyLightProgram::Completed),
                team,
                team,
            ],
            TechCorePhase::ConfirmedRecovering => seq![white_3, team_3, team_3],
        }
    }

    /// The programs of the three light groups in this phase.
    pub fn programs(self) -> (r: [LightProgram; 3])
        ensures
            r@ == self.programs_spec(),
    {
        let white_1: LightProgram = LightProgram::Blink {
            color: LightColor::White,
            rate: BlinkRate::Hz1,
        };
        let white_3: LightProgram = LightProgram::Blink {
            color: LightColor::White,
            rate: BlinkRate::Hz3,
        };
        let team_1: LightProgram = LightProgram::Blink {
            color: LightColor::Team,
            rate: BlinkRate::Hz1,
        };
        let team_3: LightProgram = LightProgram::Blink {
            color: LightColor::Team,
            rate: BlinkRate::Hz3,
        };
        let team: LightProgram = LightProgram::Solid(LightColor::Team);
        let r: [LightProgram; 3] = match self {
            TechCorePhase::MatchRunningIdle => [LightProgram::Off, team, team],
            TechCorePhase::DifficultySelectedArmNotReady => [
                LightProgram::Flow { color: LightColor::White },
                team,
                team,
            ],
            TechCorePhase::DifficultySelectedArmReady => [white_1, team_1, team_1],
            TechCorePhase::Step2Completed => [white_1, team_1, team_3],
            TechCorePhase::Step3Completed => [white_1, team_3, team_3],
            TechCorePhase::Step4Completed => [white_1, team, team],
            TechCorePhase::Step5InProgress => [
                LightProgram::Assembly(AssemblyLightProgram::InProgress),
                team,
                team,
            ],
            TechCorePhase::Step5Completed => [
                LightProgram::Assembly(AssemblyLightProgram::Completed),
                team,
                team,
            ],
            TechCorePhase::ConfirmedRecovering => [white_3, team_3, team_3],
        };
        proof {
            assert(r@ =~= self.programs_spec());
        }
        r
    }

    pub open spec fn id_spec(self) -> nat {
        match self {
            TechCorePhase::MatchRunningIdle => 0,
            TechCorePhase::DifficultySelectedArmNotReady => 1,
            TechCorePhase::DifficultySelectedArmReady => 2,
            TechCorePhase::Step2Completed => 3,
            TechCorePhase::Step3Completed => 4,
            TechCorePhase::Step4Completed => 5,
            TechCorePhase::Step5InProgress => 6,
            TechCorePhase::Step5Completed => 7,
            TechCorePhase::ConfirmedRecovering => 8,
        }
    }

    /// The stable number of the phase.
    pub fn id(self) -> (r: u8)
        ensures
            r == self.id_spec(),
    {
        match self {
            TechCorePhase::MatchRunningIdle => 0,
            TechCorePhase::DifficultySelectedArmNotReady => 1,
            TechCorePhase::DifficultySelectedArmReady => 2,
            TechCorePhase::Step2Completed => 3,
            TechCorePhase::Step3Completed => 4,
            TechCorePhase::Step4Completed => 5,
            TechCorePhase::Step5InProgress => 6,
            TechCorePhase::Step5Completed => 7,
            TechCorePhase::ConfirmedRecovering => 8,
        }
    }

    pub open spec fn name_spec(self) -> Seq<char> {
        match self {
            TechCorePhase::MatchRunningIdle => "match_running_idle"@,
            TechCorePhase::DifficultySelectedArmNotReady => "difficulty_selected_arm_not_ready"@,
            TechCorePhase::DifficultySelectedArmReady => "difficulty_selected_arm_ready"@,
            TechCorePhase::Step2Completed => "step2_completed"@,
            TechCorePhase::Step3Completed => "step3_completed"@,
            TechCorePhase::Step4Completed => "step4_completed"@,
            TechCorePhase::Step5InProgress => "step5_in_progress"@,
            TechCorePhase::Step5Completed => "step5_completed"@,
            TechCorePhase::ConfirmedRecovering => "confirmed_recovering"@,
        }
    }

    /// The stable name of the phase.
    pub fn as_str(self) -> (r: &'static str)
        ensures
            r@ == self.name_spec(),
    {
        match self {
            TechCorePhase::MatchRunningIdle => "match_running_idle",
            TechCorePhase::DifficultySelectedArmNotReady => "difficulty_selected_arm_not_ready",
            TechCorePhase::DifficultySelectedArmReady => "difficulty_selected_arm_ready",
            TechCorePhase::Step2Completed => "step2_completed",
            TechCorePhase::Step3Completed => "step3_completed",
            TechCorePhase::Step4Completed => "step4_completed",
            TechCorePhase::Step5InProgress => "step5_in_progress",
            TechCorePhase::Step5Completed => "step5_completed",
            TechCorePhase::ConfirmedRecovering => "confirmed_recovering",
        }
    }

    /// The phase that follows in the debug cycle.
    pub open spec fn next_spec(self) -> Self {
        match self {
            TechCorePhase::MatchRunningIdle => TechCorePhase::DifficultySelectedArmNotReady,
            TechCorePhase::DifficultySelectedArmNotReady
                => TechCorePhase::DifficultySelectedArmReady,
            TechCorePhase::DifficultySelectedArmReady => TechCorePhase::Step2Completed,
            TechCorePhase::Step2Completed => TechCorePhase::Step3Completed,
            TechCorePhase::Step3Completed => TechCorePhase::Step4Completed,
            TechCorePhase::Step4Completed => TechCorePhase::Step5InProgress,
            TechCorePhase::Step5InProgress => TechCorePhase::Step5Completed,
            TechCorePhase::Step5Completed => TechCorePhase::ConfirmedRecovering,
            TechCorePhase::ConfirmedRecovering => TechCorePhase::MatchRunningIdle,
        }
    }

    /// The phase that follows in the debug cycle.
    pub fn next_debug(self) -> (r: Self)
        ensures
            r == self.next_spec(),
    {
        let sequence: [TechCorePhase; 9] = Self::DEBUG_SEQUENCE;
        let mut index: usize = 0;
        while index < 9 && sequence[index] != self
            invariant
                index <= self.id_spec() < 9,
                sequence@.len() == 9,
                forall|i: int| 0 <= i < 9 ==> (#[trigger] sequence@[i]).id_spec() == i,
            ensures
                index == self.id_spec(),
            decreases 9 - index,
        {
            index = index + 1;
        }
        sequence[(index + 1) % 9]
    }
}

/// The debug cycle numbers its phases in order and comes back to the first after the last.
pub proof fn law_debug_cycle_follows_the_ids(phase: TechCorePhase)
    ensures
        phase.next_spec().id_spec() == (phase.id_spec() + 1) % 9,
{
}

/// No two phases share a number.
pub proof fn law_phase_ids_are_distinct(a: TechCorePhase, b: TechCorePhase)
    requires
        a.id_spec() == b.id_spec(),
    ensures
        a == b,
{
}

/// A light that is off has no color, a solid one always has its own, and a blinking one has it in the
/// first half of every period, which lasts a second or a third of one, and none in the second half.
/// A flowing light has its color all the time; assembly guidance is green once it is completed and
/// has no uniform color before.
pub proof fn law_active_colors(color: LightColor, elapsed_ns: int, period: int)
    requires
        elapsed_ns >= 0,
        period >= 0,
    ensures
        ({
            let flow = LightProgram::Flow { color };
            let slow = LightProgram::Blink { color, rate: BlinkRate::Hz1 };
            let fast = LightProgram::Blink { color, rate: BlinkRate::Hz3 };
            let running = LightProgram::Assembly(AssemblyLightProgram::InProgress);
            let done = LightProgram::Assembly(AssemblyLightProgram::Completed);
            let start = period * 1_000_000_000;
            let half = start + 500_000_000;
            let end = start + 1_000_000_000;
            &&& LightProgram::Off.active_color_spec(elapsed_ns) is None
            &&& LightProgram::Solid(color).active_color_spec(elapsed_ns) == Some(color)
            &&& flow.active_color_spec(elapsed_ns) == Some(color)
            &&& running.active_color_spec(elapsed_ns) is None
            &&& done.active_color_spec(elapsed_ns) == Some(LightColor::Green)
            &&& start <= elapsed_ns < half ==> slow.active_color_spec(elapsed_ns) == Some(color)
            &&& half <= elapsed_ns < end ==> slow.active_color_spec(elapsed_ns) is None
            &&& start <= 3 * elapsed_ns < half ==> fast.active_color_spec(elapsed_ns) == Some(color)
            &&& half <= 3 * elapsed_ns < end ==> fast.active_color_spec(elapsed_ns) is None
        }),
{
    lemma_half_of_period(elapsed_ns, period);
    lemma_half_of_period(3 * elapsed_ns, period);
    assert(elapsed_ns * 3 == 3 * elapsed_ns);
    assert(elapsed_ns * 1 == elapsed_ns);
}

proof fn lemma_half_of_period(at: int, period: int)
    ensures
        period * 1_000_000_000 <= at < period * 1_000_000_000 + 1_000_000_000 ==> at % 1_000_000_000
            == at - period * 1_000_000_000,
{
    if period * 1_000_000_000 <= at < period * 1_000_000_000 + 1_000_000_000 {
        vstd::arithmetic::div_mod::lemma_fundamental_div_mod_converse(
            at,
            1_000_000_000,
            period,
            at - period * 1_000_000_000,
        );
    }
}

/// A blinking light shows at every moment what it showed a second earlier, and is the other way
/// round half a second later.
pub proof fn law_blinking_repeats(color: LightColor, rate: BlinkRate, elapsed_ns: int)
    requires
        elapsed_ns >= 0,
    ensures
        ({
            let blink = LightProgram::Blink { color, rate };
            &&& blink.active_color_spec(elapsed_ns + 1_000_000_000) == blink.active_color_spec(
                elapsed_ns,
            )
            &&& blink.active_color_spec(elapsed_ns + 500_000_000) is Some
                <==> blink.active_color_spec(elapsed_ns) is None
            &&& blink.active_color_spec(elapsed_ns) is Some ==> blink.active_color_spec(elapsed_ns)
                == Some(color)
        }),
{
    assert(elapsed_ns * 3 == 3 * elapsed_ns);
    assert((elapsed_ns + 1_000_000_000) * 3 == 3 * elapsed_ns + 3_000_000_000);
    assert((elapsed_ns + 500_000_000) * 3 == 3 * elapsed_ns + 1_500_000_000);
}

/// A flowing light moves on twelve times a second: up the ring segment by segment, back down the
/// same way, and from then on all segments are lit.
pub proof fn law_flow_runs_up_and_back(elapsed_ns: int, step: int)
    requires
        0 <= step,
        step * 1_000_000_000 <= 12 * elapsed_ns < (step + 1) * 1_000_000_000,
    ensures
        step < 24 ==> flow_activation_spec(elapsed_ns) == FlowActivation::Segment(step as usize),
        24 <= step < 48 ==> flow_activation_spec(elapsed_ns) == FlowActivation::Segment(
            (47 - step) as usize,
        ),
        step >= 48 ==> flow_activation_spec(elapsed_ns) is All,
{
}

/// The number of a phase and its name belong together.
pub proof fn law_phase_names_by_number(phase: TechCorePhase)
    ensures
        phase.id_spec() == 0 ==> phase is MatchRunningIdle && phase.name_spec()
            == "match_running_idle"@,
        phase.id_spec() == 1 ==> phase is DifficultySelectedArmNotReady && phase.name_spec()
            == "difficulty_selected_arm_not_ready"@,
        phase.id_spec() == 2 ==> phase is DifficultySelectedArmReady && phase.name_spec()
            == "difficulty_selected_arm_ready"@,
        phase.id_spec() == 3 ==> phase is Step2Completed && phase.name_spec()
            == "step2_completed"@,
        phase.id_spec() == 4 ==> phase is Step3Completed && phase.name_spec()
            == "step3_completed"@,
        phase.id_spec() == 5 ==> phase is Step4Completed && phase.name_spec()
            == "step4_completed"@,
        phase.id_spec() == 6 ==> phase is Step5InProgress && phase.name_spec()
            == "step5_in_progress"@,
        phase.id_spec() == 7 ==> phase is Step5Completed && phase.name_spec()
            == "step5_completed"@,
        phase.id_spec() == 8 ==> phase is ConfirmedRecovering && phase.name_spec()
            == "confirmed_recovering"@,
        phase.id_spec() <= 8,
{
}

/// What the lights of a phase say. The first light is off only while the core idles, and shows one
/// color alone but for the guidance of the fifth step; the second and third are always in the team's
/// color; each of them blinks as long as its step is open, faster once the one before is done, and
/// all blink fast while the core recovers.
pub proof fn law_programs_of_the_phases(phase: TechCorePhase)
    ensures
        ({
            let programs = phase.programs_spec();
            let calm = LightProgram::Solid(LightColor::Team);
            let slow = LightProgram::Blink { color: LightColor::Team, rate: BlinkRate::Hz1 };
            let fast = LightProgram::Blink { color: LightColor::Team, rate: BlinkRate::Hz3 };
            &&& programs.len() == 3
            &&& programs[0] is Off <==> phase is MatchRunningIdle
            &&& programs[0] is Flow <==> phase is DifficultySelectedArmNotReady
            &&& programs[0] == LightProgram::Assembly(AssemblyLightProgram::InProgress)
                <==> phase is Step5InProgress
            &&& programs[0] == LightProgram::Assembly(AssemblyLightProgram::Completed)
                <==> phase is Step5Completed
            &&& programs[0] == (LightProgram::Blink {
                color: LightColor::White,
                rate: BlinkRate::Hz3,
            }) <==> phase is ConfirmedRecovering
            &&& programs[0] == (LightProgram::Blink {
                color: LightColor::White,
                rate: BlinkRate::Hz1,
            }) <==> phase is DifficultySelectedArmReady || phase is Step2Completed
                || phase is Step3Completed || phase is Step4Completed
            &&& programs[0] matches LightProgram::Flow { color } ==> color is White
            &&& programs[1] == slow <==> phase is DifficultySelectedArmReady
                || phase is Step2Completed
            &&& programs[1] == fast <==> phase is Step3Completed || phase is ConfirmedRecovering
            &&& programs[1] == calm || programs[1] == slow || programs[1] == fast
            &&& programs[2] == slow <==> phase is DifficultySelectedArmReady
            &&& programs[2] == fast <==> phase is Step2Completed || phase is Step3Completed
                || phase is ConfirmedRecovering
            &&& programs[2] == calm || programs[2] == slow || programs[2] == fast
        }),
{
}

/// At first the target lies at the first segment and the energy unit half a ring further on.
pub proof fn law_default_guidance(lights: TechCoreStep5Lights)
    requires
        lights.is_default(),
    ensures
        lights.target.index_spec() == 0,
        lights.energy_unit.index_spec() == 12,
{
}

} // verus!
