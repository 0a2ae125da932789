use daedalus::tech_core::program::AssemblyLightProgram::{Completed, InProgress};
use daedalus::tech_core::program::BlinkRate::{Hz1, Hz3};
use daedalus::tech_core::program::LightColor::{Team, White};
use daedalus::tech_core::program::LightProgram::{Assembly, Blink, Flow, Off, Solid};
use daedalus::tech_core::program::TechCorePhase;

#[test]
fn tech_core_phase_programs_match_spec() {
    assert_eq!(
        TechCorePhase::MatchRunningIdle.programs(),
        [Off, Solid(Team), Solid(Team)]
    );
    assert_eq!(
        TechCorePhase::DifficultySelectedArmNotReady.programs(),
        [Flow { color: White }, Solid(Team), Solid(Team)]
    );
    assert_eq!(
        TechCorePhase::DifficultySelectedArmReady.programs(),
        [
            Blink {
                color: White,
                rate: Hz1
            },
            Blink {
                color: Team,
                rate: Hz1
            },
            Blink {
                color: Team,
                rate: Hz1
            },
        ]
    );
    assert_eq!(
        TechCorePhase::Step2Completed.programs(),
        [
            Blink {
                color: White,
                rate: Hz1
            },
            Blink {
                color: Team,
                rate: Hz1
            },
            Blink {
                color: Team,
                rate: Hz3
            },
        ]
    );
    assert_eq!(
        TechCorePhase::Step3Completed.programs(),
        [
            Blink {
                color: White,
                rate: Hz1
            },
            Blink {
                color: Team,
                rate: Hz3
            },
            Blink {
                color: Team,
                rate: Hz3
            },
        ]
    );
    assert_eq!(
        TechCorePhase::Step4Completed.programs(),
        [
            Blink {
                color: White,
                rate: Hz1
            },
            Solid(Team),
            Solid(Team),
        ]
    );
    assert_eq!(
        TechCorePhase::Step5InProgress.programs(),
        [Assembly(InProgress), Solid(Team), Solid(Team)]
    );
    assert_eq!(
        TechCorePhase::Step5Completed.programs(),
        [Assembly(Completed), Solid(Team), Solid(Team)]
    );
    assert_eq!(
        TechCorePhase::ConfirmedRecovering.programs(),
        [
            Blink {
                color: White,
                rate: Hz3
            },
            Blink {
                color: Team,
                rate: Hz3
            },
            Blink {
                color: Team,
                rate: Hz3
            },
        ]
    );
}
