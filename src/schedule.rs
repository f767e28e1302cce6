//! The system groups run in each phase, in their fixed order.

use vstd::prelude::*;

verus! {

/// One step of a schedule: a system, or a flush that applies the intents
/// issued so far before the next step runs.
#[derive(Clone, Copy, Debug, PartialEq, Eq, Structural)]
pub enum Step {
    Input,
    Combat,
    Movement,
    Mining,
    RandomMovement,
    TargetedMovement,
    MapRender,
    EntityRender,
    UiRender,
    CycleTurn,
    Flush,
}

/// An ordered list of steps.
pub struct Schedule {
    pub steps: Vec<Step>,
}

/// Input, then the display.
pub fn build_input_scheduler() -> (r: Schedule)
    ensures
        r.steps@ == seq![Step::Input, Step::Flush, Step::MapRender, Step::EntityRender, Step::UiRender],
{
    Schedule {
        steps: vec![Step::Input, Step::Flush, Step::MapRender, Step::EntityRender, Step::UiRender],
    }
}

/// Combat, movement and mining, each flushed, then the display and the turn change.
pub fn build_player_scheduler() -> (r: Schedule)
    ensures
        r.steps@ == seq![
            Step::Combat,
            Step::Flush,
            Step::Movement,
            Step::Flush,
            Step::Mining,
            Step::Flush,
            Step::MapRender,
            Step::EntityRender,
            Step::UiRender,
            Step::CycleTurn,
        ],
{
    Schedule {
        steps: vec![
            Step::Combat,
            Step::Flush,
            Step::Movement,
            Step::Flush,
            Step::Mining,
            Step::Flush,
            Step::MapRender,
            Step::EntityRender,
            Step::UiRender,
            Step::CycleTurn,
        ],
    }
}

/// The enemies' movement, then movement and mining, each flushed, then the
/// display and the turn change.
pub fn build_enemy_scheduler() -> (r: Schedule)
    ensures
        r.steps@ == seq![
            Step::RandomMovement,
            Step::TargetedMovement,
            Step::Flush,
            Step::Movement,
            Step::Flush,
            Step::Mining,
            Step::Flush,
            Step::MapRender,
            Step::EntityRender,
            Step::UiRender,
            Step::CycleTurn,
        ],
{
    Schedule {
        steps: vec![
            Step::RandomMovement,
            Step::TargetedMovement,
            Step::Flush,
            Step::Movement,
            Step::Flush,
            Step::Mining,
            Step::Flush,
            Step::MapRender,
            Step::EntityRender,
            Step::UiRender,
            Step::CycleTurn,
        ],
    }
}

} // verus!
