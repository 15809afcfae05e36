use vstd::prelude::*;

use crate::goal::GoalBehavior;

verus! {

/// How an object decides what to do: steered by the player's input, or by
/// goal scripts.
pub enum Behavior {
    Player,
    Goal(GoalBehavior),
}

/// What an object does in a turn.
#[derive(PartialEq, Eq, Structural, Clone, Copy, Debug)]
pub enum Turn {
    /// It is stunned: it only counts its stun down.
    Stunned,
    /// It follows the player's input.
    Control,
    /// It runs its goal scripts.
    RunGoals,
}

/// The turn of an object with the given behavior: a stunned object only counts
/// its stun down and drops the goal it was running; otherwise the player
/// follows input and goal-driven objects run their scripts.
pub fn handle_behavior(behavior: Behavior, stunned: bool) -> (res: (Behavior, Turn))
    ensures
        stunned ==> res.1 == Turn::Stunned,
        !stunned ==> res.1 == (match behavior {
            Behavior::Player => Turn::Control,
            Behavior::Goal(_) => Turn::RunGoals,
        }),
        !stunned ==> res.0 == behavior,
        behavior is Player ==> res.0 is Player,
        behavior matches Behavior::Goal(g) ==> (res.0 matches Behavior::Goal(h) && h.goal_names()
            == g.goal_names() && h.prev_goal_spec() == g.prev_goal_spec() && h.error() == g.error() && (
        if stunned {
            h.running() is None
        } else {
            h.running() == g.running()
        })),
{
    if stunned {
        match behavior {
            Behavior::Player => (Behavior::Player, Turn::Stunned),
            Behavior::Goal(g) => {
                let mut g = g;
                g.interrupt();
                (Behavior::Goal(g), Turn::Stunned)
            },
        }
    } else {
        match behavior {
            Behavior::Player => (Behavior::Player, Turn::Control),
            Behavior::Goal(g) => (Behavior::Goal(g), Turn::RunGoals),
        }
    }
}

} // verus!
