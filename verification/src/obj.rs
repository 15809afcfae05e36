use vstd::prelude::*;

verus! {

/// The direction an object faces along one axis.
#[derive(PartialEq, Eq, Structural, Clone, Copy, Debug)]
pub enum Axis {
    Positive,
    Negative,
    Neutral,
}

/// The facing that a rounded step along an axis gives: a step of -1 (towards
/// the target at a greater coordinate) faces the positive way, a step of 1
/// the negative way, anything else neither.
pub open spec fn facing_of_step(step: i8) -> Axis {
    if step == -1 {
        Axis::Positive
    } else if step == 1 {
        Axis::Negative
    } else {
        Axis::Neutral
    }
}

impl Axis {
    /// The facing that an object takes when it turns towards a new target,
    /// given the rounded share of its distance that lies along this axis.
    pub fn from_step(step: i8) -> (res: Axis)
        ensures
            res == facing_of_step(step),
    {
        match step {
            -1 => Axis::Positive,
            1 => Axis::Negative,
            _ => Axis::Neutral,
        }
    }

    /// The facing of an object that keeps its old facing unless the rounded
    /// step is -1, 0 or 1: then it faces positive, neither way, or negative.
    pub fn updated(self, step: i8) -> (res: Axis)
        ensures
            -1 <= step <= 1 ==> res == facing_of_step(step),
            !(-1 <= step <= 1) ==> res == self,
    {
        match step {
            -1 => Axis::Positive,
            0 => Axis::Neutral,
            1 => Axis::Negative,
            _ => self,
        }
    }

    /// The facing chosen by a pair of opposing keys: `key1` points the
    /// negative way and `key2` the positive way. While both are held, the one
    /// pressed most recently wins (the second when both were just pressed),
    /// and with neither just pressed the facing stays; while one is held it
    /// decides; with none held the axis is released.
    pub fn switch_axis(self, key1_down: bool, key2_down: bool, key1_pressed: bool, key2_pressed: bool) -> (res:
        Axis)
        ensures
            res == if key1_down && key2_down {
                if key2_pressed {
                    Axis::Positive
                } else if key1_pressed {
                    Axis::Negative
                } else {
                    self
                }
            } else if key1_down {
                Axis::Negative
            } else if key2_down {
                Axis::Positive
            } else {
                Axis::Neutral
            },
    {
        let mut axis = self;
        if key1_down && key2_down {
            if key1_pressed && axis != Axis::Negative {
                axis = Axis::Negative;
            }
            if key2_pressed && axis != Axis::Positive {
                axis = Axis::Positive;
            }
        } else if key1_down {
            axis = Axis::Negative;
        } else if key2_down {
            axis = Axis::Positive;
        } else {
            axis = Axis::Neutral;
        }
        axis
    }
}

} // verus!
