use vstd::prelude::*;

use crate::obj::Axis;

verus! {

/// How a sprite turns with the object it draws.
#[derive(PartialEq, Eq, Structural, Clone, Copy, Debug)]
pub enum Rotation {
    /// The image is rotated to point at the object's target.
    Angle,
    /// The image is a sheet with a row for each of the facings.
    EightWay,
    /// The image never turns.
    Static,
}

/// The part of a sprite's image that is drawn: the corner at (`x`, `y`), a
/// square of side `size`, and whether it is mirrored.
#[derive(PartialEq, Eq, Structural, Clone, Copy, Debug)]
pub struct FrameSource {
    pub x: u32,
    pub y: u32,
    pub size: u32,
    pub flip_x: bool,
}

/// The side of one frame: a fifth of the image's height for an eight-way
/// sheet (which has five rows), the whole height otherwise.
pub open spec fn frame_size(rotation: Rotation, height: u32) -> int {
    if rotation == Rotation::EightWay {
        (height / 5) as int
    } else {
        height as int
    }
}

/// The row of an eight-way sheet that shows a facing: diagonally up on the
/// second row, diagonally down on the fourth, sideways on the third, down on
/// the first and up on the fifth. Other sprites use the first row.
pub open spec fn frame_row(rotation: Rotation, horizontal: Axis, vertical: Axis, size: int) -> int {
    if rotation == Rotation::EightWay {
        if horizontal != Axis::Neutral && vertical != Axis::Neutral {
            if vertical == Axis::Positive {
                size
            } else {
                size * 3
            }
        } else if horizontal != Axis::Neutral {
            size * 2
        } else if vertical == Axis::Positive {
            0
        } else {
            size * 4
        }
    } else {
        0
    }
}

pub open spec fn clamp_to(v: int, max: int) -> int {
    if v > max {
        max
    } else {
        v
    }
}

/// The part of the image that a sprite draws for the given frame of its
/// animation, shifted right by `shake` while it shakes, and kept inside the
/// image. An eight-way sprite facing the negative way horizontally is
/// mirrored.
pub fn frame_source(
    rotation: Rotation,
    horizontal: Axis,
    vertical: Axis,
    frame: u32,
    shake: u32,
    width: u32,
    height: u32,
) -> (res: FrameSource)
    requires
        width >= 1,
        height >= 1,
        frame * frame_size(rotation, height) + shake <= u32::MAX,
    ensures
        res.size == frame_size(rotation, height),
        res.x == clamp_to(frame * frame_size(rotation, height) + shake, width - 1),
        res.y == clamp_to(frame_row(rotation, horizontal, vertical, res.size as int), height - 1),
        res.flip_x == (horizontal == Axis::Negative && rotation == Rotation::EightWay),
        res.x < width,
        res.y < height,
{
    let size: u32 = if rotation == Rotation::EightWay {
        height / 5
    } else {
        height
    };
    assert(frame * size <= u32::MAX) by (nonlinear_arith)
        requires
            frame * size + shake <= u32::MAX,
            shake >= 0,
    ;
    let mut x: u32 = frame * size + shake;
    let mut y: u32 = if rotation == Rotation::EightWay {
        if horizontal != Axis::Neutral && vertical != Axis::Neutral {
            if vertical == Axis::Positive {
                size
            } else {
                size * 3
            }
        } else if horizontal != Axis::Neutral {
            size * 2
        } else if vertical == Axis::Positive {
            0
        } else {
            size * 4
        }
    } else {
        0
    };
    if x > width - 1 {
        x = width - 1;
    }
    if y > height - 1 {
        y = height - 1;
    }
    FrameSource {
        x,
        y,
        size,
        flip_x: horizontal == Axis::Negative && rotation == Rotation::EightWay,
    }
}

/// The image frame shown at a step of an animation: the frame listed at that
/// step, or the first frame when the step is past the end of the list.
pub fn frame_at(frame_order: &Vec<u32>, step: usize) -> (res: u32)
    ensures
        step < frame_order@.len() ==> res == frame_order@[step as int],
        step >= frame_order@.len() ==> res == 0,
{
    if step < frame_order.len() {
        frame_order[step]
    } else {
        0
    }
}

/// The rectangle of the image that a sprite is drawn from: none for a sprite
/// that turns to point at its target (its frame, turned, is drawn whole), the
/// frame otherwise.
pub open spec fn drawn_source(rotation: Rotation, frame: FrameSource) -> Option<FrameSource> {
    if rotation == Rotation::Angle {
        None
    } else {
        Some(frame)
    }
}

/// The rectangle of the image that a sprite with the given rotation is drawn
/// from, given its frame (see `frame_source`).
pub fn draw_source(rotation: Rotation, frame: FrameSource) -> (res: Option<FrameSource>)
    ensures
        res == drawn_source(rotation, frame),
{
    if rotation == Rotation::Angle {
        None
    } else {
        Some(frame)
    }
}

} // verus!
