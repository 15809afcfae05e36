use vstd::prelude::*;

verus! {

/// Something drawn with a texture that follows it.
pub trait TexturedObj {
    fn update_texture(&mut self);
}

/// An entity drawn with a texture that follows it.
pub trait TexturedEntity {
    fn update_texture(&mut self);
}

/// The look of an attack.
#[derive(PartialEq, Eq, Structural, Clone, Copy, Debug)]
pub enum AttackTextureType {
    Slash,
    Dash,
    Burst,
    ProjectilePlayer,
    ProjectileEnemy,
}

/// Whether the texture is one of the projectiles, which have a single frame.
pub open spec fn is_projectile_texture(kind: AttackTextureType) -> bool {
    kind == AttackTextureType::ProjectilePlayer || kind == AttackTextureType::ProjectileEnemy
}

/// The left edge of the frame an attack shows, given its animation time cut
/// to a whole number (`step`) and the side of a frame. The animation counts
/// down in thirds: steps 6 to 8 show the first frame, 3 to 5 the second,
/// anything else the third; projectiles always show their first frame.
pub open spec fn attack_frame_x(step: int, size: int, kind: AttackTextureType) -> int {
    if is_projectile_texture(kind) {
        0
    } else if 6 <= step <= 8 {
        0
    } else if 3 <= step <= 5 {
        size
    } else {
        size * 2
    }
}

impl AttackTextureType {
    /// Checks whether the texture is one of the projectiles.
    pub fn is_projectile(&self) -> (res: bool)
        ensures
            res == is_projectile_texture(*self),
    {
        *self == AttackTextureType::ProjectilePlayer || *self == AttackTextureType::ProjectileEnemy
    }

    /// The left edge of the frame shown at the given animation step.
    pub fn frame_x(&self, step: isize, size: u32) -> (res: u32)
        requires
            size * 2 <= u32::MAX,
        ensures
            res == attack_frame_x(step as int, size as int, *self),
    {
        let mut x_pos: u32 = if 6 <= step && step <= 8 {
            0
        } else if 3 <= step && step <= 5 {
            size
        } else {
            size * 2
        };
        if self.is_projectile() {
            x_pos = 0;
        }
        x_pos
    }
}

} // verus!
