use vstd::prelude::*;

verus! {

/// The counters of an entity that decide how it takes damage: frames of
/// invincibility left, frames of stun left, and health.
pub struct Vitals {
    pub i_frames: u8,
    pub stunned: u8,
    health: isize,
}

impl Vitals {
    pub closed spec fn health_spec(&self) -> int {
        self.health as int
    }

    pub closed spec fn i_frames_spec(&self) -> u8 {
        self.i_frames
    }

    pub closed spec fn stunned_spec(&self) -> u8 {
        self.stunned
    }

    /// The counters of a new entity with the given health: no invincibility
    /// and no stun.
    pub fn new(health: isize) -> (res: Self)
        ensures
            res.health_spec() == health,
            res.i_frames_spec() == 0,
            res.stunned_spec() == 0,
    {
        Vitals { i_frames: 0, stunned: 0, health }
    }

    /// Gets the health
    pub fn get_health(&self) -> (res: isize)
        ensures
            res == self.health_spec(),
    {
        self.health
    }

    /// Takes damage unless invincible; taking damage makes the entity
    /// invincible for 12 frames.
    pub fn try_damage(&mut self, damage: isize)
        requires
            old(self).i_frames_spec() == 0 ==> isize::MIN <= old(self).health_spec() - damage <= isize::MAX,
        ensures
            old(self).i_frames_spec() == 0 ==> final(self).health_spec() == old(self).health_spec() - damage
                && final(self).i_frames_spec() == 12,
            old(self).i_frames_spec() != 0 ==> final(self).health_spec() == old(self).health_spec()
                && final(self).i_frames_spec() == old(self).i_frames_spec(),
            final(self).stunned_spec() == old(self).stunned_spec(),
    {
        if self.i_frames == 0 {
            self.health = self.health - damage;
            self.i_frames = 12;
        }
    }

    /// Checks if the entity is dead
    pub fn should_kill(&self) -> (res: bool)
        ensures
            res == (self.health_spec() <= 0),
    {
        self.health <= 0
    }
}

} // verus!
