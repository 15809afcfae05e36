use vstd::prelude::*;

verus! {

/// The weapon that switching from `current` selects: past the last slot it
/// wraps to the first; otherwise it is the next unlocked slot after `current`.
pub open spec fn swap_target(current: int, unlocked: Seq<bool>) -> int {
    if current >= unlocked.len() - 1 {
        0
    } else {
        choose|j: int|
            current < j < unlocked.len() && unlocked[j] && forall|m: int| current < m < j ==> !unlocked[m]
    }
}

/// Whether switching from `current` finds a weapon: there must be a weapon,
/// and the slot switched to must be unlocked (when it wraps, the first one;
/// otherwise one of the slots after `current`).
pub open spec fn swap_possible(current: int, unlocked: Seq<bool>) -> bool {
    &&& unlocked.len() >= 1
    &&& current >= unlocked.len() - 1 ==> unlocked[0]
    &&& current < unlocked.len() - 1 ==> exists|j: int| current < j < unlocked.len() && unlocked[j]
}

/// Switches to the next unlocked weapon, given which weapon slots are unlocked.
pub fn swap_weapons(current_weapon: &usize, unlocked: &[bool]) -> (res: usize)
    requires
        *current_weapon < usize::MAX,
        swap_possible(*current_weapon as int, unlocked@),
    ensures
        res < unlocked@.len(),
        unlocked@[res as int],
        res == swap_target(*current_weapon as int, unlocked@),
        *current_weapon >= unlocked@.len() - 1 ==> res == 0,
        *current_weapon < unlocked@.len() - 1 ==> {
            &&& *current_weapon < res
            &&& forall|m: int| *current_weapon < m < res ==> !unlocked@[m]
        },
{
    let current = *current_weapon;
    let len = unlocked.len();
    if current >= len - 1 {
        return 0;
    }
    let mut to_return: usize = current + 1;
    while !unlocked[to_return]
        invariant
            current < to_return < len,
            len == unlocked@.len(),
            current < len - 1,
            exists|j: int| current < j < len && unlocked@[j],
            forall|m: int| current < m < to_return ==> !unlocked@[m],
        decreases len - to_return,
    {
        proof {
            let j = choose|j: int| current < j < len && unlocked@[j];
            assert(j != to_return);
            if j < to_return {
                assert(!unlocked@[j]);
            }
        }
        to_return = to_return + 1;
    }
    proof {
        let t = to_return as int;
        let w = choose|j: int|
            current < j < unlocked@.len() && unlocked@[j] && forall|m: int| current < m < j ==> !unlocked@[m];
        assert(current < t < unlocked@.len() && unlocked@[t] && forall|m: int| current < m < t ==> !unlocked@[m]);
        assert(w == t) by {
            if w < t {
                assert(!unlocked@[w]);
            }
            if w > t {
                assert(!unlocked@[t]);
            }
        }
    }
    to_return
}

} // verus!
