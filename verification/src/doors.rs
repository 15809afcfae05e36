use vstd::prelude::*;

verus! {

/// A compass direction in which a door faces.
#[derive(PartialEq, Eq, Structural, Clone, Copy, Debug)]
pub enum Direction {
    North,
    South,
    East,
    West,
}

/// Two directions oppose each other when one is north and the other south,
/// or one is east and the other west.
pub open spec fn opposing(a: Direction, b: Direction) -> bool {
    ||| (a == Direction::North && b == Direction::South)
    ||| (a == Direction::South && b == Direction::North)
    ||| (a == Direction::East && b == Direction::West)
    ||| (a == Direction::West && b == Direction::East)
}

/// Opposition is symmetric and no direction opposes itself; each direction
/// has exactly one opposite.
pub proof fn lemma_opposing_laws(a: Direction, b: Direction, c: Direction)
    ensures
        opposing(a, b) == opposing(b, a),
        !opposing(a, a),
        opposing(a, b) && opposing(a, c) ==> b == c,
{
}

impl Direction {
    /// Checks if the provided direction is opposite of the current one
    pub fn is_opposing(&self, other: &Self) -> (res: bool)
        ensures
            res == opposing(*self, *other),
    {
        let north = *self == Direction::North || *other == Direction::North;
        let south = *self == Direction::South || *other == Direction::South;
        let east = *self == Direction::East || *other == Direction::East;
        let west = *self == Direction::West || *other == Direction::West;
        if north && south {
            return true;
        }
        if east && west {
            return true;
        }
        false
    }
}

/// What the doors of a destination map say about the way back.
#[derive(PartialEq, Eq, Structural, Clone, Copy, Debug)]
pub enum ReturnDoor {
    /// No door of the destination leads back to the map being left.
    Missing,
    /// The door at this index leads back and faces the opposite way.
    Found(usize),
    /// The door at this index leads back but does not face the opposite way.
    Mismatched(usize),
}

/// Whether the door at `k` leads back to `current_map`.
pub open spec fn leads_back(doors: Seq<(Direction, String)>, k: int, current_map: Seq<char>) -> bool {
    doors[k].1@ == current_map
}

/// The door that the player comes out of: the first door of the destination
/// map whose own destination is the map being left. It must face the opposite
/// way of the door that was entered.
pub open spec fn spec_return_door(
    entered: Direction,
    doors: Seq<(Direction, String)>,
    current_map: Seq<char>,
) -> ReturnDoor {
    if exists|k: int| 0 <= k < doors.len() && leads_back(doors, k, current_map) {
        let k = choose|k: int|
            0 <= k < doors.len() && leads_back(doors, k, current_map) && forall|m: int|
                0 <= m < k ==> !leads_back(doors, m, current_map);
        if opposing(doors[k].0, entered) {
            ReturnDoor::Found(k as usize)
        } else {
            ReturnDoor::Mismatched(k as usize)
        }
    } else {
        ReturnDoor::Missing
    }
}

/// Searches the doors of the destination map (each given by the way it faces
/// and the map it leads to) for the door that leads back to `current_map`.
pub fn find_return_door(entered: Direction, dest_doors: &Vec<(Direction, String)>, current_map: &String) -> (res:
    ReturnDoor)
    ensures
        match res {
            ReturnDoor::Missing => forall|k: int|
                0 <= k < dest_doors@.len() ==> !leads_back(dest_doors@, k, current_map@),
            ReturnDoor::Found(k) | ReturnDoor::Mismatched(k) => {
                &&& k < dest_doors@.len()
                &&& leads_back(dest_doors@, k as int, current_map@)
                &&& forall|m: int| 0 <= m < k ==> !leads_back(dest_doors@, m, current_map@)
                &&& (res is Found <==> opposing(dest_doors@[k as int].0, entered))
            },
        },
        res == spec_return_door(entered, dest_doors@, current_map@),
{
    let mut k: usize = 0;
    while k < dest_doors.len()
        invariant
            k <= dest_doors@.len(),
            forall|m: int| 0 <= m < k ==> !leads_back(dest_doors@, m, current_map@),
        decreases dest_doors@.len() - k,
    {
        if dest_doors[k].1 == *current_map {
            let res = if dest_doors[k].0.is_opposing(&entered) {
                ReturnDoor::Found(k)
            } else {
                ReturnDoor::Mismatched(k)
            };
            proof {
                assert(leads_back(dest_doors@, k as int, current_map@));
                let w = choose|j: int|
                    0 <= j < dest_doors@.len() && leads_back(dest_doors@, j, current_map@) && forall|m: int|
                        0 <= m < j ==> !leads_back(dest_doors@, m, current_map@);
                assert(w == k as int) by {
                    if w < k as int {
                        assert(!leads_back(dest_doors@, w, current_map@));
                    }
                    if w > k as int {
                        assert(!leads_back(dest_doors@, k as int, current_map@));
                    }
                }
            }
            return res;
        }
        k = k + 1;
    }
    ReturnDoor::Missing
}

} // verus!
