use vstd::prelude::*;

verus! {

/// The edges of a closed outline: each point joined to the next, and the last
/// joined back to the first.
pub open spec fn ring_edge<T>(points: Seq<T>, i: int) -> (T, T) {
    if i + 1 < points.len() {
        (points[i], points[i + 1])
    } else {
        (points[i], points[0])
    }
}

/// Turns the points of a wall (or of a map's outline) into the edges of the
/// closed shape they outline: one edge per point, from that point to the next,
/// the last point closing the shape back to the first.
pub fn closed_ring<T: Copy>(points: &Vec<T>) -> (res: Vec<(T, T)>)
    ensures
        res@.len() == points@.len(),
        forall|i: int| 0 <= i < points@.len() ==> #[trigger] res@[i] == ring_edge(points@, i),
{
    let mut res: Vec<(T, T)> = Vec::new();
    let n = points.len();
    let mut i: usize = 0;
    while i < n
        invariant
            n == points@.len(),
            i <= n,
            res@.len() == i,
            forall|k: int| 0 <= k < i ==> #[trigger] res@[k] == ring_edge(points@, k),
        decreases n - i,
    {
        if i + 1 < n {
            res.push((points[i], points[i + 1]));
        } else {
            res.push((points[i], points[0]));
        }
        i = i + 1;
    }
    res
}

/// The edges of an outline close up: each edge ends where the next one starts,
/// and the last edge ends where the first one starts.
pub proof fn lemma_ring_closes<T>(points: Seq<T>, i: int)
    requires
        0 <= i < points.len(),
    ensures
        ring_edge(points, i).1 == ring_edge(points, (i + 1) % (points.len() as int)).0,
        ring_edge(points, i).0 == points[i],
{
    if i + 1 < points.len() {
        vstd::arithmetic::div_mod::lemma_small_mod((i + 1) as nat, points.len());
    } else {
        vstd::arithmetic::div_mod::lemma_mod_self_0(points.len() as int);
    }
}

/// Whether `name` is one of the known names.
pub open spec fn is_known(known: Seq<String>, name: Seq<char>) -> bool {
    exists|j: int| 0 <= j < known.len() && (#[trigger] known[j])@ == name
}

/// The positions, in order, of the placed names that are known; the others
/// are skipped.
pub open spec fn known_positions(names: Seq<String>, known: Seq<String>) -> Seq<usize>
    decreases names.len(),
{
    if names.len() == 0 {
        Seq::empty()
    } else {
        let rest = known_positions(names.drop_last(), known);
        if is_known(known, names.last()@) {
            rest.push((names.len() - 1) as usize)
        } else {
            rest
        }
    }
}

/// Whether `name` is one of the known names.
fn contains_name(known: &Vec<String>, name: &String) -> (res: bool)
    ensures
        res == is_known(known@, name@),
{
    let mut j: usize = 0;
    while j < known.len()
        invariant
            j <= known@.len(),
            forall|m: int| 0 <= m < j ==> (#[trigger] known@[m])@ != name@,
        decreases known@.len() - j,
    {
        if known[j] == *name {
            return true;
        }
        j = j + 1;
    }
    false
}

/// Picks, among the enemies or NPCs a map places (given by the names of their
/// types), those whose type is known: gives their positions in the map's list,
/// in order. A placement of an unknown type is skipped.
pub fn known_placements(names: &Vec<String>, known: &Vec<String>) -> (res: Vec<usize>)
    ensures
        res@ == known_positions(names@, known@),
{
    let mut res: Vec<usize> = Vec::new();
    let mut i: usize = 0;
    while i < names.len()
        invariant
            i <= names@.len(),
            res@ == known_positions(names@.take(i as int), known@),
        decreases names@.len() - i,
    {
        proof {
            assert(names@.take(i + 1).drop_last() =~= names@.take(i as int));
            assert(names@.take(i + 1).last() == names@[i as int]);
        }
        if contains_name(known, &names[i]) {
            res.push(i);
        }
        i = i + 1;
    }
    proof {
        assert(names@.take(names@.len() as int) =~= names@);
    }
    res
}

/// A placement is kept exactly when its type is known, however often the same
/// type is placed: position `k` is in the result just when the name placed
/// there is known, every position in the result is a placement, and the
/// positions come in increasing order. (A list of placements is never longer
/// than a `usize` can count.)
pub proof fn lemma_known_positions(names: Seq<String>, known: Seq<String>)
    requires
        names.len() <= usize::MAX,
    ensures
        forall|k: int|
            0 <= k < names.len() ==> (known_positions(names, known).contains(k as usize) <==> is_known(
                known,
                #[trigger] names[k]@,
            )),
        forall|a: int|
            0 <= a < known_positions(names, known).len() ==> #[trigger] known_positions(names, known)[a] < names.len(),
        forall|a: int, b: int|
            0 <= a < b < known_positions(names, known).len() ==> #[trigger] known_positions(names, known)[a]
                < #[trigger] known_positions(names, known)[b],
    decreases names.len(),
{
    if names.len() > 0 {
        let init = names.drop_last();
        lemma_known_positions(init, known);
        let rest = known_positions(init, known);
        let res = known_positions(names, known);
        let n1 = names.len() - 1;
        let last = n1 as usize;
        assert(last as int == n1);
        if is_known(known, names.last()@) {
            assert(res == rest.push(last));
        } else {
            assert(res == rest);
        }
        assert forall|a: int| 0 <= a < res.len() implies #[trigger] res[a] < names.len() by {
            if a < rest.len() {
                assert(res[a] == rest[a]);
            }
        }
        assert forall|a: int, b: int| 0 <= a < b < res.len() implies #[trigger] res[a] < #[trigger] res[b] by {
            assert(res[a] == rest[a]);
            if b < rest.len() {
                assert(res[b] == rest[b]);
            } else {
                assert(res[b] == last);
                assert(rest[a] < init.len());
            }
        }
        assert forall|k: int| 0 <= k < names.len() implies (res.contains(k as usize) <==> is_known(
            known,
            #[trigger] names[k]@,
        )) by {
            if k < n1 {
                assert(init[k] == names[k]);
                assert((k as usize) as int == k);
                if res.contains(k as usize) {
                    let a = choose|a: int| 0 <= a < res.len() && res[a] == k as usize;
                    if a == rest.len() {
                        assert(res[a] == last);
                    } else {
                        assert(rest[a] == k as usize);
                    }
                    assert(rest.contains(k as usize));
                }
                if rest.contains(k as usize) {
                    let a = choose|a: int| 0 <= a < rest.len() && rest[a] == k as usize;
                    assert(res[a] == k as usize);
                }
            } else {
                assert(names.last() == names[k]);
                if is_known(known, names.last()@) {
                    assert(res[rest.len() as int] == last);
                } else {
                    if res.contains(last) {
                        let a = choose|a: int| 0 <= a < res.len() && res[a] == last;
                        assert(rest[a] < init.len());
                    }
                }
            }
        }
    }
}

} // verus!
