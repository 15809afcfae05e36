use vstd::prelude::*;

verus! {

/// Who an attack belongs to.
#[derive(PartialEq, Eq, Structural, Clone, Copy, Debug)]
pub enum Owner {
    Player,
    Enemy,
}

/// How an attack strikes.
#[derive(PartialEq, Eq, Structural, Clone, Copy, Debug)]
pub enum AttackType {
    Physical,
    Burst,
    Projectile,
    Hitscan,
}

/// Whether an attack of this type ends when its animation ends (rather than
/// when its lifetime runs out).
pub open spec fn ends_with_animation(t: AttackType) -> bool {
    t == AttackType::Physical || t == AttackType::Burst
}

impl AttackType {
    /// Checks whether an attack of this type ends when its animation ends;
    /// the others end when their lifetime runs out.
    pub fn ends_with_animation(&self) -> (res: bool)
        ensures
            res == ends_with_animation(*self),
    {
        *self == AttackType::Physical || *self == AttackType::Burst
    }
}

/// What parrying needs to know of an attack.
#[derive(PartialEq, Eq, Structural, Clone, Copy, Debug)]
pub struct ParryState {
    pub atk_type: AttackType,
    pub owner: Owner,
    pub is_parried: bool,
}

/// Whether attack `i` may start a parry: it must be a physical attack that has
/// not been parried.
pub open spec fn can_start_parry(s: Seq<ParryState>, i: int) -> bool {
    s[i].atk_type == AttackType::Physical && !s[i].is_parried
}

/// Whether attack `i` parries attack `j`: `j` is another attack that touches
/// `i` and has not been parried, and is either a projectile or a physical
/// attack of the other side. Bursts and hitscans cannot be parried.
pub open spec fn can_parry(s: Seq<ParryState>, touching: Seq<Vec<bool>>, i: int, j: int) -> bool {
    &&& j != i
    &&& touching[j]@[i]
    &&& !s[j].is_parried
    &&& match s[j].atk_type {
        AttackType::Physical => s[i].owner != s[j].owner,
        AttackType::Projectile => true,
        _ => false,
    }
}

/// The attack that `i` parries among those below position `k`: the highest one
/// that it can parry.
pub open spec fn partner_below(s: Seq<ParryState>, touching: Seq<Vec<bool>>, i: int, k: int) -> Option<int>
    decreases k,
{
    if k <= 0 {
        None
    } else if can_parry(s, touching, i, k - 1) {
        Some(k - 1)
    } else {
        partner_below(s, touching, i, k - 1)
    }
}

pub proof fn lemma_partner_in_range(s: Seq<ParryState>, touching: Seq<Vec<bool>>, i: int, k: int)
    ensures
        partner_below(s, touching, i, k) matches Some(j) ==> 0 <= j < k && can_parry(s, touching, i, j),
    decreases k,
{
    if k > 0 {
        lemma_partner_in_range(s, touching, i, k - 1);
    }
}

/// The attacks after `i` parries `j`: both are parried, `j` changes sides to
/// `i`'s owner, and a parried projectile becomes a hitscan.
pub open spec fn apply_parry(s: Seq<ParryState>, i: int, j: int) -> Seq<ParryState> {
    s.update(i, ParryState { atk_type: s[i].atk_type, owner: s[i].owner, is_parried: true }).update(
        j,
        ParryState {
            atk_type: if s[j].atk_type == AttackType::Projectile {
                AttackType::Hitscan
            } else {
                s[j].atk_type
            },
            owner: s[i].owner,
            is_parried: true,
        },
    )
}

/// What attack `i` does in its turn: if it can start a parry and finds an
/// attack to parry, it parries it.
pub open spec fn parry_step(s: Seq<ParryState>, touching: Seq<Vec<bool>>, i: int) -> (
    Seq<ParryState>,
    Seq<(usize, usize)>,
) {
    if can_start_parry(s, i) {
        match partner_below(s, touching, i, s.len() as int) {
            Some(j) => (apply_parry(s, i, j), seq![(i as usize, j as usize)]),
            None => (s, Seq::empty()),
        }
    } else {
        (s, Seq::empty())
    }
}

/// The attacks and the parries (parrier, parried) after the attacks below
/// position `k` take their turns, from the highest position down.
pub open spec fn parries_below(s: Seq<ParryState>, touching: Seq<Vec<bool>>, k: nat) -> (
    Seq<ParryState>,
    Seq<(usize, usize)>,
)
    decreases k,
{
    if k == 0 {
        (s, Seq::empty())
    } else {
        let first = parry_step(s, touching, k - 1);
        let rest = parries_below(first.0, touching, (k - 1) as nat);
        (rest.0, first.1 + rest.1)
    }
}

/// Whether `touching` says, for each two of `n` attacks, whether they touch.
pub open spec fn is_touch_grid(touching: Seq<Vec<bool>>, n: nat) -> bool {
    &&& touching.len() == n
    &&& forall|r: int| 0 <= r < n ==> (#[trigger] touching[r])@.len() == n
}

/// The attack that attack `i` parries, if any.
fn find_partner(attacks: &Vec<ParryState>, touching: &Vec<Vec<bool>>, i: usize) -> (res: Option<usize>)
    requires
        i < attacks@.len(),
        is_touch_grid(touching@, attacks@.len()),
    ensures
        res == (match partner_below(attacks@, touching@, i as int, attacks@.len() as int) {
            Some(j) => Some(j as usize),
            None => None::<usize>,
        }),
        res matches Some(j) ==> j < attacks@.len(),
{
    let n = attacks.len();
    let mut k: usize = n;
    while k > 0
        invariant
            n == attacks@.len(),
            k <= n,
            i < n,
            is_touch_grid(touching@, n as nat),
            partner_below(attacks@, touching@, i as int, n as int) == partner_below(
                attacks@,
                touching@,
                i as int,
                k as int,
            ),
        decreases k,
    {
        let j = k - 1;
        let other = attacks[j];
        let touches = touching[j][i];
        let parries = j != i && touches && !other.is_parried && match other.atk_type {
            AttackType::Physical => attacks[i].owner != other.owner,
            AttackType::Projectile => true,
            _ => false,
        };
        if parries {
            return Some(j);
        }
        k = j;
    }
    None
}

/// Resolves parries between the attacks, given which pairs touch
/// (`touching[j][i]` says whether attack `j` touches attack `i`). Each attack,
/// from the last to the first, that is physical and not yet parried parries
/// the last other attack it can parry (see `can_parry`). Updates the attacks
/// and gives the parries made, in order, as (parrier, parried) positions.
pub fn plan_parries(attacks: &mut Vec<ParryState>, touching: &Vec<Vec<bool>>) -> (res: Vec<(usize, usize)>)
    requires
        is_touch_grid(touching@, old(attacks)@.len()),
    ensures
        (final(attacks)@, res@) == parries_below(old(attacks)@, touching@, old(attacks)@.len()),
        parry_laws(old(attacks)@, final(attacks)@, res@),
{
    let ghost s0 = attacks@;
    let n = attacks.len();
    let mut events: Vec<(usize, usize)> = Vec::new();
    let mut i: usize = n;
    while i > 0
        invariant
            n == attacks@.len(),
            i <= n,
            is_touch_grid(touching@, n as nat),
            parries_below(s0, touching@, n as nat) == (
                parries_below(attacks@, touching@, i as nat).0,
                events@ + parries_below(attacks@, touching@, i as nat).1,
            ),
        decreases i,
    {
        let cur = i - 1;
        let ghost before = attacks@;
        let ghost before_events = events@;
        let atk = attacks[cur];
        proof {
            lemma_partner_in_range(before, touching@, cur as int, n as int);
        }
        if atk.atk_type == AttackType::Physical && !atk.is_parried {
            match find_partner(attacks, touching, cur) {
                Some(j) => {
                    let other = attacks[j];
                    attacks.set(cur, ParryState { atk_type: atk.atk_type, owner: atk.owner, is_parried: true });
                    let new_type = if other.atk_type == AttackType::Projectile {
                        AttackType::Hitscan
                    } else {
                        other.atk_type
                    };
                    attacks.set(j, ParryState { atk_type: new_type, owner: atk.owner, is_parried: true });
                    events.push((cur, j));
                    proof {
                        assert(attacks@ =~= apply_parry(before, cur as int, j as int));
                        assert(events@ =~= before_events + seq![(cur, j)]);
                    }
                },
                None => {},
            }
        }
        proof {
            let step = parry_step(before, touching@, cur as int);
            assert(attacks@ == step.0);
            assert(events@ =~= before_events + step.1);
            let rest = parries_below(step.0, touching@, cur as nat);
            assert(parries_below(before, touching@, i as nat) == (rest.0, step.1 + rest.1));
            assert(before_events + (step.1 + rest.1) =~= (before_events + step.1) + rest.1);
        }
        i = cur;
    }
    proof {
        assert(events@ + Seq::<(usize, usize)>::empty() =~= events@);
        lemma_parry_laws(s0, touching@, n as nat);
    }
    events
}

/// Whether attack `x` takes part in a parry.
pub open spec fn in_parry(e: (usize, usize), x: int) -> bool {
    e.0 as int == x || e.1 as int == x
}

/// What a parry (parrier `e.0`, parried `e.1`) means for the attacks before
/// (`s`) and after (`f`) the parries are resolved: a physical attack that had
/// not been parried parried another attack that had not been parried, which
/// was a projectile or a physical attack of the other side; afterwards both
/// are parried, the parried one belongs to the parrier's owner, and a parried
/// projectile has become a hitscan.
pub open spec fn parry_happened(s: Seq<ParryState>, f: Seq<ParryState>, e: (usize, usize)) -> bool {
    let i = e.0 as int;
    let j = e.1 as int;
    &&& i < s.len() && j < s.len() && i != j
    &&& s[i].atk_type == AttackType::Physical && !s[i].is_parried
    &&& !s[j].is_parried
    &&& (s[j].atk_type == AttackType::Projectile || (s[j].atk_type == AttackType::Physical && s[j].owner
        != s[i].owner))
    &&& f[i] == ParryState { atk_type: AttackType::Physical, owner: s[i].owner, is_parried: true }
    &&& f[j] == ParryState {
        atk_type: if s[j].atk_type == AttackType::Projectile {
            AttackType::Hitscan
        } else {
            AttackType::Physical
        },
        owner: s[i].owner,
        is_parried: true,
    }
}

/// Whether two parries involve four different attacks.
pub open spec fn apart(e1: (usize, usize), e2: (usize, usize)) -> bool {
    &&& !in_parry(e2, e1.0 as int)
    &&& !in_parry(e2, e1.1 as int)
}

/// The laws of resolving parries: every parry is one `parry_happened`
/// describes, no attack takes part in two parries, and an attack that takes
/// part in none is left as it was.
pub open spec fn parry_laws(s: Seq<ParryState>, f: Seq<ParryState>, ev: Seq<(usize, usize)>) -> bool {
    &&& f.len() == s.len()
    &&& forall|a: int| 0 <= a < ev.len() ==> parry_happened(s, f, #[trigger] ev[a])
    &&& forall|a: int, b: int|
        0 <= a < ev.len() && 0 <= b < ev.len() && a != b ==> apart(#[trigger] ev[a], #[trigger] ev[b])
    &&& forall|x: int|
        0 <= x < s.len() && (forall|a: int| 0 <= a < ev.len() ==> !in_parry(#[trigger] ev[a], x)) ==> #[trigger] f[x]
            == s[x]
}

/// Resolving parries obeys the laws of parrying (see `parry_laws`): each
/// parry is made by an unparried physical attack against an unparried
/// projectile or enemy physical attack, leaves both parried and on the
/// parrier's side, no attack is parried or parries twice, and the attacks
/// outside every parry are unchanged.
pub proof fn lemma_parry_laws(s: Seq<ParryState>, touching: Seq<Vec<bool>>, k: nat)
    requires
        k <= s.len(),
        s.len() <= usize::MAX,
    ensures
        parry_laws(s, parries_below(s, touching, k).0, parries_below(s, touching, k).1),
    decreases k,
{
    if k == 0 {
        return;
    }
    let i = k - 1;
    let step = parry_step(s, touching, i);
    let s1 = step.0;
    let rest = parries_below(s1, touching, (k - 1) as nat);
    let f = rest.0;
    let ev = step.1 + rest.1;
    assert(parries_below(s, touching, k) == (f, ev));
    lemma_partner_in_range(s, touching, i, s.len() as int);
    assert(s1.len() == s.len());
    lemma_parry_laws(s1, touching, (k - 1) as nat);
    let r = rest.1;
    if step.1.len() == 0 {
        assert(s1 == s);
        assert(ev =~= r);
        return;
    }
    let j = partner_below(s, touching, i, s.len() as int)->0;
    assert(step.1 == seq![(i as usize, j as usize)]);
    assert(s1 == apply_parry(s, i, j));
    // The two attacks of this turn's parry are parried, so no later parry involves them.
    assert forall|a: int| 0 <= a < r.len() implies !in_parry(#[trigger] r[a], i) && !in_parry(r[a], j) by {
        assert(parry_happened(s1, f, r[a]));
    }
    assert(f[i] == s1[i]);
    assert(f[j] == s1[j]);
    assert forall|a: int| 0 <= a < ev.len() implies parry_happened(s, f, #[trigger] ev[a]) by {
        if a == 0 {
            assert(ev[a] == (i as usize, j as usize));
        } else {
            let e = r[a - 1];
            assert(ev[a] == e);
            assert(parry_happened(s1, f, e));
            assert(e.0 as int != i && e.0 as int != j);
            assert(e.1 as int != i && e.1 as int != j);
            assert(s1[e.0 as int] == s[e.0 as int]);
            assert(s1[e.1 as int] == s[e.1 as int]);
        }
    }
    assert forall|a: int, b: int| 0 <= a < ev.len() && 0 <= b < ev.len() && a != b implies apart(
        #[trigger] ev[a],
        #[trigger] ev[b],
    ) by {
        if a == 0 {
            assert(ev[b] == r[b - 1]);
            assert(!in_parry(r[b - 1], i) && !in_parry(r[b - 1], j));
        } else if b == 0 {
            assert(ev[a] == r[a - 1]);
            assert(!in_parry(r[a - 1], i) && !in_parry(r[a - 1], j));
        } else {
            assert(ev[a] == r[a - 1]);
            assert(ev[b] == r[b - 1]);
        }
    }
    assert forall|x: int|
        0 <= x < s.len() && (forall|a: int| 0 <= a < ev.len() ==> !in_parry(#[trigger] ev[a], x)) implies #[trigger] f[x]
        == s[x] by {
        assert(!in_parry(ev[0], x));
        assert forall|a: int| 0 <= a < r.len() implies !in_parry(#[trigger] r[a], x) by {
            assert(ev[a + 1] == r[a]);
        }
        assert(f[x] == s1[x]);
    }
}

/// Bursts and hitscans cannot be parried, and never parry: resolving parries
/// leaves every burst and hitscan attack as it was.
pub proof fn lemma_unparryable_unchanged(s: Seq<ParryState>, touching: Seq<Vec<bool>>, x: int)
    requires
        0 <= x < s.len(),
        s.len() <= usize::MAX,
        s[x].atk_type == AttackType::Burst || s[x].atk_type == AttackType::Hitscan,
    ensures
        parries_below(s, touching, s.len()).0[x] == s[x],
{
    lemma_parry_laws(s, touching, s.len());
    let f = parries_below(s, touching, s.len()).0;
    let ev = parries_below(s, touching, s.len()).1;
    assert forall|a: int| 0 <= a < ev.len() implies !in_parry(#[trigger] ev[a], x) by {
        assert(parry_happened(s, f, ev[a]));
    }
}

/// If some attack below position `k` can be parried by `i`, `i` finds a partner
/// below `k`.
proof fn lemma_partner_found(s: Seq<ParryState>, touching: Seq<Vec<bool>>, i: int, j: int, k: int)
    requires
        0 <= j < k,
        can_parry(s, touching, i, j),
    ensures
        partner_below(s, touching, i, k) is Some,
    decreases k,
{
    if k - 1 != j && !can_parry(s, touching, i, k - 1) {
        lemma_partner_found(s, touching, i, j, k - 1);
    }
}

/// An unparried physical attack can parry every other unparried projectile that
/// touches it, whichever side either is on, and so always finds an attack to
/// parry when one touches it.
pub proof fn lemma_projectiles_always_parryable(s: Seq<ParryState>, touching: Seq<Vec<bool>>, i: int, j: int)
    requires
        0 <= i < s.len(),
        0 <= j < s.len(),
        i != j,
        touching[j]@[i],
        !s[j].is_parried,
        s[j].atk_type == AttackType::Projectile,
    ensures
        can_parry(s, touching, i, j),
        partner_below(s, touching, i, s.len() as int) is Some,
{
    lemma_partner_found(s, touching, i, j, s.len() as int);
}

/// The last attack takes its turn first: when it is an unparried physical attack
/// and an unparried projectile touches it, the first parry made is its own, and
/// both it and the attack it parries end up parried, on its side.
pub proof fn lemma_last_attack_parries_projectile(s: Seq<ParryState>, touching: Seq<Vec<bool>>, j: int)
    requires
        s.len() >= 1,
        s.len() <= usize::MAX,
        s[s.len() - 1].atk_type == AttackType::Physical,
        !s[s.len() - 1].is_parried,
        0 <= j < s.len() - 1,
        touching[j]@[s.len() - 1],
        !s[j].is_parried,
        s[j].atk_type == AttackType::Projectile,
    ensures
        parries_below(s, touching, s.len()).1.len() >= 1,
        parries_below(s, touching, s.len()).1[0].0 == s.len() - 1,
        parries_below(s, touching, s.len()).0[s.len() - 1].is_parried,
        parries_below(s, touching, s.len()).0[parries_below(s, touching, s.len()).1[0].1 as int].owner
            == s[s.len() - 1].owner,
        parries_below(s, touching, s.len()).0[parries_below(s, touching, s.len()).1[0].1 as int].is_parried,
{
    let n = s.len();
    let i = n - 1;
    lemma_projectiles_always_parryable(s, touching, i, j);
    lemma_partner_in_range(s, touching, i, n as int);
    let step = parry_step(s, touching, i);
    assert(step.1.len() == 1);
    assert(step.1[0].0 == i);
    let rest = parries_below(step.0, touching, (n - 1) as nat);
    assert(parries_below(s, touching, n) == (rest.0, step.1 + rest.1));
    assert((step.1 + rest.1)[0] == step.1[0]);
    lemma_parry_laws(s, touching, n);
    let ev = parries_below(s, touching, n).1;
    let f = parries_below(s, touching, n).0;
    assert(parry_happened(s, f, ev[0]));
}

} // verus!
