use vstd::prelude::*;

use crate::combat::{AttackType, Owner};

verus! {

/// One line of dialogue: who speaks, their portrait, and what they say.
#[derive(Debug)]
pub struct Dialogue {
    name: String,
    portrait: String,
    text: String,
}

impl Dialogue {
    /// A line of dialogue.
    pub fn new(name: String, portrait: String, text: String) -> (res: Self)
        ensures
            res.name_spec() == name@,
            res.portrait_spec() == portrait@,
            res.text_spec() == text@,
    {
        Dialogue { name, portrait, text }
    }

    pub closed spec fn name_spec(&self) -> Seq<char> {
        self.name@
    }

    pub closed spec fn portrait_spec(&self) -> Seq<char> {
        self.portrait@
    }

    pub closed spec fn text_spec(&self) -> Seq<char> {
        self.text@
    }

    /// Gets the name of the character as a &str
    pub fn get_name(&self) -> (res: &str)
        ensures
            res@ == self.name_spec(),
    {
        self.name.as_str()
    }

    /// Gets the text inside as a &str
    pub fn get_text(&self) -> (res: &str)
        ensures
            res@ == self.text_spec(),
    {
        self.text.as_str()
    }

    /// Gets the key of the portrait's texture as a &str
    pub fn get_portrait_key(&self) -> (res: &str)
        ensures
            res@ == self.portrait_spec(),
    {
        self.portrait.as_str()
    }
}

/// A message an NPC can say: a sequence of dialogue lines read one after the
/// other, said with a given probability.
#[derive(Debug)]
pub struct Message {
    required_flags: Vec<String>,
    unlocked_flags: Vec<String>,
    probability: u8,
    text: Vec<Dialogue>,
    index: usize,
    should_stop: bool,
}

/// Where reading a message stands: the line being read, and whether the
/// reading is over.
pub struct Reading {
    pub index: nat,
    pub stopped: bool,
}

/// Moving to the next line: the next one if there is one, otherwise the
/// reading stops on the last line.
pub open spec fn next_reading(r: Reading, lines: nat) -> Reading {
    if r.index + 1 < lines {
        Reading { index: r.index + 1, stopped: r.stopped }
    } else {
        Reading { index: r.index, stopped: true }
    }
}

/// The reading after moving to the next line `k` times.
pub open spec fn reading_after(r: Reading, lines: nat, k: nat) -> Reading
    decreases k,
{
    if k == 0 {
        r
    } else {
        next_reading(reading_after(r, lines, (k - 1) as nat), lines)
    }
}

/// Whether a roll of the dice lets a message with the given probability be
/// read: the roll must not exceed the probability.
pub open spec fn roll_accepted(roll: u8, probability: u8) -> bool {
    roll <= probability
}

/// A number drawn at random from `low` up to, but not including, `high`.
/// Calls `macroquad::rand::gen_range`, which scales a random `u32` into the
/// range in `f64` and truncates; the contract states only that the result lies
/// in the range.
#[verifier::external_body]
fn random_u8(low: u8, high: u8) -> (r: u8)
    requires
        low < high,
    ensures
        low <= r < high,
{
    macroquad::rand::gen_range(low, high)
}

/// The range a message's roll is drawn from: 0 up to, but not including, 255.
pub open spec fn roll_bounds_spec() -> (u8, u8) {
    (0, 255)
}

/// The range a message's roll is drawn from, low end included and high end
/// excluded.
pub fn roll_bounds() -> (res: (u8, u8))
    ensures
        res == roll_bounds_spec(),
{
    (0, 255)
}

/// Whether a roll lies in the range rolls are drawn from.
pub open spec fn roll_in_bounds(roll: u8) -> bool {
    roll_bounds_spec().0 <= roll < roll_bounds_spec().1
}

/// Draws the roll that decides whether a message is read, at random from
/// `roll_bounds`.
pub fn draw_roll() -> (roll: u8)
    ensures
        roll_in_bounds(roll),
{
    let (low, high) = roll_bounds();
    random_u8(low, high)
}

impl Message {
    #[verifier::type_invariant]
    closed spec fn well_formed(&self) -> bool {
        if self.text@.len() == 0 {
            self.index == 0
        } else {
            self.index < self.text@.len()
        }
    }

    pub closed spec fn lines(&self) -> Seq<Dialogue> {
        self.text@
    }

    pub closed spec fn probability_spec(&self) -> u8 {
        self.probability
    }

    pub closed spec fn reading(&self) -> Reading {
        Reading { index: self.index as nat, stopped: self.should_stop }
    }

    pub closed spec fn required_flags_spec(&self) -> Seq<String> {
        self.required_flags@
    }

    pub closed spec fn unlocked_flags_spec(&self) -> Seq<String> {
        self.unlocked_flags@
    }

    /// A message that has not been read yet: it starts on its first line.
    pub fn new(
        required_flags: Vec<String>,
        unlocked_flags: Vec<String>,
        probability: u8,
        text: Vec<Dialogue>,
    ) -> (res: Self)
        ensures
            res.lines() == text@,
            res.probability_spec() == probability,
            res.reading() == (Reading { index: 0, stopped: false }),
            res.required_flags_spec() == required_flags@,
            res.unlocked_flags_spec() == unlocked_flags@,
    {
        Message { required_flags, unlocked_flags, probability, text, index: 0, should_stop: false }
    }

    /// The lines of the message, in the order they are read.
    pub fn text(&self) -> (res: &Vec<Dialogue>)
        ensures
            res@ == self.lines(),
    {
        &self.text
    }

    /// The probability, out of 255, that the message is read.
    pub fn probability(&self) -> (res: u8)
        ensures
            res == self.probability_spec(),
    {
        self.probability
    }

    /// Checks whether the given roll lets the message be read.
    pub fn accepts_roll(&self, roll: u8) -> (res: bool)
        ensures
            res == roll_accepted(roll, self.probability_spec()),
    {
        roll <= self.probability
    }

    /// Checks if the message is able to be read: a number is drawn from 0 to
    /// 254, and the message is read when it does not exceed the probability.
    /// The draw is random: any message may be read, and one whose probability
    /// is 254 or more always is (see `accepts_roll` for a given draw).
    pub fn should_read(&self) -> (res: bool)
        ensures
            self.probability_spec() >= 254 ==> res,
            exists|roll: u8| roll_in_bounds(roll) && res == #[trigger] roll_accepted(roll, self.probability_spec()),
    {
        let roll = draw_roll();
        self.accepts_roll(roll)
    }

    /// Gets the message's current dialogue based on its index. The message must
    /// have at least one line.
    pub fn get_dialogue(&self) -> (res: &Dialogue)
        requires
            self.lines().len() > 0,
        ensures
            self.reading().index < self.lines().len(),
            *res == self.lines()[self.reading().index as int],
    {
        proof {
            use_type_invariant(self);
        }
        &self.text[self.index]
    }

    /// Increases the index if possible
    pub fn next(&mut self)
        ensures
            final(self).reading() == next_reading(old(self).reading(), old(self).lines().len()),
            final(self).lines() == old(self).lines(),
            final(self).probability_spec() == old(self).probability_spec(),
            final(self).required_flags_spec() == old(self).required_flags_spec(),
            final(self).unlocked_flags_spec() == old(self).unlocked_flags_spec(),
    {
        proof {
            use_type_invariant(&*self);
        }
        let len = self.text.len();
        if len > 0 && self.index < len - 1 {
            self.index = self.index + 1;
        } else {
            self.should_stop = true;
        }
    }

    /// Checks if the message should continue
    pub fn should_stop(&self) -> (res: bool)
        ensures
            res == self.reading().stopped,
    {
        self.should_stop
    }
}

/// Moving to the next line never leaves the lines of the message: a reading on
/// a line stays on a line, the index never goes back, and a stopped reading
/// stays stopped.
pub proof fn lemma_next_stays_on_a_line(r: Reading, lines: nat)
    requires
        r.index < lines,
    ensures
        next_reading(r, lines).index < lines,
        next_reading(r, lines).index >= r.index,
        r.stopped ==> next_reading(r, lines).stopped,
{
}

/// Reading a message to its end: moving to the next line as many times as the
/// message has lines, starting from any line, always stops the reading, and
/// the reading then rests on the last line.
pub proof fn lemma_reading_ends(r: Reading, lines: nat, k: nat)
    requires
        r.index < lines,
        k >= lines - r.index,
    ensures
        reading_after(r, lines, k).stopped,
        reading_after(r, lines, k).index == lines - 1,
    decreases k,
{
    lemma_reading_progress(r, lines, k);
}

/// After `k` moves the reading is on line `min(index + k, lines - 1)`, and it
/// has stopped exactly when the moves ran past the last line (or it had
/// stopped before).
pub proof fn lemma_reading_progress(r: Reading, lines: nat, k: nat)
    requires
        r.index < lines,
    ensures
        reading_after(r, lines, k).index == if r.index + k < lines {
            r.index + k
        } else {
            (lines - 1) as nat
        },
        reading_after(r, lines, k).stopped == (r.stopped || r.index + k >= lines),
    decreases k,
{
    if k > 0 {
        lemma_reading_progress(r, lines, (k - 1) as nat);
    }
}

impl Clone for Dialogue {
    /// A copy of the line.
    fn clone(&self) -> (res: Self)
        ensures
            res == *self,
    {
        Dialogue { name: self.name.clone(), portrait: self.portrait.clone(), text: self.text.clone() }
    }
}

impl Clone for Message {
    /// A copy of the message, read as far as this one.
    fn clone(&self) -> (res: Self)
        ensures
            res.lines() == self.lines(),
            res.probability_spec() == self.probability_spec(),
            res.reading() == self.reading(),
            res.required_flags_spec() == self.required_flags_spec(),
            res.unlocked_flags_spec() == self.unlocked_flags_spec(),
    {
        proof {
            use_type_invariant(self);
        }
        let text = self.text.clone();
        proof {
            assert(text@ =~= self.text@);
        }
        Message {
            required_flags: self.required_flags.clone(),
            unlocked_flags: self.unlocked_flags.clone(),
            probability: self.probability,
            text,
            index: self.index,
            should_stop: self.should_stop,
        }
    }
}

/// Whether an attack makes an NPC speak: it must touch the NPC, belong to the
/// player, and be neither a projectile nor a hitscan.
pub open spec fn provokes(touching: bool, atk_type: AttackType, owner: Owner) -> bool {
    &&& touching
    &&& atk_type != AttackType::Projectile
    &&& atk_type != AttackType::Hitscan
    &&& owner == Owner::Player
}

/// The probabilities of the messages, in order.
pub open spec fn probs_of(messages: Seq<Message>) -> Seq<u8> {
    messages.map_values(|m: Message| m.probability_spec())
}

/// A roll in bounds for each of `n` messages.
pub open spec fn valid_rolls(rolls: Seq<u8>, n: nat) -> bool {
    &&& rolls.len() == n
    &&& forall|j: int| 0 <= j < n ==> roll_in_bounds(#[trigger] rolls[j])
}

/// The first message, in order, whose roll lets it be read, given a roll for
/// each message.
pub open spec fn first_accepted(probs: Seq<u8>, rolls: Seq<u8>) -> Option<usize>
    decreases probs.len(),
{
    if probs.len() == 0 {
        None
    } else {
        match first_accepted(probs.drop_last(), rolls.drop_last()) {
            Some(i) => Some(i),
            None => if roll_accepted(rolls.last(), probs.last()) {
                Some((probs.len() - 1) as usize)
            } else {
                None
            },
        }
    }
}

/// Rolls that come after the first accepted one change nothing.
pub proof fn lemma_first_accepted_extend(p: Seq<u8>, r: Seq<u8>, p2: Seq<u8>, r2: Seq<u8>)
    requires
        p.len() == r.len(),
        p2.len() == r2.len(),
        first_accepted(p, r) is Some,
    ensures
        first_accepted(p + p2, r + r2) == first_accepted(p, r),
    decreases p2.len(),
{
    if p2.len() == 0 {
        assert(p + p2 =~= p);
        assert(r + r2 =~= r);
    } else {
        lemma_first_accepted_extend(p, r, p2.drop_last(), r2.drop_last());
        assert((p + p2).drop_last() =~= p + p2.drop_last());
        assert((r + r2).drop_last() =~= r + r2.drop_last());
    }
}

/// The message picked with the given rolls, one for each message: the first
/// whose roll lets it be read.
pub fn pick_with_rolls(messages: &Vec<Message>, rolls: &Vec<u8>) -> (res: Option<usize>)
    requires
        rolls@.len() == messages@.len(),
    ensures
        res == first_accepted(probs_of(messages@), rolls@),
{
    let ghost probs = probs_of(messages@);
    let mut k: usize = 0;
    while k < messages.len()
        invariant
            k <= messages@.len(),
            rolls@.len() == messages@.len(),
            probs == probs_of(messages@),
            first_accepted(probs.take(k as int), rolls@.take(k as int)) is None,
        decreases messages@.len() - k,
    {
        proof {
            assert(probs.take(k + 1).drop_last() =~= probs.take(k as int));
            assert(rolls@.take(k + 1).drop_last() =~= rolls@.take(k as int));
        }
        if messages[k].accepts_roll(rolls[k]) {
            proof {
                let n = messages@.len() as int;
                assert(first_accepted(probs.take(k + 1), rolls@.take(k + 1)) == Some(k));
                lemma_first_accepted_extend(
                    probs.take(k + 1),
                    rolls@.take(k + 1),
                    probs.subrange(k + 1, n),
                    rolls@.subrange(k + 1, n),
                );
                assert(probs.take(k + 1) + probs.subrange(k + 1, n) =~= probs);
                assert(rolls@.take(k + 1) + rolls@.subrange(k + 1, n) =~= rolls@);
            }
            return Some(k);
        }
        k += 1;
    }
    proof {
        assert(probs.take(k as int) =~= probs);
        assert(rolls@.take(k as int) =~= rolls@);
    }
    None
}

/// Rolls the messages in order, drawing a roll for each until one is read, and
/// picks the first one that is read this time, if any: what `pick_with_rolls`
/// gives for some rolls in bounds. A message whose probability is 254 or more
/// is always read, so no message after it is ever picked.
pub fn pick_message(messages: &Vec<Message>) -> (res: Option<usize>)
    ensures
        exists|rolls: Seq<u8>|
            valid_rolls(rolls, messages@.len()) && res == #[trigger] first_accepted(probs_of(messages@), rolls),
        res matches Some(i) ==> i < messages.len(),
        forall|j: int|
            0 <= j < messages.len() && #[trigger] messages@[j].probability_spec() >= 254 ==> (res matches Some(
                i,
            ) && i <= j),
{
    let ghost probs = probs_of(messages@);
    let ghost n = messages@.len() as int;
    let ghost mut drawn: Seq<u8> = Seq::empty();
    let mut k: usize = 0;
    while k < messages.len()
        invariant
            k <= messages.len(),
            n == messages@.len(),
            probs == probs_of(messages@),
            drawn.len() == k,
            forall|j: int| 0 <= j < k ==> roll_in_bounds(#[trigger] drawn[j]),
            first_accepted(probs.take(k as int), drawn) is None,
            forall|j: int| 0 <= j < k ==> #[trigger] messages@[j].probability_spec() < 254,
        decreases messages.len() - k,
    {
        let roll = draw_roll();
        let accepted = messages[k].accepts_roll(roll);
        proof {
            assert(probs.take(k + 1).drop_last() =~= probs.take(k as int));
            assert(drawn.push(roll).drop_last() =~= drawn);
            drawn = drawn.push(roll);
        }
        if accepted {
            proof {
                assert(first_accepted(probs.take(k + 1), drawn) == Some(k));
                let pad = Seq::new((n - k - 1) as nat, |j: int| 0u8);
                lemma_first_accepted_extend(probs.take(k + 1), drawn, probs.subrange(k + 1, n), pad);
                assert(probs.take(k + 1) + probs.subrange(k + 1, n) =~= probs);
                let rolls = drawn + pad;
                assert(valid_rolls(rolls, n as nat)) by {
                    assert forall|j: int| 0 <= j < n implies roll_in_bounds(#[trigger] rolls[j]) by {
                        if j > k {
                            assert(rolls[j] == 0u8);
                        }
                    }
                }
                assert(Some(k) == first_accepted(probs, rolls));
            }
            return Some(k);
        }
        k += 1;
    }
    proof {
        assert(probs.take(n) =~= probs);
        assert(valid_rolls(drawn, n as nat));
        assert(first_accepted(probs, drawn) is None);
    }
    None
}

/// The message an NPC starts to say, given for each attack whether it touches
/// the NPC, its type and its owner, and the rolls each attack would draw: every
/// attack that provokes the NPC picks with its rolls (see `first_accepted`),
/// and the last pick that finds a message wins.
pub open spec fn hit_pick(attacks: Seq<(bool, AttackType, Owner)>, probs: Seq<u8>, rolls: Seq<Seq<u8>>) -> Option<
    usize,
>
    decreases attacks.len(),
{
    if attacks.len() == 0 {
        None
    } else {
        let prev = hit_pick(attacks.drop_last(), probs, rolls.drop_last());
        let a = attacks.last();
        if provokes(a.0, a.1, a.2) {
            match first_accepted(probs, rolls.last()) {
                Some(i) => Some(i),
                None => prev,
            }
        } else {
            prev
        }
    }
}

/// Rolls in bounds, one list per attack, each with a roll for every message.
pub open spec fn valid_hit_rolls(rolls: Seq<Seq<u8>>, attacks: nat, messages: nat) -> bool {
    &&& rolls.len() == attacks
    &&& forall|k: int| 0 <= k < attacks ==> valid_rolls(#[trigger] rolls[k], messages)
}

/// The message an NPC starts to say when attacks reach it, given the rolls of
/// each attack (one for each message): exactly `hit_pick`.
pub fn dialogue_with_rolls(
    attacks: &Vec<(bool, AttackType, Owner)>,
    messages: &Vec<Message>,
    rolls: &Vec<Vec<u8>>,
) -> (res: Option<usize>)
    requires
        rolls@.len() == attacks@.len(),
        forall|k: int| 0 <= k < rolls@.len() ==> (#[trigger] rolls@[k])@.len() == messages@.len(),
    ensures
        res == hit_pick(attacks@, probs_of(messages@), rolls@.map_values(|v: Vec<u8>| v@)),
{
    let ghost probs = probs_of(messages@);
    let ghost all = rolls@.map_values(|v: Vec<u8>| v@);
    let mut picked: Option<usize> = None;
    let mut k: usize = 0;
    while k < attacks.len()
        invariant
            k <= attacks@.len(),
            rolls@.len() == attacks@.len(),
            forall|m: int| 0 <= m < rolls@.len() ==> (#[trigger] rolls@[m])@.len() == messages@.len(),
            probs == probs_of(messages@),
            all == rolls@.map_values(|v: Vec<u8>| v@),
            picked == hit_pick(attacks@.take(k as int), probs, all.take(k as int)),
        decreases attacks@.len() - k,
    {
        proof {
            assert(attacks@.take(k + 1).drop_last() =~= attacks@.take(k as int));
            assert(all.take(k + 1).drop_last() =~= all.take(k as int));
            assert(all.take(k + 1).last() == rolls@[k as int]@);
        }
        let (touching, atk_type, owner) = attacks[k];
        if touching && atk_type != AttackType::Projectile && atk_type != AttackType::Hitscan
            && owner == Owner::Player {
            let p = pick_with_rolls(messages, &rolls[k]);
            if p.is_some() {
                picked = p;
            }
        }
        k += 1;
    }
    proof {
        assert(attacks@.take(k as int) =~= attacks@);
        assert(all.take(k as int) =~= all);
    }
    picked
}

/// The message an NPC starts to say when attacks reach it, each attack given
/// by whether it touches the NPC, its type and its owner: every attack that
/// provokes the NPC rolls the messages anew (see `pick_message`), and the last
/// roll that picks a message wins: what `dialogue_with_rolls` gives for some
/// rolls in bounds. No provoking attack, no message.
pub fn dialogue_on_hit(attacks: &Vec<(bool, AttackType, Owner)>, messages: &Vec<Message>) -> (res: Option<usize>)
    ensures
        exists|rolls: Seq<Seq<u8>>|
            valid_hit_rolls(rolls, attacks@.len(), messages@.len()) && res == #[trigger] hit_pick(
                attacks@,
                probs_of(messages@),
                rolls,
            ),
        res matches Some(i) ==> i < messages.len(),
        (forall|k: int|
            0 <= k < attacks.len() ==> !provokes(
                #[trigger] attacks@[k].0,
                attacks@[k].1,
                attacks@[k].2,
            )) ==> res is None,
        (exists|k: int|
            0 <= k < attacks.len() && provokes(#[trigger] attacks@[k].0, attacks@[k].1, attacks@[k].2))
            ==> (forall|j: int|
            0 <= j < messages.len() && #[trigger] messages@[j].probability_spec() >= 254 ==> (res matches Some(
                i,
            ) && i <= j)),
{
    let ghost probs = probs_of(messages@);
    let ghost nm = messages@.len();
    let ghost mut used: Seq<Seq<u8>> = Seq::empty();
    let mut picked: Option<usize> = None;
    let mut k: usize = 0;
    while k < attacks.len()
        invariant
            k <= attacks.len(),
            probs == probs_of(messages@),
            nm == messages@.len(),
            valid_hit_rolls(used, k as nat, nm),
            picked == hit_pick(attacks@.take(k as int), probs, used),
            picked matches Some(i) ==> i < messages.len(),
            (forall|m: int| 0 <= m < k ==> !provokes(#[trigger] attacks@[m].0, attacks@[m].1, attacks@[m].2))
                ==> picked is None,
            (exists|m: int| 0 <= m < k && provokes(#[trigger] attacks@[m].0, attacks@[m].1, attacks@[m].2))
                ==> (forall|j: int|
                0 <= j < messages.len() && #[trigger] messages@[j].probability_spec() >= 254 ==> (picked matches Some(
                    i,
                ) && i <= j)),
        decreases attacks.len() - k,
    {
        proof {
            assert(attacks@.take(k + 1).drop_last() =~= attacks@.take(k as int));
            assert(attacks@.take(k + 1).last() == attacks@[k as int]);
        }
        let (touching, atk_type, owner) = attacks[k];
        if touching && atk_type != AttackType::Projectile && atk_type != AttackType::Hitscan
            && owner == Owner::Player {
            let p = pick_message(messages);
            proof {
                let r = choose|r: Seq<u8>| valid_rolls(r, nm) && p == #[trigger] first_accepted(probs, r);
                assert(used.push(r).drop_last() =~= used);
                used = used.push(r);
                assert(valid_hit_rolls(used, (k + 1) as nat, nm)) by {
                    assert forall|m: int| 0 <= m < k + 1 implies valid_rolls(#[trigger] used[m], nm) by {
                        if m < k {
                            assert(used[m] == used.drop_last()[m]);
                        }
                    }
                }
            }
            if p.is_some() {
                picked = p;
            }
        } else {
            proof {
                let r = Seq::new(nm, |j: int| 0u8);
                assert(valid_rolls(r, nm));
                assert(used.push(r).drop_last() =~= used);
                used = used.push(r);
                assert(valid_hit_rolls(used, (k + 1) as nat, nm)) by {
                    assert forall|m: int| 0 <= m < k + 1 implies valid_rolls(#[trigger] used[m], nm) by {
                        if m < k {
                            assert(used[m] == used.drop_last()[m]);
                        }
                    }
                }
            }
        }
        k += 1;
    }
    proof {
        assert(attacks@.take(k as int) =~= attacks@);
    }
    picked
}

} // verus!
