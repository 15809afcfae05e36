use vstd::prelude::*;

use crate::cores::{gen_name, name_of, split_pieces};

verus! {

/// The source of an attack script, before it is compiled.
pub struct AttackScriptBuilder(String);

impl View for AttackScriptBuilder {
    type V = Seq<char>;

    closed spec fn view(&self) -> Seq<char> {
        self.0@
    }
}

impl AttackScriptBuilder {
    /// An attack built from the given script source.
    pub fn new(script: String) -> (res: Self)
        ensures
            res@ == script@,
    {
        AttackScriptBuilder(script)
    }

    /// The script source.
    pub fn script(&self) -> (res: &str)
        ensures
            res@ == self@,
    {
        self.0.as_str()
    }
}

/// The attacks found in the attack files, each file given by its path and its
/// contents, keyed by the name of the file. A later file replaces an earlier
/// one of the same name.
pub open spec fn attack_table(files: Seq<(String, String)>) -> Map<Seq<char>, Seq<char>>
    decreases files.len(),
{
    if files.len() == 0 {
        Map::empty()
    } else {
        attack_table(files.drop_last()).insert(name_of(files.last().0@), files.last().1@)
    }
}

/// Every attack file has a path from which a name can be made.
pub open spec fn all_named(files: Seq<(String, String)>) -> bool {
    forall|k: int| 0 <= k < files.len() ==> #[trigger] split_pieces(files[k].0@).len() >= 4
}

/// The entries of an attack table: one entry per name, each holding the
/// attack that the table gives for that name.
pub open spec fn lists_table(res: Seq<(String, AttackScriptBuilder)>, table: Map<Seq<char>, Seq<char>>) -> bool {
    &&& forall|i: int, j: int| 0 <= i < j < res.len() ==> #[trigger] res[i].0@ != #[trigger] res[j].0@
    &&& forall|i: int|
        #![trigger res[i]]
        0 <= i < res.len() ==> table.contains_key(res[i].0@) && table[res[i].0@] == res[i].1@
    &&& forall|key: Seq<char>| #[trigger]
        table.contains_key(key) ==> exists|i: int| 0 <= i < res.len() && res[i].0@ == key
}

/// The position of the entry named `name`, if there is one.
fn position_of(res: &Vec<(String, AttackScriptBuilder)>, name: &String) -> (pos: Option<usize>)
    ensures
        match pos {
            Some(j) => j < res@.len() && res@[j as int].0@ == name@,
            None => forall|m: int| 0 <= m < res@.len() ==> (#[trigger] res@[m]).0@ != name@,
        },
{
    let mut j: usize = 0;
    while j < res.len()
        invariant
            j <= res@.len(),
            forall|m: int| 0 <= m < j ==> (#[trigger] res@[m]).0@ != name@,
        decreases res@.len() - j,
    {
        if res[j].0 == *name {
            return Some(j);
        }
        j = j + 1;
    }
    None
}

/// Provides the attacks found in the attack files, each file given by its
/// path and its contents, as a list with one entry per name.
pub fn get_attacks(files: &Vec<(String, String)>) -> (res: Vec<(String, AttackScriptBuilder)>)
    requires
        all_named(files@),
    ensures
        lists_table(res@, attack_table(files@)),
{
    let mut res: Vec<(String, AttackScriptBuilder)> = Vec::new();
    let mut i: usize = 0;
    while i < files.len()
        invariant
            i <= files@.len(),
            all_named(files@),
            lists_table(res@, attack_table(files@.take(i as int))),
        decreases files@.len() - i,
    {
        let ghost old_res = res@;
        let ghost table = attack_table(files@.take(i as int));
        proof {
            assert(files@.take(i + 1).drop_last() =~= files@.take(i as int));
            assert(files@.take(i + 1).last() == files@[i as int]);
            assert(split_pieces(files@[i as int].0@).len() >= 4);
        }
        let name = gen_name(files[i].0.as_str());
        let builder = AttackScriptBuilder(files[i].1.clone());
        let ghost new_table = table.insert(name@, builder@);
        assert(new_table == attack_table(files@.take(i + 1)));
        let pos = position_of(&res, &name);
        if let Some(j) = pos {
            res.set(j, (name, builder));
            proof {
                assert forall|a: int, b: int| 0 <= a < b < res@.len() implies #[trigger] res@[a].0@
                    != #[trigger] res@[b].0@ by {
                    if a != j as int && b != j as int {
                        assert(res@[a] == old_res[a] && res@[b] == old_res[b]);
                    } else if a == j as int {
                        assert(old_res[a].0@ != old_res[b].0@);
                    } else {
                        assert(old_res[a].0@ != old_res[b].0@);
                    }
                }
                assert forall|key: Seq<char>| #[trigger] new_table.contains_key(key) implies exists|m: int|
                    0 <= m < res@.len() && res@[m].0@ == key by {
                    if key == name@ {
                        assert(res@[j as int].0@ == key);
                    } else {
                        assert(table.contains_key(key));
                        let m = choose|m: int| 0 <= m < old_res.len() && old_res[m].0@ == key;
                        assert(res@[m].0@ == key);
                    }
                }
                assert forall|m: int| #![trigger res@[m]] 0 <= m < res@.len() implies new_table.contains_key(
                    res@[m].0@,
                ) && new_table[res@[m].0@] == res@[m].1@ by {
                    if m != j as int {
                        assert(res@[m] == old_res[m]);
                        assert(old_res[m].0@ != old_res[j as int].0@);
                    }
                }
            }
        } else {
            res.push((name, builder));
            proof {
                assert forall|a: int, b: int| 0 <= a < b < res@.len() implies #[trigger] res@[a].0@
                    != #[trigger] res@[b].0@ by {
                    if b < old_res.len() {
                        assert(res@[a] == old_res[a] && res@[b] == old_res[b]);
                    } else {
                        assert(res@[a] == old_res[a]);
                    }
                }
                assert forall|key: Seq<char>| #[trigger] new_table.contains_key(key) implies exists|m: int|
                    0 <= m < res@.len() && res@[m].0@ == key by {
                    if key == name@ {
                        assert(res@[old_res.len() as int].0@ == key);
                    } else {
                        assert(table.contains_key(key));
                        let m = choose|m: int| 0 <= m < old_res.len() && old_res[m].0@ == key;
                        assert(res@[m].0@ == key);
                    }
                }
                assert forall|m: int| #![trigger res@[m]] 0 <= m < res@.len() implies new_table.contains_key(
                    res@[m].0@,
                ) && new_table[res@[m].0@] == res@[m].1@ by {
                    if m < old_res.len() {
                        assert(res@[m] == old_res[m]);
                    }
                }
            }
        }
        i = i + 1;
    }
    proof {
        assert(files@.take(files@.len() as int) =~= files@);
    }
    res
}

} // verus!
