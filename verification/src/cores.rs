use vstd::prelude::*;

verus! {

/// The characters at which the path of a core file is split into pieces.
pub open spec fn is_dir_split(c: char) -> bool {
    c == '/' || c == '\\' || c == '.'
}

/// The pieces of `s` between separator characters, as splitting a string at
/// each separator gives them: one more piece than there are separators, and
/// empty pieces where separators meet or stand at either end.
pub open spec fn split_pieces(s: Seq<char>) -> Seq<Seq<char>>
    decreases s.len(),
{
    if s.len() == 0 {
        seq![Seq::empty()]
    } else {
        let prev = split_pieces(s.drop_last());
        if is_dir_split(s.last()) {
            prev.push(Seq::empty())
        } else {
            prev.update(prev.len() - 1, prev.last().push(s.last()))
        }
    }
}

/// Pieces joined with a slash between each two of them.
pub open spec fn join_slash(ps: Seq<Seq<char>>) -> Seq<char>
    decreases ps.len(),
{
    if ps.len() == 0 {
        Seq::empty()
    } else if ps.len() == 1 {
        ps[0]
    } else {
        join_slash(ps.drop_last()) + seq!['/'] + ps.last()
    }
}

/// The name of a core file: the name of its core (the fourth piece of its
/// path), a colon, then the pieces from the sixth up to, but not including,
/// the last (the extension), joined by slashes.
/// `./cores/default/sprites/ui/hp.png` is named `default:ui/hp`.
pub open spec fn name_of(dir: Seq<char>) -> Seq<char> {
    let p = split_pieces(dir);
    p[3] + seq![':'] + if p.len() >= 6 {
        join_slash(p.subrange(5, p.len() - 1))
    } else {
        Seq::empty()
    }
}

/// The language a lang file belongs to: the next-to-last piece of its path, or
/// nothing when the path has a single piece.
pub open spec fn lang_name_of(dir: Seq<char>) -> Seq<char> {
    let p = split_pieces(dir);
    if p.len() >= 2 {
        p[p.len() - 2]
    } else {
        Seq::empty()
    }
}

/// Splitting a path always gives at least one piece.
pub proof fn lemma_split_pieces_nonempty(s: Seq<char>)
    ensures
        split_pieces(s).len() >= 1,
    decreases s.len(),
{
    if s.len() > 0 {
        lemma_split_pieces_nonempty(s.drop_last());
    }
}

/// The number of characters of `s` that are '/', '\\' or '.'.
pub open spec fn separator_count(s: Seq<char>) -> nat
    decreases s.len(),
{
    if s.len() == 0 {
        0
    } else {
        separator_count(s.drop_last()) + if s.last() == '/' || s.last() == '\\' || s.last() == '.' {
            1nat
        } else {
            0nat
        }
    }
}

/// A path is split exactly at '/', '\\' and '.': there is one more piece than
/// there are such characters, and a path with none of them is a single piece,
/// itself, whatever other characters (such as '_') it holds.
pub proof fn lemma_split_only_at_separators(s: Seq<char>)
    ensures
        split_pieces(s).len() == separator_count(s) + 1,
        (forall|k: int| 0 <= k < s.len() ==> #[trigger] s[k] != '/' && s[k] != '\\' && s[k] != '.') ==> split_pieces(s)
            == seq![s],
    decreases s.len(),
{
    if s.len() > 0 {
        let init = s.drop_last();
        lemma_split_only_at_separators(init);
        lemma_split_pieces_nonempty(init);
        if forall|k: int| 0 <= k < s.len() ==> #[trigger] s[k] != '/' && s[k] != '\\' && s[k] != '.' {
            assert forall|k: int| 0 <= k < init.len() implies #[trigger] init[k] != '/' && init[k] != '\\' && init[k]
                != '.' by {
                assert(init[k] == s[k]);
            }
            assert(s.last() == s[s.len() - 1]);
            assert(!is_dir_split(s.last()));
            assert(init.push(s.last()) =~= s);
            let prev = split_pieces(init);
            assert(prev == seq![init]);
            assert(prev.update(prev.len() - 1, prev.last().push(s.last())) =~= seq![s]);
        }
    } else {
        assert(s =~= Seq::<char>::empty());
        assert(split_pieces(s) =~= seq![s]);
    }
}

/// Splitting at a separator splits each side on its own: the pieces of
/// `a`, a separator ('/', '\\' or '.'), then `b`, are the pieces of `a`
/// followed by the pieces of `b`.
pub proof fn lemma_split_at_separator(a: Seq<char>, c: char, b: Seq<char>)
    requires
        c == '/' || c == '\\' || c == '.',
    ensures
        split_pieces(a + seq![c] + b) == split_pieces(a) + split_pieces(b),
    decreases b.len(),
{
    let ac = a + seq![c];
    if b.len() == 0 {
        assert(ac + b =~= ac);
        assert(ac.drop_last() =~= a);
        assert(ac.last() == c);
        assert(split_pieces(b) == seq![Seq::<char>::empty()]);
        assert(split_pieces(a).push(Seq::empty()) =~= split_pieces(a) + split_pieces(b));
    } else {
        let b1 = b.drop_last();
        let x = b.last();
        lemma_split_at_separator(a, c, b1);
        lemma_split_pieces_nonempty(b1);
        lemma_split_pieces_nonempty(a);
        assert((ac + b).drop_last() =~= ac + b1);
        assert((ac + b).last() == x);
        let p = split_pieces(a);
        let q = split_pieces(b1);
        if is_dir_split(x) {
            assert((p + q).push(Seq::empty()) =~= p + q.push(Seq::empty()));
        } else {
            assert((p + q).update((p + q).len() - 1, (p + q).last().push(x)) =~= p + q.update(
                q.len() - 1,
                q.last().push(x),
            ));
        }
    }
}

/// Splits `dir` at the separator characters. Each piece is given by the
/// positions (in characters) at which it starts and ends.
pub fn split_dir(dir: &str) -> (res: Vec<(usize, usize)>)
    ensures
        res@.len() == split_pieces(dir@).len(),
        forall|k: int|
            #![trigger res@[k]]
            0 <= k < res@.len() ==> {
                &&& res@[k].0 <= res@[k].1 <= dir@.len()
                &&& split_pieces(dir@)[k] == dir@.subrange(res@[k].0 as int, res@[k].1 as int)
                &&& k + 1 < res@.len() ==> is_dir_split(dir@[res@[k].1 as int]) && res@[k + 1].0 == res@[k].1 + 1
            },
        res@[0].0 == 0,
        res@[res@.len() - 1].1 == dir@.len(),
{
    let n = dir.unicode_len();
    let mut bounds: Vec<(usize, usize)> = Vec::new();
    let mut start: usize = 0;
    let mut i: usize = 0;
    proof {
        assert(dir@.take(0) =~= Seq::<char>::empty());
    }
    while i < n
        invariant
            n == dir@.len(),
            i <= n,
            start <= i,
            split_pieces(dir@.take(i as int)).len() == bounds@.len() + 1,
            forall|k: int|
                #![trigger bounds@[k]]
                0 <= k < bounds@.len() ==> {
                    &&& bounds@[k].0 <= bounds@[k].1 <= i
                    &&& split_pieces(dir@.take(i as int))[k] == dir@.subrange(
                        bounds@[k].0 as int,
                        bounds@[k].1 as int,
                    )
                    &&& bounds@[k].1 < dir@.len() && is_dir_split(dir@[bounds@[k].1 as int])
                    &&& bounds@[k].1 + 1 == if k + 1 < bounds@.len() {
                        bounds@[k + 1].0 as int
                    } else {
                        start as int
                    }
                },
            bounds@.len() > 0 ==> bounds@[0].0 == 0,
            bounds@.len() == 0 ==> start == 0,
            split_pieces(dir@.take(i as int)).last() == dir@.subrange(start as int, i as int),
        decreases n - i,
    {
        let c = dir.get_char(i);
        let ghost old_bounds = bounds@;
        let ghost prev = split_pieces(dir@.take(i as int));
        proof {
            assert(dir@.take(i + 1).drop_last() =~= dir@.take(i as int));
            assert(dir@.take(i + 1).last() == c);
        }
        if c == '/' || c == '\\' || c == '.' {
            let ghost old_start = start;
            bounds.push((start, i));
            start = i + 1;
            proof {
                assert(bounds@ == old_bounds.push((old_start, i)));
                let cur = split_pieces(dir@.take(i + 1));
                assert(cur == prev.push(Seq::empty()));
                assert(dir@.subrange(start as int, i + 1) =~= Seq::<char>::empty());
                assert forall|k: int| #![trigger bounds@[k]] 0 <= k < bounds@.len() implies {
                    &&& bounds@[k].0 <= bounds@[k].1 <= i + 1
                    &&& cur[k] == dir@.subrange(bounds@[k].0 as int, bounds@[k].1 as int)
                } by {
                    if k < old_bounds.len() {
                        assert(bounds@[k] == old_bounds[k]);
                        assert(cur[k] == prev[k]);
                    } else {
                        assert(bounds@[k] == (old_start, i));
                        assert(cur[k] == prev.last());
                    }
                }
            }
        } else {
            proof {
                let cur = split_pieces(dir@.take(i + 1));
                assert(cur == prev.update(prev.len() - 1, prev.last().push(c)));
                assert(dir@.subrange(start as int, i + 1) =~= dir@.subrange(start as int, i as int).push(c));
                assert forall|k: int| #![trigger bounds@[k]] 0 <= k < bounds@.len() implies {
                    &&& bounds@[k].0 <= bounds@[k].1 <= i + 1
                    &&& cur[k] == dir@.subrange(bounds@[k].0 as int, bounds@[k].1 as int)
                } by {
                    assert(cur[k] == prev[k]);
                }
            }
        }
        i = i + 1;
    }
    proof {
        assert(dir@.take(n as int) =~= dir@);
    }
    let ghost before = bounds@;
    bounds.push((start, n));
    proof {
        let p = split_pieces(dir@);
        assert(p == split_pieces(dir@.take(n as int)));
        assert(bounds@ == before.push((start, n)));
        assert forall|k: int| #![trigger bounds@[k]] 0 <= k < bounds@.len() implies {
            &&& bounds@[k].0 <= bounds@[k].1 <= dir@.len()
            &&& p[k] == dir@.subrange(bounds@[k].0 as int, bounds@[k].1 as int)
        } by {
            if k == bounds@.len() - 1 {
                assert(p[k] == p.last());
            } else {
                assert(bounds@[k] == before[k]);
                assert(split_pieces(dir@.take(n as int))[k] == dir@.subrange(before[k].0 as int, before[k].1 as int));
            }
        }
    }
    bounds
}

/// Turns the provided directory into a name. The path must have at least four
/// pieces.
pub fn gen_name(dir: &str) -> (res: String)
    requires
        split_pieces(dir@).len() >= 4,
    ensures
        res@ == name_of(dir@),
{
    let bounds = split_dir(dir);
    let ghost p = split_pieces(dir@);
    let len = bounds.len();
    let mut res = String::new();
    res.append(dir.substring_char(bounds[3].0, bounds[3].1));
    res.append(":");
    proof {
        reveal_strlit(":");
        if len >= 6 {
            assert(p.subrange(5, 5) =~= Seq::<Seq<char>>::empty());
        }
    }
    let mut i: usize = 5;
    while i < len - 1
        invariant
            len == p.len(),
            len >= 4,
            5 <= i,
            len >= 6 ==> i <= len - 1,
            bounds@.len() == len,
            forall|k: int|
                #![trigger bounds@[k]]
                0 <= k < bounds@.len() ==> {
                    &&& bounds@[k].0 <= bounds@[k].1 <= dir@.len()
                    &&& p[k] == dir@.subrange(bounds@[k].0 as int, bounds@[k].1 as int)
                },
            res@ == p[3] + seq![':'] + if len >= 6 {
                join_slash(p.subrange(5, i as int))
            } else {
                Seq::empty()
            },
        decreases len - i,
    {
        let ghost before = res@;
        if i > 5 {
            res.append("/");
        }
        let piece = dir.substring_char(bounds[i].0, bounds[i].1);
        res.append(piece);
        proof {
            reveal_strlit("/");
            let ps = p.subrange(5, i + 1);
            assert(ps.drop_last() =~= p.subrange(5, i as int));
            assert(ps.last() == p[i as int]);
            assert(piece@ == p[i as int]);
            if i == 5 {
                assert(ps.len() == 1);
                assert(join_slash(ps) == ps[0]);
                assert(p.subrange(5, 5) =~= Seq::<Seq<char>>::empty());
                assert(res@ =~= p[3] + seq![':'] + join_slash(ps));
            } else {
                assert(join_slash(ps) == join_slash(p.subrange(5, i as int)) + seq!['/'] + p[i as int]);
                assert(res@ =~= p[3] + seq![':'] + join_slash(ps));
            }
        }
        i = i + 1;
    }
    proof {
        if len >= 6 {
            assert(i == len - 1);
        }
        assert(res@ =~= name_of(dir@));
    }
    res
}

/// Gives the language a lang file belongs to.
pub fn gen_lang_name(dir: &str) -> (res: String)
    ensures
        res@ == lang_name_of(dir@),
{
    let bounds = split_dir(dir);
    if bounds.len() >= 2 {
        let k = bounds.len() - 2;
        String::from_str(dir.substring_char(bounds[k].0, bounds[k].1))
    } else {
        String::new()
    }
}

/// When each file under the cores directory was last modified, by path, held
/// in a `hashbrown` map. A time is given in nanoseconds since the Unix epoch.
#[verifier::external_body]
pub struct FileTimes(hashbrown::HashMap<String, u128>);

/// The times a map holds: the modification time of each path.
pub uninterp spec fn file_times(times: FileTimes) -> Map<Seq<char>, u128>;

impl View for FileTimes {
    type V = Map<Seq<char>, u128>;

    open spec fn view(&self) -> Map<Seq<char>, u128> {
        file_times(*self)
    }
}

/// An empty map, from `hashbrown::HashMap::new`.
#[verifier::external_body]
fn times_new() -> (res: FileTimes)
    ensures
        file_times(res).dom() == Set::<Seq<char>>::empty(),
{
    FileTimes(hashbrown::HashMap::new())
}

/// `hashbrown::HashMap::insert`: afterwards the path maps to the time, and
/// every other path keeps its time.
#[verifier::external_body]
fn times_insert(times: &mut FileTimes, path: String, modified: u128)
    ensures
        file_times(*final(times)) == file_times(*old(times)).insert(path@, modified),
{
    times.0.insert(path, modified);
}

/// `PartialEq::eq` of `hashbrown::HashMap`: the maps hold the same number of
/// paths and each path of one has the same time in the other.
#[verifier::external_body]
fn times_eq(a: &FileTimes, b: &FileTimes) -> (res: bool)
    ensures
        res == (file_times(*a) == file_times(*b)),
{
    a.0 == b.0
}

impl FileTimes {
    /// No files.
    pub fn new() -> (res: Self)
        ensures
            res@ == Map::<Seq<char>, u128>::empty(),
    {
        times_new()
    }

    /// Records when the file at `path` was last modified.
    pub fn insert(&mut self, path: String, modified: u128)
        ensures
            final(self)@ == old(self)@.insert(path@, modified),
    {
        times_insert(self, path, modified)
    }
}

/// Whether a scan of the cores shows a change against the times seen last: a
/// scan that failed (`None`) counts as a change.
pub open spec fn scan_changed(seen: Map<Seq<char>, u128>, scanned: Option<Map<Seq<char>, u128>>) -> bool {
    match scanned {
        Some(times) => times != seen,
        None => true,
    }
}

/// The times remembered after a scan: those of a scan that succeeded, else the
/// ones seen before.
pub open spec fn seen_after(seen: Map<Seq<char>, u128>, scanned: Option<Map<Seq<char>, u128>>) -> Map<
    Seq<char>,
    u128,
> {
    match scanned {
        Some(times) => times,
        None => seen,
    }
}

/// The times a scan found, if it succeeded.
pub open spec fn scanned_times(scanned: Option<FileTimes>) -> Option<Map<Seq<char>, u128>> {
    match scanned {
        Some(t) => Some(t@),
        None => None,
    }
}

/// Checks if any cores have changed since the last scan, given the times seen
/// then and the times just scanned (`None` where the scan failed), and
/// remembers the new times.
pub fn cores_changed(seen: &mut FileTimes, scanned: Option<FileTimes>) -> (res: bool)
    ensures
        res == scan_changed(old(seen)@, scanned_times(scanned)),
        final(seen)@ == seen_after(old(seen)@, scanned_times(scanned)),
{
    match scanned {
        Some(times) => {
            if times_eq(seen, &times) {
                false
            } else {
                *seen = times;
                true
            }
        },
        None => true,
    }
}

/// A scan that finds the same times as the scan before it reports no change,
/// and a scan that fails leaves the remembered times as they were.
pub proof fn lemma_rescan_unchanged(seen: Map<Seq<char>, u128>, times: Map<Seq<char>, u128>)
    ensures
        !scan_changed(seen_after(seen, Some(times)), Some(times)),
        seen_after(seen, None) == seen,
        scan_changed(seen, Some(times)) <==> seen != times,
{
}

} // verus!
