use vstd::prelude::*;

verus! {

/// The zstd frame that `zstd::bulk::compress` writes for the bytes at the
/// default level.
pub uninterp spec fn zstd_frame(bytes: Seq<u8>) -> Seq<u8>;

/// What `zstd::decode_all` reads out of the input: the bytes its frames hold,
/// or `None` where the input is no complete sequence of frames.
pub uninterp spec fn zstd_decoded(frames: Seq<u8>) -> Option<Seq<u8>>;

/// The bytes a result holds, if it holds any.
pub open spec fn bytes_of(r: Option<Vec<u8>>) -> Option<Seq<u8>> {
    match r {
        Some(v) => Some(v@),
        None => None,
    }
}

/// Whether the bytes cannot start a zstd frame: a frame takes at least four
/// bytes, and the fourth byte of every magic number that zstd reads (that of
/// its frames, of its older frames and of its skippable frames) is `0xFD` or
/// `0x18`.
pub open spec fn no_zstd_frame(bytes: Seq<u8>) -> bool {
    bytes.len() < 4 || (bytes[3] != 0xFD && bytes[3] != 0x18)
}

/// `zstd::bulk::compress` at level 0 (zstd's default level): the zstd frame of
/// the bytes. It sizes its output with `compress_bound`, so it can only fail
/// where memory runs out, which this contract, like every allocation, leaves
/// aside.
#[verifier::external_body]
fn zstd_compress(bytes: &Vec<u8>) -> (res: Option<Vec<u8>>)
    ensures
        bytes_of(res) == Some(zstd_frame(bytes@)),
{
    zstd::bulk::compress(bytes.as_slice(), 0).ok()
}

/// `zstd::decode_all` over the bytes of a slice: what it reads is named by
/// `zstd_decoded`; the frame that `zstd::bulk::compress` wrote for some bytes
/// decodes to those bytes; and bytes that cannot start a frame are refused
/// (see `no_zstd_frame`). Memory running out is left aside, as for every
/// allocation.
#[verifier::external_body]
fn zstd_decode(frames: &Vec<u8>) -> (res: Option<Vec<u8>>)
    ensures
        bytes_of(res) == zstd_decoded(frames@),
        forall|data: Seq<u8>| #[trigger] zstd_frame(data) == frames@ ==> bytes_of(res) == Some(data),
        no_zstd_frame(frames@) ==> res is None,
{
    zstd::decode_all(frames.as_slice()).ok()
}

/// Compresses the encoded save before it is written.
pub fn pack_save(encoded: &Vec<u8>) -> (res: Option<Vec<u8>>)
    ensures
        bytes_of(res) == Some(zstd_frame(encoded@)),
{
    zstd_compress(encoded)
}

/// Decompresses the bytes of a save file: `None` where they hold no complete
/// zstd frames, in which case the default save is used. A file that
/// `pack_save` wrote gives back the encoded save it was given.
pub fn unpack_save(file: &Vec<u8>) -> (res: Option<Vec<u8>>)
    ensures
        bytes_of(res) == zstd_decoded(file@),
        forall|encoded: Seq<u8>| #[trigger] zstd_frame(encoded) == file@ ==> bytes_of(res) == Some(encoded),
        no_zstd_frame(file@) ==> res is None,
{
    zstd_decode(file)
}

/// The names of a list of strings.
pub open spec fn names_of(v: Seq<String>) -> Seq<Seq<char>> {
    v.map_values(|s: String| s@)
}

/// Whether no name occurs twice.
pub open spec fn all_distinct(names: Seq<Seq<char>>) -> bool {
    forall|i: int, j: int| 0 <= i < j < names.len() ==> #[trigger] names[i] != #[trigger] names[j]
}

/// The names with every repeat after the first dropped, in order: what
/// inserting them one by one into a set keeps.
pub open spec fn dedup(names: Seq<Seq<char>>) -> Seq<Seq<char>>
    decreases names.len(),
{
    if names.len() == 0 {
        Seq::empty()
    } else {
        let rest = dedup(names.drop_last());
        if rest.contains(names.last()) {
            rest
        } else {
            rest.push(names.last())
        }
    }
}

/// The bytes that `bincode::encode_to_vec` writes, in the standard
/// configuration, for a list of names followed by a seed.
pub uninterp spec fn bincode_bytes(names: Seq<Seq<char>>, seed: u64) -> Seq<u8>;

/// The most bytes that decoding a save may claim: the largest size that a
/// Rust allocation can have (`isize::MAX`). The length a list or a string
/// declares counts against it before anything is allocated, so a file that
/// declares more than could ever be allocated is refused rather than turned
/// into an allocation that panics.
pub const SAVE_LIMIT: usize = usize::MAX / 2;

/// What `bincode::decode_from_slice`, in the standard configuration limited to
/// `SAVE_LIMIT` bytes, reads from the bytes as a list of names followed by a
/// seed; `None` where they hold no such value or claim more than the limit.

pub uninterp spec fn bincode_decoded(bytes: Seq<u8>) -> Option<(Seq<Seq<char>>, u64)>;

/// The names and seed of a decoded value, if there is one.
pub open spec fn decoded_view(d: Option<(Vec<String>, u64)>) -> Option<(Seq<Seq<char>>, u64)> {
    match d {
        Some(v) => Some((names_of(v.0@), v.1)),
        None => None,
    }
}

/// `bincode::encode_to_vec` of the names and the seed, in the standard
/// configuration. Writing strings, a list and an integer into a growing `Vec`
/// never fails, so the bytes are always given.
#[verifier::external_body]
fn bincode_encode(names: &Vec<String>, seed: u64) -> (res: Vec<u8>)
    ensures
        res@ == bincode_bytes(names_of(names@), seed),
{
    bincode::encode_to_vec((names, seed), bincode::config::standard()).unwrap_or_default()
}

/// `bincode::decode_from_slice` of a list of names followed by a seed, in the
/// standard configuration limited to `SAVE_LIMIT` bytes. What it reads is named
/// by `bincode_decoded`. The bytes that `bincode::encode_to_vec` wrote for some
/// names and a seed read back as those names and that seed when they are few
/// enough: decoding claims at most 8 bytes for each integer it reads, the
/// size of a `String` (at most 24 bytes) for each name of a list, and the
/// length of each string, so at most 33 times the number of bytes plus 24.
#[verifier::external_body]
fn bincode_decode(bytes: &Vec<u8>) -> (res: Option<(Vec<String>, u64)>)
    ensures
        decoded_view(res) == bincode_decoded(bytes@),
        forall|names: Seq<Seq<char>>, seed: u64|
            #[trigger] bincode_bytes(names, seed) == bytes@ && 33 * bytes@.len() + 24 <= SAVE_LIMIT
                ==> decoded_view(res) == Some((names, seed)),
{
    let config = bincode::config::standard().with_limit::<SAVE_LIMIT>();
    match bincode::decode_from_slice::<(Vec<String>, u64), _>(bytes, config) {
        Ok((value, _)) => Some(value),
        Err(_) => None,
    }
}

/// What a save holds: the maps the player has seen, each named once, and the
/// seed of the game.
pub struct SaveData {
    seen_maps: Vec<String>,
    seed: u64,
}

impl SaveData {
    #[verifier::type_invariant]
    closed spec fn well_formed(&self) -> bool {
        all_distinct(names_of(self.seen_maps@))
    }

    /// The names of the seen maps, in the order they were first seen.
    pub closed spec fn maps_spec(&self) -> Seq<Seq<char>> {
        names_of(self.seen_maps@)
    }

    pub closed spec fn seed_spec(&self) -> u64 {
        self.seed
    }

    /// A save with the given seed and no map seen.
    pub fn new(seed: u64) -> (res: Self)
        ensures
            res.maps_spec() == Seq::<Seq<char>>::empty(),
            res.seed_spec() == seed,
    {
        let res = SaveData { seen_maps: Vec::new(), seed };
        proof {
            assert(names_of(res.seen_maps@) =~= Seq::<Seq<char>>::empty());
        }
        res
    }

    /// Records that a map was seen; a map seen before is kept once.
    pub fn see_map(&mut self, name: String)
        ensures
            old(self).maps_spec().contains(name@) ==> final(self).maps_spec() == old(self).maps_spec(),
            !old(self).maps_spec().contains(name@) ==> final(self).maps_spec() == old(
                self,
            ).maps_spec().push(name@),
            final(self).seed_spec() == old(self).seed_spec(),
    {
        proof {
            use_type_invariant(&*self);
        }
        let mut j: usize = 0;
        while j < self.seen_maps.len()
            invariant
                j <= self.seen_maps@.len(),
                forall|m: int| 0 <= m < j ==> (#[trigger] self.seen_maps@[m])@ != name@,
            decreases self.seen_maps@.len() - j,
        {
            if self.seen_maps[j] == name {
                proof {
                    assert(names_of(self.seen_maps@)[j as int] == name@);
                }
                return;
            }
            j = j + 1;
        }
        proof {
            if names_of(self.seen_maps@).contains(name@) {
                let k = choose|k: int| 0 <= k < names_of(self.seen_maps@).len() && names_of(self.seen_maps@)[k] == name@;
                assert(self.seen_maps@[k]@ == name@);
            }
        }
        let ghost before = self.seen_maps@;
        let mut maps = Vec::new();
        std::mem::swap(&mut maps, &mut self.seen_maps);
        maps.push(name);
        proof {
            assert(names_of(maps@) =~= names_of(before).push(maps@[before.len() as int]@));
        }
        self.seen_maps = maps;
    }

    /// The seen maps, in the order they were first seen.
    pub fn seen_maps(&self) -> (res: &Vec<String>)
        ensures
            names_of(res@) == self.maps_spec(),
    {
        &self.seen_maps
    }

    /// The seed of the game.
    pub fn seed(&self) -> (res: u64)
        ensures
            res == self.seed_spec(),
    {
        self.seed
    }
}

/// Names that occur once each are kept as they are by dropping repeats.
pub proof fn lemma_dedup_distinct(names: Seq<Seq<char>>)
    requires
        all_distinct(names),
    ensures
        dedup(names) == names,
    decreases names.len(),
{
    if names.len() > 0 {
        let init = names.drop_last();
        assert(all_distinct(init));
        lemma_dedup_distinct(init);
        assert(!init.contains(names.last())) by {
            if init.contains(names.last()) {
                let k = choose|k: int| 0 <= k < init.len() && init[k] == names.last();
                assert(names[k] == names[names.len() - 1]);
            }
        }
        assert(init.push(names.last()) =~= names);
    }
}

/// The bytes of the save file for a save: its maps and seed encoded with
/// bincode, then compressed.
pub fn save_file_bytes(save: &SaveData) -> (res: Option<Vec<u8>>)
    ensures
        bytes_of(res) == Some(zstd_frame(bincode_bytes(save.maps_spec(), save.seed_spec()))),
{
    let encoded = bincode_encode(save.seen_maps(), save.seed());
    pack_save(&encoded)
}

/// The save that bytes decode to, if any: its maps with a repeated name kept
/// once, and its seed.
pub open spec fn save_of(decoded: Option<(Seq<Seq<char>>, u64)>) -> Option<(Seq<Seq<char>>, u64)> {
    match decoded {
        Some(v) => Some((dedup(v.0), v.1)),
        None => None,
    }
}

/// The maps and seed of a save, if there is one.
pub open spec fn save_view(s: Option<SaveData>) -> Option<(Seq<Seq<char>>, u64)> {
    match s {
        Some(d) => Some((d.maps_spec(), d.seed_spec())),
        None => None,
    }
}

/// Decodes a save from bincode bytes, a map named twice being kept once:
/// `None` where the bytes hold no save. The bytes that `save_file_bytes`
/// encoded for a save decode to that save.
pub fn decode_save(bytes: &Vec<u8>) -> (res: Option<SaveData>)
    ensures
        save_view(res) == save_of(bincode_decoded(bytes@)),
        forall|names: Seq<Seq<char>>, seed: u64|
            all_distinct(names) && #[trigger] bincode_bytes(names, seed) == bytes@ && 33 * bytes@.len() + 24
                <= SAVE_LIMIT ==> save_view(res) == Some((names, seed)),
{
    let (names, seed) = match bincode_decode(bytes) {
        Some(v) => v,
        None => {
            return None;
        },
    };
    let ghost decoded = names_of(names@);
    let mut save = SaveData::new(seed);
    let mut i: usize = 0;
    while i < names.len()
        invariant
            i <= names@.len(),
            decoded == names_of(names@),
            save.maps_spec() == dedup(decoded.take(i as int)),
            save.seed_spec() == seed,
        decreases names@.len() - i,
    {
        proof {
            assert(decoded.take(i + 1).drop_last() =~= decoded.take(i as int));
            assert(decoded.take(i + 1).last() == names@[i as int]@);
        }
        save.see_map(names[i].clone());
        i = i + 1;
    }
    proof {
        assert(decoded.take(names@.len() as int) =~= decoded);
        assert forall|n: Seq<Seq<char>>, sd: u64|
            all_distinct(n) && #[trigger] bincode_bytes(n, sd) == bytes@ && 33 * bytes@.len() + 24 <= SAVE_LIMIT
                implies save_view(Some(save)) == Some((n, sd)) by {
            lemma_dedup_distinct(n);
        }
    }
    Some(save)
}

/// Reads a save out of the bytes of a save file: decompressed, then decoded
/// (see `decode_save`). `None` where the bytes hold no complete zstd frames or
/// no save. A file that `save_file_bytes` wrote for a save reads back as that
/// save.
pub fn read_save_file(file: &Vec<u8>) -> (res: Option<SaveData>)
    ensures
        save_view(res) == (match zstd_decoded(file@) {
            Some(d) => save_of(bincode_decoded(d)),
            None => None,
        }),
        no_zstd_frame(file@) ==> res is None,
        forall|names: Seq<Seq<char>>, seed: u64|
            all_distinct(names) && #[trigger] zstd_frame(bincode_bytes(names, seed)) == file@ && 33
                * bincode_bytes(names, seed).len() + 24 <= SAVE_LIMIT ==> save_view(res) == Some((names, seed)),
{
    let bytes = match unpack_save(file) {
        Some(b) => b,
        None => {
            return None;
        },
    };
    let res = decode_save(&bytes);
    proof {
        assert forall|n: Seq<Seq<char>>, sd: u64|
            all_distinct(n) && #[trigger] zstd_frame(bincode_bytes(n, sd)) == file@ && 33 * bincode_bytes(
                n,
                sd,
            ).len() + 24 <= SAVE_LIMIT implies save_view(res) == Some((n, sd)) by {
            assert(bytes@ == bincode_bytes(n, sd));
        }
    }
    res
}

} // verus!
