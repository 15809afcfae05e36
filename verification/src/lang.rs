use vstd::prelude::*;

use crate::cores::{gen_lang_name, lang_name_of};

verus! {

/// The texts of a language, by key, held in a `hashbrown` map.
#[verifier::external_body]
pub struct Lang(hashbrown::HashMap<String, String>);

/// The texts a language holds: the text of each key.
pub uninterp spec fn lang_texts(lang: Lang) -> Map<Seq<char>, Seq<char>>;

impl View for Lang {
    type V = Map<Seq<char>, Seq<char>>;

    open spec fn view(&self) -> Map<Seq<char>, Seq<char>> {
        lang_texts(*self)
    }
}

/// An empty map, from `hashbrown::HashMap::new`.
#[verifier::external_body]
fn texts_new() -> (res: Lang)
    ensures
        lang_texts(res).dom() == Set::<Seq<char>>::empty(),
{
    Lang(hashbrown::HashMap::new())
}

/// `hashbrown::HashMap::insert`: afterwards the key maps to the value, and
/// every other key keeps its text.
#[verifier::external_body]
fn texts_insert(lang: &mut Lang, key: String, value: String)
    ensures
        lang_texts(*final(lang)) == lang_texts(*old(lang)).insert(key@, value@),
{
    lang.0.insert(key, value);
}

/// `hashbrown::HashMap::get`: the text of the key, if the map holds it.
#[verifier::external_body]
fn texts_get<'a>(lang: &'a Lang, key: &String) -> (res: Option<&'a String>)
    ensures
        match res {
            Some(v) => lang_texts(*lang).contains_key(key@) && lang_texts(*lang)[key@] == v@,
            None => !lang_texts(*lang).contains_key(key@),
        },
{
    lang.0.get(key)
}

/// `hashbrown::HashMap::len`: the number of keys the map holds.
#[verifier::external_body]
fn texts_len(lang: &Lang) -> (res: usize)
    ensures
        res == lang_texts(*lang).len(),
{
    lang.0.len()
}

/// `Extend::extend` of `hashbrown::HashMap` with the entries of another map:
/// each entry is inserted in turn, so the other map's texts win.
#[verifier::external_body]
fn texts_extend(lang: &mut Lang, other: Lang)
    ensures
        lang_texts(*final(lang)) == lang_texts(*old(lang)).union_prefer_right(lang_texts(other)),
{
    lang.0.extend(other.0);
}

impl Lang {
    /// A language with no texts.
    pub fn new() -> (res: Self)
        ensures
            res@ == Map::<Seq<char>, Seq<char>>::empty(),
    {
        texts_new()
    }

    /// Sets the text of a key, replacing the one it had.
    pub fn insert(&mut self, key: String, value: String)
        ensures
            final(self)@ == old(self)@.insert(key@, value@),
    {
        texts_insert(self, key, value)
    }

    /// The text of a key, if it has one.
    pub fn get(&self, key: &String) -> (res: Option<&String>)
        ensures
            match res {
                Some(v) => self@.contains_key(key@) && self@[key@] == v@,
                None => !self@.contains_key(key@),
            },
    {
        texts_get(self, key)
    }

    /// The number of keys with a text.
    pub fn len(&self) -> (res: usize)
        ensures
            res == self@.len(),
    {
        texts_len(self)
    }

    /// Adds the texts of another language, which win over texts of the same key.
    pub fn extend(&mut self, other: Lang)
        ensures
            final(self)@ == old(self)@.union_prefer_right(other@),
    {
        texts_extend(self, other)
    }
}

/// Reading a text back after setting it gives the text that was set, and
/// setting a text leaves every other key's text as it was.
pub proof fn lemma_lang_read_after_write(
    texts: Map<Seq<char>, Seq<char>>,
    key: Seq<char>,
    value: Seq<char>,
    other: Seq<char>,
)
    requires
        other != key,
    ensures
        texts.insert(key, value).contains_key(key),
        texts.insert(key, value)[key] == value,
        texts.insert(key, value).contains_key(other) == texts.contains_key(other),
        texts.contains_key(other) ==> texts.insert(key, value)[other] == texts[other],
{
}

/// The languages, by name, held in a `hashbrown` map.
#[verifier::external_body]
pub struct Langs(hashbrown::HashMap<String, Lang>);

/// The languages a map holds: the texts of each language.
pub uninterp spec fn langs_texts(langs: Langs) -> Map<Seq<char>, Map<Seq<char>, Seq<char>>>;

impl View for Langs {
    type V = Map<Seq<char>, Map<Seq<char>, Seq<char>>>;

    open spec fn view(&self) -> Map<Seq<char>, Map<Seq<char>, Seq<char>>> {
        langs_texts(*self)
    }
}

/// An empty map, from `hashbrown::HashMap::new`.
#[verifier::external_body]
fn langs_new() -> (res: Langs)
    ensures
        langs_texts(res).dom() == Set::<Seq<char>>::empty(),
{
    Langs(hashbrown::HashMap::new())
}

/// `hashbrown::HashMap::insert`: afterwards the name maps to the language.
#[verifier::external_body]
fn langs_insert(langs: &mut Langs, name: String, lang: Lang)
    ensures
        langs_texts(*final(langs)) == langs_texts(*old(langs)).insert(name@, lang_texts(lang)),
{
    langs.0.insert(name, lang);
}

/// `hashbrown::HashMap::remove`: takes the language of the name out of the
/// map, if the map holds it.
#[verifier::external_body]
fn langs_remove(langs: &mut Langs, name: &String) -> (res: Option<Lang>)
    ensures
        langs_texts(*final(langs)) == langs_texts(*old(langs)).remove(name@),
        match res {
            Some(l) => langs_texts(*old(langs)).contains_key(name@) && langs_texts(*old(langs))[name@]
                == lang_texts(l),
            None => !langs_texts(*old(langs)).contains_key(name@),
        },
{
    langs.0.remove(name)
}

/// `hashbrown::HashMap::get`: the language of the name, if the map holds it.
#[verifier::external_body]
fn langs_get<'a>(langs: &'a Langs, name: &String) -> (res: Option<&'a Lang>)
    ensures
        match res {
            Some(l) => langs_texts(*langs).contains_key(name@) && langs_texts(*langs)[name@] == lang_texts(*l),
            None => !langs_texts(*langs).contains_key(name@),
        },
{
    langs.0.get(name)
}

/// `hashbrown::HashMap::len`: the number of languages the map holds.
#[verifier::external_body]
fn langs_len(langs: &Langs) -> (res: usize)
    ensures
        res == langs_texts(*langs).len(),
{
    langs.0.len()
}

impl Langs {
    /// The language of the given name, if there is one.
    pub fn get(&self, name: &String) -> (res: Option<&Lang>)
        ensures
            match res {
                Some(l) => self@.contains_key(name@) && self@[name@] == l@,
                None => !self@.contains_key(name@),
            },
    {
        langs_get(self, name)
    }

    /// The number of languages.
    pub fn len(&self) -> (res: usize)
        ensures
            res == self@.len(),
    {
        langs_len(self)
    }
}

/// The languages of the lang files, each file given by its path and its texts:
/// files of the same language (the next-to-last piece of the path) are merged,
/// a later file's texts winning over an earlier one's.
pub open spec fn lang_table(files: Seq<(String, Lang)>) -> Map<Seq<char>, Map<Seq<char>, Seq<char>>>
    decreases files.len(),
{
    if files.len() == 0 {
        Map::empty()
    } else {
        let t = lang_table(files.drop_last());
        let name = lang_name_of(files.last().0@);
        let before = if t.contains_key(name) {
            t[name]
        } else {
            Map::empty()
        };
        t.insert(name, before.union_prefer_right(files.last().1@))
    }
}

/// Gathers the texts of the lang files into languages, each file given by its
/// path and its texts.
pub fn get_langs(files: Vec<(String, Lang)>) -> (res: Langs)
    ensures
        res@ == lang_table(files@),
{
    let ghost all = files@;
    let mut files = files;
    let mut langs = langs_new();
    let ghost mut done: int = 0;
    while files.len() > 0
        invariant
            0 <= done <= all.len(),
            files@ == all.subrange(done, all.len() as int),
            langs@ == lang_table(all.take(done)),
        decreases files@.len(),
    {
        let (dir, lang) = files.remove(0);
        proof {
            assert(all.take(done + 1).drop_last() =~= all.take(done));
            assert(all.take(done + 1).last() == all[done]);
        }
        let lang_name = gen_lang_name(dir.as_str());
        match langs_remove(&mut langs, &lang_name) {
            Some(mut existing) => {
                existing.extend(lang);
                langs_insert(&mut langs, lang_name, existing);
            },
            None => {
                langs_insert(&mut langs, lang_name, lang);
                proof {
                    assert(Map::<Seq<char>, Seq<char>>::empty().union_prefer_right(all[done].1@) =~= all[done].1@);
                }
            },
        }
        proof {
            assert(langs@ =~= lang_table(all.take(done + 1)));
            done = done + 1;
            assert(files@ =~= all.subrange(done, all.len() as int));
        }
    }
    proof {
        assert(all.take(done) =~= all);
    }
    langs
}

} // verus!
