//! Messages in the user's language: a catalogue from message keys to texts,
//! read from a YAML mapping, with the key itself as the text of last resort.

use vstd::prelude::*;
use vstd::string::StringExecFns;
use crate::yaml::{parse_string_table, string_table};

verus! {

/// The texts of one language, by key. Where a key stands more than once,
/// its first entry counts.
#[derive(Debug, Clone)]
pub struct Catalogue {
    pub entries: Vec<(String, String)>,
}

/// The text of the first entry of `entries` whose key is `key`.
pub open spec fn find(entries: Seq<(String, String)>, key: Seq<char>) -> Option<Seq<char>>
    decreases entries.len(),
{
    if entries.len() == 0 {
        None
    } else if entries[0].0@ == key {
        Some(entries[0].1@)
    } else {
        find(entries.drop_first(), key)
    }
}

impl Catalogue {
    /// The text that the catalogue holds for `key`.
    pub open spec fn text_for(&self, key: Seq<char>) -> Option<Seq<char>> {
        find(self.entries@, key)
    }

    /// The text shown for `key`: the catalogue's text for it, else the key
    /// itself.
    pub open spec fn message(&self, key: Seq<char>) -> Seq<char> {
        match self.text_for(key) {
            Some(found) => found,
            None => key,
        }
    }

    /// The catalogue holds exactly the entries of `table`.
    pub open spec fn holds(&self, table: Map<Seq<char>, Seq<char>>) -> bool {
        forall|key: Seq<char>|
            #[trigger] self.text_for(key) == if table.contains_key(key) {
                Some(table[key])
            } else {
                None
            }
    }

    /// The catalogue without any text.
    pub fn new() -> (catalogue: Catalogue)
        ensures
            catalogue.holds(Map::empty()),
    {
        Catalogue { entries: Vec::new() }
    }
}

/// `find` looks no further than the first `upto` entries once one of them
/// has the key, and through all of them otherwise.
proof fn lemma_find_skips(entries: Seq<(String, String)>, key: Seq<char>, upto: int)
    requires
        0 <= upto <= entries.len(),
        forall|i: int| 0 <= i < upto ==> entries[i].0@ != key,
    ensures
        find(entries, key) == find(entries.skip(upto), key),
    decreases upto,
{
    if upto == 0 {
        assert(entries.skip(0) =~= entries);
    } else {
        lemma_find_skips(entries.drop_first(), key, upto - 1);
        assert(entries.drop_first().skip(upto - 1) =~= entries.skip(upto));
    }
}

/// What `find` gives is the text of an entry with that key, and it gives
/// one whenever there is such an entry.
proof fn lemma_find_sound(entries: Seq<(String, String)>, key: Seq<char>)
    ensures
        match find(entries, key) {
            Some(text) => exists|i: int|
                0 <= i < entries.len() && #[trigger] entries[i].0@ == key && entries[i].1@
                    == text,
            None => forall|i: int| 0 <= i < entries.len() ==> #[trigger] entries[i].0@ != key,
        },
    decreases entries.len(),
{
    if entries.len() > 0 {
        if entries[0].0@ == key {
        } else {
            let rest = entries.drop_first();
            lemma_find_sound(rest, key);
            match find(rest, key) {
                Some(text) => {
                    let i = choose|i: int|
                        0 <= i < rest.len() && #[trigger] rest[i].0@ == key && rest[i].1@ == text;
                    assert(entries[i + 1].0@ == key && entries[i + 1].1@ == text);
                },
                None => {
                    assert forall|i: int| 0 <= i < entries.len() implies #[trigger] entries[i].0@
                        != key by {
                        if i > 0 {
                            assert(rest[i - 1].0@ != key);
                        }
                    }
                },
            }
        }
    }
}

/// The file that holds the texts of `language`.
pub fn catalogue_path(language: &str) -> (path: String)
    ensures
        path@ == "resources/localisation/"@ + language@ + ".yaml"@,
{
    let mut path = "resources/localisation/".to_owned();
    path.append(language);
    path.append(".yaml");
    path
}

/// Builds the catalogue of a language from the text of its file, where the
/// file could be read. A missing file, and a text that is no mapping from
/// strings to strings, give the empty catalogue.
pub fn init(content: Option<&str>) -> (catalogue: Catalogue)
    ensures
        match content {
            Some(text) => match string_table(text@) {
                Some(table) => catalogue.holds(table),
                None => catalogue.holds(Map::empty()),
            },
            None => catalogue.holds(Map::empty()),
        },
{
    let parsed = match content {
        Some(text) => parse_string_table(text),
        None => None,
    };
    match parsed {
        Some(pairs) => {
            let catalogue = Catalogue { entries: pairs };
            proof {
                let table = string_table(content->0@)->0;
                assert forall|key: Seq<char>|
                    #[trigger] catalogue.text_for(key) == if table.contains_key(key) {
                        Some(table[key])
                    } else {
                        None
                    } by {
                    lemma_find_sound(catalogue.entries@, key);
                }
            }
            catalogue
        },
        None => Catalogue::new(),
    }
}

/// The text for `key` in the user's language; the key itself where the
/// catalogue has no text for it.
pub fn get(catalogue: &Catalogue, key: &str) -> (text: String)
    ensures
        text@ == catalogue.message(key@),
{
    let wanted = key.to_owned();
    let mut i: usize = 0;
    while i < catalogue.entries.len()
        invariant
            i <= catalogue.entries.len(),
            wanted@ == key@,
            forall|j: int| 0 <= j < i ==> catalogue.entries@[j].0@ != key@,
        decreases catalogue.entries.len() - i,
    {
        if catalogue.entries[i].0 == wanted {
            proof {
                lemma_find_skips(catalogue.entries@, key@, i as int);
            }
            return catalogue.entries[i].1.clone();
        }
        i += 1;
    }
    proof {
        lemma_find_skips(catalogue.entries@, key@, i as int);
    }
    wanted
}

} // verus!
