//! User key mappings: an association from key names to command names,
//! and the canonical name of a key press.

use vstd::prelude::*;
use crate::key::{Key, KeyInput};
use crate::text::push_char;
use vstd::string::StringExecFns;

verus! {

/// Index of the first entry with the given key name, or the length when
/// there is none.
pub open spec fn index_of_key(entries: Seq<(String, String)>, key: Seq<char>) -> int
    decreases entries.len(),
{
    if entries.len() == 0 {
        0
    } else if entries[0].0@ == key {
        0
    } else {
        1 + index_of_key(entries.drop_first(), key)
    }
}

/// Whether some entry carries the given key name.
pub open spec fn has_key(entries: Seq<(String, String)>, key: Seq<char>) -> bool {
    exists|i: int| 0 <= i < entries.len() && (#[trigger] entries[i]).0@ == key
}

pub struct KeyMap {
    mappings: Vec<(String, String)>,
}

impl KeyMap {
    pub closed spec fn entries(self) -> Seq<(String, String)> {
        self.mappings@
    }

    pub fn new() -> (m: KeyMap)
        ensures
            m.entries().len() == 0,
    {
        KeyMap { mappings: Vec::new() }
    }

    /// Binds `from` to `to`, replacing an earlier binding of the same key.
    pub fn add_mapping(&mut self, from: &str, to: &str)
        ensures
            has_key(old(self).entries(), from@) ==> ({
                let k = index_of_key(old(self).entries(), from@);
                &&& final(self).entries().len() == old(self).entries().len()
                &&& forall|j: int| 0 <= j < old(self).entries().len() && j != k
                    ==> #[trigger] final(self).entries()[j] == old(self).entries()[j]
                &&& final(self).entries()[k].0@ == from@
                &&& final(self).entries()[k].1@ == to@
            }),
            !has_key(old(self).entries(), from@) ==> ({
                &&& final(self).entries().len() == old(self).entries().len() + 1
                &&& forall|j: int| 0 <= j < old(self).entries().len()
                    ==> #[trigger] final(self).entries()[j] == old(self).entries()[j]
                &&& final(self).entries().last().0@ == from@
                &&& final(self).entries().last().1@ == to@
            }),
    {
        let ghost entries0 = self.mappings@;
        proof {
            lemma_index_of_key_nonneg(entries0, from@);
        }
        let mut i: usize = 0;
        while i < self.mappings.len()
            invariant
                i <= self.mappings@.len(),
                self.mappings@ == entries0,
                entries0 == old(self).entries(),
                forall|j: int| 0 <= j < i ==> (#[trigger] entries0[j]).0@ != from@,
                index_of_key(entries0, from@) >= i,
            decreases self.mappings@.len() - i,
        {
            let hit = crate::text::chars_eq_str_string(&self.mappings[i].0, from);
            if hit {
                proof {
                    lemma_index_of_key_found(entries0, from@, i as int);
                }
                let name = self.mappings[i].0.clone();
                self.mappings.set(i, (name, to.to_owned()));
                proof {
                    assert(has_key(entries0, from@));
                }
                return;
            }
            proof {
                lemma_index_of_key_step(entries0, from@, i as int);
            }
            i += 1;
        }
        proof {
            if has_key(entries0, from@) {
                let j = choose|j: int|
                    0 <= j < entries0.len() && (#[trigger] entries0[j]).0@ == from@;
                assert(false);
            }
        }
        self.mappings.push((from.to_owned(), to.to_owned()));
    }

    /// The command bound to a key name, if any.
    pub fn get_mapping(&self, key: &str) -> (r: Option<&String>)
        ensures
            match r {
                Some(v) => has_key(self.entries(), key@)
                    && v@ == self.entries()[index_of_key(self.entries(), key@)].1@,
                None => !has_key(self.entries(), key@),
            },
    {
        let ghost entries0 = self.mappings@;
        proof {
            lemma_index_of_key_nonneg(entries0, key@);
        }
        let mut i: usize = 0;
        while i < self.mappings.len()
            invariant
                i <= self.mappings@.len(),
                self.mappings@ == entries0,
                forall|j: int| 0 <= j < i ==> (#[trigger] entries0[j]).0@ != key@,
                index_of_key(entries0, key@) >= i,
            decreases self.mappings@.len() - i,
        {
            let hit = crate::text::chars_eq_str_string(&self.mappings[i].0, key);
            if hit {
                proof {
                    lemma_index_of_key_found(entries0, key@, i as int);
                }
                return Some(&self.mappings[i].1);
            }
            proof {
                lemma_index_of_key_step(entries0, key@, i as int);
            }
            i += 1;
        }
        proof {
            if has_key(entries0, key@) {
                let j = choose|j: int|
                    0 <= j < entries0.len() && (#[trigger] entries0[j]).0@ == key@;
                assert(false);
            }
        }
        None
    }

    /// The canonical name of a key press: modifier prefixes, then the key.
    pub fn key_to_string(key: &KeyInput) -> (r: String)
        ensures
            r@ == key_name_spec(*key),
    {
        let mut result = String::new();
        if key.ctrl {
            result.append("C-");
        }
        if key.alt {
            result.append("A-");
        }
        if key.shift {
            result.append("S-");
        }
        match key.code {
            Key::Char(c) => push_char(&mut result, c),
            Key::Enter => result.append("Enter"),
            Key::Esc => result.append("Esc"),
            Key::Backspace => result.append("BS"),
            Key::Tab => result.append("Tab"),
            _ => {},
        }
        result
    }
}

/// The canonical spelling of a key press.
pub open spec fn key_name_spec(key: KeyInput) -> Seq<char> {
    let prefix = (if key.ctrl {
        "C-"@
    } else {
        Seq::<char>::empty()
    }) + (if key.alt {
        "A-"@
    } else {
        Seq::<char>::empty()
    }) + (if key.shift {
        "S-"@
    } else {
        Seq::<char>::empty()
    });
    prefix + match key.code {
        Key::Char(c) => seq![c],
        Key::Enter => "Enter"@,
        Key::Esc => "Esc"@,
        Key::Backspace => "BS"@,
        Key::Tab => "Tab"@,
        _ => Seq::<char>::empty(),
    }
}

proof fn lemma_index_of_key_step(entries: Seq<(String, String)>, key: Seq<char>, i: int)
    requires
        0 <= i < entries.len(),
        forall|j: int| 0 <= j <= i ==> (#[trigger] entries[j]).0@ != key,
        index_of_key(entries, key) >= i,
    ensures
        index_of_key(entries, key) >= i + 1,
    decreases i,
{
    if i == 0 {
        assert(entries[0].0@ != key);
        assert(index_of_key(entries, key) == 1 + index_of_key(entries.drop_first(), key));
        lemma_index_of_key_nonneg(entries.drop_first(), key);
    } else {
        let tail = entries.drop_first();
        assert(entries[0].0@ != key);
        assert(forall|j: int| 0 <= j <= i - 1 ==> (#[trigger] tail[j]).0@ != key) by {
            assert(forall|j: int| 0 <= j < tail.len() ==> tail[j] == entries[j + 1]);
        }
        lemma_index_of_key_step(tail, key, i - 1);
    }
}

proof fn lemma_index_of_key_nonneg(entries: Seq<(String, String)>, key: Seq<char>)
    ensures
        index_of_key(entries, key) >= 0,
    decreases entries.len(),
{
    if entries.len() > 0 && entries[0].0@ != key {
        lemma_index_of_key_nonneg(entries.drop_first(), key);
    }
}

proof fn lemma_index_of_key_found(entries: Seq<(String, String)>, key: Seq<char>, i: int)
    requires
        0 <= i < entries.len(),
        entries[i].0@ == key,
        forall|j: int| 0 <= j < i ==> (#[trigger] entries[j]).0@ != key,
    ensures
        index_of_key(entries, key) == i,
        has_key(entries, key),
    decreases i,
{
    if i == 0 {
    } else {
        let tail = entries.drop_first();
        assert(forall|j: int| 0 <= j < tail.len() ==> tail[j] == entries[j + 1]);
        lemma_index_of_key_found(tail, key, i - 1);
    }
}

impl Default for KeyMap {
    fn default() -> (m: KeyMap)
        ensures
            m.entries().len() == 0,
    {
        KeyMap::new()
    }
}

} // verus!
