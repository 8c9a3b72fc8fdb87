//! The user's own words: what is heard on the left, what is written on the right.

use vstd::prelude::*;
use crate::chars;
use crate::chars::str_eq;

verus! {

/// The views of a list of pairs of strings.
pub open spec fn pairs(v: Seq<(String, String)>) -> Seq<(Seq<char>, Seq<char>)> {
    v.map_values(|p: (String, String)| (p.0@, p.1@))
}

/// Where the entry for a spoken form stands, or the length if there is none.
pub open spec fn key_index(entries: Seq<(Seq<char>, Seq<char>)>, key: Seq<char>) -> nat
    decreases entries.len(),
{
    if entries.len() == 0 || entries[0].0 == key {
        0
    } else {
        1 + key_index(entries.drop_first(), key)
    }
}

/// The entries with one set: an existing one is written over in its place, a
/// new one goes to the end.
pub open spec fn put(
    entries: Seq<(Seq<char>, Seq<char>)>,
    key: Seq<char>,
    value: Seq<char>,
) -> Seq<(Seq<char>, Seq<char>)> {
    let i = key_index(entries, key) as int;
    if i < entries.len() {
        entries.update(i, (key, value))
    } else {
        entries.push((key, value))
    }
}

/// The written form for a spoken form.
pub open spec fn lookup(
    entries: Seq<(Seq<char>, Seq<char>)>,
    key: Seq<char>,
) -> Option<Seq<char>> {
    let i = key_index(entries, key) as int;
    if i < entries.len() {
        Some(entries[i].1)
    } else {
        None
    }
}

/// No spoken form occurs twice.
pub open spec fn distinct(entries: Seq<(Seq<char>, Seq<char>)>) -> bool {
    forall|i: int, j: int|
        0 <= i < j < entries.len() ==> (#[trigger] entries[i]).0 != (#[trigger] entries[j]).0
}

pub proof fn lemma_key_index(entries: Seq<(Seq<char>, Seq<char>)>, key: Seq<char>)
    ensures
        key_index(entries, key) <= entries.len(),
        key_index(entries, key) < entries.len() ==> entries[key_index(entries, key) as int].0
            == key,
        forall|i: int|
            0 <= i < key_index(entries, key) ==> (#[trigger] entries[i]).0 != key,
    decreases entries.len(),
{
    if entries.len() > 0 && entries[0].0 != key {
        let rest = entries.drop_first();
        lemma_key_index(rest, key);
        assert forall|i: int| 0 <= i < key_index(entries, key) implies (#[trigger] entries[i]).0
            != key by {
            if i > 0 {
                assert(rest[i - 1] == entries[i]);
            }
        }
    }
}

proof fn lemma_key_index_is(entries: Seq<(Seq<char>, Seq<char>)>, key: Seq<char>, n: int)
    requires
        0 <= n <= entries.len(),
        n < entries.len() ==> entries[n].0 == key,
        forall|i: int| 0 <= i < n ==> (#[trigger] entries[i]).0 != key,
    ensures
        key_index(entries, key) == n,
{
    lemma_key_index(entries, key);
    let k = key_index(entries, key) as int;
    if k < n {
        assert(entries[k].0 != key);
    } else if n < k {
        assert(entries[n].0 != key);
    }
}

proof fn lemma_put_distinct(
    entries: Seq<(Seq<char>, Seq<char>)>,
    key: Seq<char>,
    value: Seq<char>,
)
    requires
        distinct(entries),
    ensures
        distinct(put(entries, key, value)),
{
    lemma_key_index(entries, key);
    let e = put(entries, key, value);
    assert forall|i: int, j: int| 0 <= i < j < e.len() implies (#[trigger] e[i]).0
        != (#[trigger] e[j]).0 by {
        if i < entries.len() {
            assert(e[i].0 == entries[i].0);
        }
        if j < entries.len() {
            assert(e[j].0 == entries[j].0);
        }
    }
}

/// Setting an entry makes its spoken form answer with the new written form and
/// leaves the answer for every other spoken form as it was.
pub proof fn law_put_lookup(
    entries: Seq<(Seq<char>, Seq<char>)>,
    key: Seq<char>,
    value: Seq<char>,
    other: Seq<char>,
)
    ensures
        lookup(put(entries, key, value), key) == Some(value),
        other != key ==> lookup(put(entries, key, value), other) == lookup(entries, other),
{
    lemma_key_index(entries, key);
    lemma_key_index(entries, other);
    let e = put(entries, key, value);
    let k = key_index(entries, key) as int;
    assert forall|i: int| 0 <= i < k implies (#[trigger] e[i]).0 != key by {
        assert(e[i] == entries[i]);
    }
    lemma_key_index_is(e, key, k);
    if other != key {
        let o = key_index(entries, other) as int;
        assert forall|i: int| 0 <= i < o implies (#[trigger] e[i]).0 != other by {
            assert(entries[i].0 != other);
        }
        if o < entries.len() {
            lemma_key_index_is(e, other, o);
        } else {
            lemma_key_index_is(e, other, e.len() as int);
        }
    }
}

/// Spoken forms with their written forms, each spoken form once, in the order
/// in which they were first entered.
#[derive(Debug)]
pub struct Dictionary {
    entries: Vec<(String, String)>,
}

impl View for Dictionary {
    type V = Seq<(Seq<char>, Seq<char>)>;

    closed spec fn view(&self) -> Seq<(Seq<char>, Seq<char>)> {
        pairs(self.entries@)
    }
}

impl Clone for Dictionary {
    fn clone(&self) -> (d: Dictionary)
        ensures
            d@ == self@,
    {
        proof {
            use_type_invariant(self);
        }
        let mut entries: Vec<(String, String)> = Vec::new();
        let mut i: usize = 0;
        while i < self.entries.len()
            invariant
                i <= self.entries@.len(),
                i == entries@.len(),
                forall|k: int|
                    0 <= k < i ==> (#[trigger] entries@[k]).0@ == self.entries@[k].0@
                        && entries@[k].1@ == self.entries@[k].1@,
            decreases self.entries@.len() - i,
        {
            entries.push((self.entries[i].0.clone(), self.entries[i].1.clone()));
            i += 1;
        }
        assert(pairs(entries@) =~= pairs(self.entries@));
        Dictionary { entries }
    }
}

impl Dictionary {
    #[verifier::type_invariant]
    spec fn each_key_once(self) -> bool {
        distinct(pairs(self.entries@))
    }

    /// A dictionary with nothing in it.
    pub fn new() -> (d: Dictionary)
        ensures
            d@ == Seq::<(Seq<char>, Seq<char>)>::empty(),
    {
        let entries: Vec<(String, String)> = Vec::new();
        assert(pairs(entries@) =~= seq![]);
        Dictionary { entries }
    }

    /// How many entries there are.
    pub fn len(&self) -> (n: usize)
        ensures
            n == self@.len(),
            distinct(self@),
    {
        proof {
            use_type_invariant(self);
        }
        self.entries.len()
    }

    /// Whether there are no entries.
    pub fn is_empty(&self) -> (r: bool)
        ensures
            r == (self@.len() == 0),
    {
        self.entries.len() == 0
    }

    /// The entry at a position.
    pub fn entry(&self, i: usize) -> (e: (&String, &String))
        requires
            i < self@.len(),
        ensures
            (e.0@, e.1@) == self@[i as int],
    {
        (&self.entries[i].0, &self.entries[i].1)
    }

    /// Where the entry for a spoken form stands, or the length.
    fn find(entries: &Vec<(String, String)>, key: &str) -> (n: usize)
        ensures
            n == key_index(pairs(entries@), key@),
    {
        let mut i: usize = 0;
        while i < entries.len()
            invariant
                i <= entries@.len(),
                forall|k: int| 0 <= k < i ==> (#[trigger] pairs(entries@)[k]).0 != key@,
            decreases entries@.len() - i,
        {
            if str_eq(entries[i].0.as_str(), key) {
                proof {
                    lemma_key_index_is(pairs(entries@), key@, i as int);
                }
                return i;
            }
            i += 1;
        }
        proof {
            lemma_key_index_is(pairs(entries@), key@, i as int);
        }
        i
    }

    /// The written form for a spoken form, if there is one.
    pub fn get(&self, key: &str) -> (r: Option<&String>)
        ensures
            match r {
                Some(v) => lookup(self@, key@) == Some(v@),
                None => lookup(self@, key@) is None,
            },
    {
        let i: usize = Self::find(&self.entries, key);
        if i < self.entries.len() {
            Some(&self.entries[i].1)
        } else {
            None
        }
    }

    /// Sets the written form for a spoken form.
    pub fn insert(&mut self, key: String, value: String)
        ensures
            final(self)@ == put(old(self)@, key@, value@),
    {
        proof {
            use_type_invariant(&*self);
        }
        let mut entries: Vec<(String, String)> = Vec::new();
        assert(pairs(entries@) =~= seq![]);
        std::mem::swap(&mut entries, &mut self.entries);
        let ghost before = pairs(entries@);
        let i: usize = Self::find(&entries, key.as_str());
        let ghost k = key@;
        let ghost v = value@;
        proof {
            lemma_key_index(before, k);
            lemma_put_distinct(before, k, v);
        }
        if i < entries.len() {
            entries.set(i, (key, value));
        } else {
            entries.push((key, value));
        }
        assert(pairs(entries@) =~= put(before, k, v));
        self.entries = entries;
    }
}

} // verus!
