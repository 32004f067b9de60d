use crate::text::same_text;
use vstd::prelude::*;

verus! {

/// Whether some entry of `entries` has the key `key`.
pub open spec fn has_key(entries: Seq<(Seq<char>, Seq<char>)>, key: Seq<char>) -> bool {
    exists|i: int| 0 <= i < entries.len() && (#[trigger] entries[i]).0 == key
}

/// The place of the first entry of `entries` with the key `key`; the number
/// of entries where none has it.
pub open spec fn index_of_key(entries: Seq<(Seq<char>, Seq<char>)>, key: Seq<char>) -> int
    decreases entries.len(),
{
    if entries.len() == 0 || entries[0].0 == key {
        0
    } else {
        1 + index_of_key(entries.skip(1), key)
    }
}

/// The value that `entries` give for `key`, `None` where no entry has that key.
pub open spec fn value_of(entries: Seq<(Seq<char>, Seq<char>)>, key: Seq<char>) -> Option<
    Seq<char>,
> {
    if has_key(entries, key) {
        Some(entries[index_of_key(entries, key)].1)
    } else {
        None
    }
}

/// Whether no two entries of `entries` share a key.
pub open spec fn keys_distinct(entries: Seq<(Seq<char>, Seq<char>)>) -> bool {
    forall|i: int, j: int|
        0 <= i < j < entries.len() ==> (#[trigger] entries[i]).0 != (#[trigger] entries[j]).0
}

/// `index_of_key` finds an entry with the key where there is one, and no
/// entry before it has the key.
pub proof fn lemma_index_of_key(entries: Seq<(Seq<char>, Seq<char>)>, key: Seq<char>)
    ensures
        0 <= index_of_key(entries, key) <= entries.len(),
        has_key(entries, key) <==> index_of_key(entries, key) < entries.len(),
        index_of_key(entries, key) < entries.len() ==> entries[index_of_key(entries, key)].0
            == key,
        forall|i: int| 0 <= i < index_of_key(entries, key) ==> (#[trigger] entries[i]).0 != key,
    decreases entries.len(),
{
    if entries.len() > 0 && entries[0].0 != key {
        let tail = entries.skip(1);
        lemma_index_of_key(tail, key);
        let k = index_of_key(tail, key);
        assert forall|i: int| 0 <= i < k + 1 implies (#[trigger] entries[i]).0 != key by {
            if i > 0 {
                assert(tail[i - 1] == entries[i]);
            }
        }
    }
}

/// What `entries` become when `key` is given the value `value`: the entry
/// with that key holds the new value where there is one, else a new last
/// entry holds the two.
pub open spec fn inserted(
    entries: Seq<(Seq<char>, Seq<char>)>,
    key: Seq<char>,
    value: Seq<char>,
) -> Seq<(Seq<char>, Seq<char>)> {
    if has_key(entries, key) {
        entries.update(index_of_key(entries, key), (key, value))
    } else {
        entries.push((key, value))
    }
}

/// After `key` was given `value`, `key` has that value, every other key has
/// the value that it had, and no key has come twice.
pub proof fn law_inserted(
    entries: Seq<(Seq<char>, Seq<char>)>,
    key: Seq<char>,
    value: Seq<char>,
    other: Seq<char>,
)
    requires
        keys_distinct(entries),
    ensures
        keys_distinct(inserted(entries, key, value)),
        value_of(inserted(entries, key, value), key) == Some(value),
        other != key ==> value_of(inserted(entries, key, value), other) == value_of(
            entries,
            other,
        ),
{
    let after = inserted(entries, key, value);
    let at = index_of_key(entries, key);
    lemma_index_of_key(entries, key);
    lemma_index_of_key(entries, other);
    lemma_index_of_key(after, key);
    lemma_index_of_key(after, other);
    assert(after[at].0 == key);
    assert(keys_distinct(after));
    if other != key {
        let place = index_of_key(entries, other);
        if place < entries.len() {
            assert(forall|i: int| 0 <= i < place ==> (#[trigger] after[i]).0 != other);
            lemma_index_of_key_at(after, other, place);
        } else {
            assert(forall|i: int| 0 <= i < after.len() ==> (#[trigger] after[i]).0 != other);
        }
    }
}

/// The first entry with the key stands at `place` where an entry with the
/// key stands there and none stands before.
pub proof fn lemma_index_of_key_at(
    entries: Seq<(Seq<char>, Seq<char>)>,
    key: Seq<char>,
    place: int,
)
    requires
        0 <= place < entries.len(),
        entries[place].0 == key,
        forall|i: int| 0 <= i < place ==> (#[trigger] entries[i]).0 != key,
    ensures
        index_of_key(entries, key) == place,
        has_key(entries, key),
{
    lemma_index_of_key(entries, key);
}

/// The parameters of one request: keys with their values, no key twice, in
/// the order in which the keys first came.
#[derive(Debug)]
pub struct Params {
    entries: Vec<(String, String)>,
}

impl View for Params {
    type V = Seq<(Seq<char>, Seq<char>)>;

    closed spec fn view(&self) -> Seq<(Seq<char>, Seq<char>)> {
        Seq::new(self.entries@.len(), |i: int| (self.entries@[i].0@, self.entries@[i].1@))
    }
}

impl Params {
    /// No two entries share a key.
    #[verifier::type_invariant]
    pub open spec fn well_formed(&self) -> bool {
        keys_distinct(self@)
    }

    /// The parameters of a request that names none.
    pub fn new() -> (params: Params)
        ensures
            params@ == Seq::<(Seq<char>, Seq<char>)>::empty(),
    {
        let params = Params { entries: Vec::new() };
        params
    }

    fn position(&self, key: &str) -> (at: usize)
        ensures
            at == index_of_key(self@, key@),
            at <= self.entries@.len(),
            self.entries@.len() == self@.len(),
    {
        let mut i: usize = 0;
        while i < self.entries.len() && !same_text(self.entries[i].0.as_str(), key)
            invariant
                i <= self.entries@.len(),
                self@.len() == self.entries@.len(),
                forall|j: int| 0 <= j < i ==> (#[trigger] self@[j]).0 != key@,
            decreases self.entries@.len() - i,
        {
            i = i + 1;
        }
        proof {
            lemma_index_of_key(self@, key@);
            if i < self.entries@.len() {
                assert(self@[i as int].0 == key@);
            }
        }
        i
    }

    /// How many keys the request names.
    pub fn len(&self) -> (n: usize)
        ensures
            n == self@.len(),
    {
        self.entries.len()
    }

    /// Whether the request names no key.
    pub fn is_empty(&self) -> (empty: bool)
        ensures
            empty == (self@.len() == 0),
    {
        self.entries.len() == 0
    }

    /// Whether the request names `key`.
    pub fn contains_key(&self, key: &str) -> (found: bool)
        ensures
            found == has_key(self@, key@),
    {
        let at = self.position(key);
        proof {
            lemma_index_of_key(self@, key@);
        }
        at < self.entries.len()
    }

    /// The value that the request gives for `key`.
    pub fn get(&self, key: &str) -> (value: Option<&String>)
        ensures
            match value {
                Some(v) => value_of(self@, key@) == Some(v@),
                None => value_of(self@, key@) is None,
            },
    {
        let at = self.position(key);
        proof {
            lemma_index_of_key(self@, key@);
        }
        if at < self.entries.len() {
            Some(&self.entries[at].1)
        } else {
            None
        }
    }

    /// The key and the value of the entry at place `i`, counted from 0; `None`
    /// where the request has no such entry.
    pub fn entry(&self, i: usize) -> (pair: Option<(&String, &String)>)
        ensures
            match pair {
                Some(found) => i < self@.len() && found.0@ == self@[i as int].0 && found.1@
                    == self@[i as int].1,
                None => i >= self@.len(),
            },
    {
        if i < self.entries.len() {
            let pair = &self.entries[i];
            Some((&pair.0, &pair.1))
        } else {
            None
        }
    }

    /// Gives `key` the value `value`: in place where the request names the
    /// key already, as a new last entry where it does not.
    pub fn insert(&mut self, key: String, value: String)
        ensures
            final(self)@ == inserted(old(self)@, key@, value@),
    {
        proof {
            use_type_invariant(&*self);
            lemma_index_of_key(self@, key@);
        }
        let at = self.position(key.as_str());
        let ghost before = self@;
        let ghost pair = (key@, value@);
        let mut entries: Vec<(String, String)> = Vec::new();
        std::mem::swap(&mut self.entries, &mut entries);
        if at < entries.len() {
            entries.set(at, (key, value));
        } else {
            entries.push((key, value));
        }
        proof {
            law_inserted(before, pair.0, pair.1, pair.0);
            assert(Seq::new(entries@.len(), |i: int| (entries@[i].0@, entries@[i].1@)) =~= inserted(
                before,
                pair.0,
                pair.1,
            ));
        }
        self.entries = entries;
    }
}

} // verus!
