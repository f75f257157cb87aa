//! The header mapping of a request or a response.
//!
//! A mapping from key to value in which no key occurs twice. Keys are
//! compared character for character, so they are case-sensitive. The entries
//! keep the order in which their keys first came, which is the order in
//! which a response writes them out.

use vstd::prelude::*;
use vstd::string::*;

verus! {

/// One header as the contracts see it: key, then value.
pub type Entry = (Seq<char>, Seq<char>);

/// No key occurs twice in `entries`.
pub open spec fn distinct_keys(entries: Seq<Entry>) -> bool {
    forall|i: int, j: int|
        0 <= i < j < entries.len() ==> (#[trigger] entries[i]).0 != (#[trigger] entries[j]).0
}

/// The index of the entry that holds `key`, or `entries.len()` where none
/// does.
pub open spec fn key_index(entries: Seq<Entry>, key: Seq<char>) -> int
    decreases entries.len(),
{
    if entries.len() == 0 {
        0
    } else if entries[0].0 == key {
        0
    } else {
        1 + key_index(entries.skip(1), key)
    }
}

/// `entries` after `key` was given `value`: the entry that held `key` holds
/// the new value in its old place; a new key goes to the end.
pub open spec fn put(entries: Seq<Entry>, key: Seq<char>, value: Seq<char>) -> Seq<Entry> {
    let i = key_index(entries, key);
    if i < entries.len() {
        entries.update(i, (key, value))
    } else {
        entries.push((key, value))
    }
}

/// The mapping that a run of entries stands for; of two entries with one
/// key the later counts.
pub open spec fn entries_map(entries: Seq<Entry>) -> Map<Seq<char>, Seq<char>>
    decreases entries.len(),
{
    if entries.len() == 0 {
        Map::empty()
    } else {
        entries_map(entries.drop_last()).insert(entries.last().0, entries.last().1)
    }
}

/// [`key_index`] finds the first entry with the key, and only that.
pub proof fn lemma_key_index(entries: Seq<Entry>, key: Seq<char>)
    ensures
        0 <= key_index(entries, key) <= entries.len(),
        key_index(entries, key) < entries.len() ==> entries[key_index(entries, key)].0 == key,
        forall|j: int| 0 <= j < key_index(entries, key) ==> (#[trigger] entries[j]).0 != key,
    decreases entries.len(),
{
    if entries.len() > 0 && entries[0].0 != key {
        lemma_key_index(entries.skip(1), key);
        let rest = entries.skip(1);
        assert forall|j: int| 0 <= j < key_index(entries, key) implies (#[trigger] entries[j]).0
            != key by {
            if j > 0 {
                assert(rest[j - 1] == entries[j]);
            }
        }
    }
}

/// A key is in the mapping exactly if some entry holds it.
pub proof fn lemma_entries_map_dom(entries: Seq<Entry>, key: Seq<char>)
    ensures
        entries_map(entries).contains_key(key) <==> key_index(entries, key) < entries.len(),
    decreases entries.len(),
{
    lemma_key_index(entries, key);
    if entries.len() > 0 {
        let front = entries.drop_last();
        lemma_entries_map_dom(front, key);
        lemma_key_index(front, key);
        if key_index(front, key) < front.len() {
            assert(front[key_index(front, key)] == entries[key_index(front, key)]);
        }
        if key_index(entries, key) < entries.len() && entries.last().0 != key {
            assert(front[key_index(entries, key)] == entries[key_index(entries, key)]);
        }
    }
}

/// Where no key occurs twice, each entry's key maps to that entry's value.
pub proof fn lemma_entries_map_value(entries: Seq<Entry>, i: int)
    requires
        distinct_keys(entries),
        0 <= i < entries.len(),
    ensures
        entries_map(entries).contains_key(entries[i].0),
        entries_map(entries)[entries[i].0] == entries[i].1,
    decreases entries.len(),
{
    let front = entries.drop_last();
    if i < entries.len() - 1 {
        assert(distinct_keys(front)) by {
            assert forall|a: int, b: int| 0 <= a < b < front.len() implies (#[trigger] front[a]).0
                != (#[trigger] front[b]).0 by {
                assert(front[a] == entries[a]);
                assert(front[b] == entries[b]);
            }
        }
        assert(front[i] == entries[i]);
        lemma_entries_map_value(front, i);
        assert(entries[i].0 != entries[entries.len() - 1].0);
    }
}

/// Giving a key a value keeps the keys apart and is an insertion into the
/// mapping.
pub proof fn lemma_put(entries: Seq<Entry>, key: Seq<char>, value: Seq<char>)
    requires
        distinct_keys(entries),
    ensures
        distinct_keys(put(entries, key, value)),
        entries_map(put(entries, key, value)) == entries_map(entries).insert(key, value),
    decreases entries.len(),
{
    lemma_key_index(entries, key);
    let i = key_index(entries, key);
    let after = put(entries, key, value);
    if i < entries.len() {
        assert(distinct_keys(after)) by {
            assert forall|a: int, b: int| 0 <= a < b < after.len() implies (#[trigger] after[a]).0
                != (#[trigger] after[b]).0 by {
                assert(after[a].0 == entries[a].0);
                assert(after[b].0 == entries[b].0);
            }
        }
        let front = entries.drop_last();
        assert(distinct_keys(front)) by {
            assert forall|a: int, b: int| 0 <= a < b < front.len() implies (#[trigger] front[a]).0
                != (#[trigger] front[b]).0 by {
                assert(front[a] == entries[a]);
                assert(front[b] == entries[b]);
            }
        }
        if i == entries.len() - 1 {
            assert(after.drop_last() =~= front);
            assert(entries_map(after) =~= entries_map(entries).insert(key, value));
        } else {
            lemma_put(front, key, value);
            lemma_key_index(front, key);
            assert(front[i] == entries[i]);
            assert(key_index(front, key) == i) by {
                if key_index(front, key) < i {
                    assert(front[key_index(front, key)] == entries[key_index(front, key)]);
                } else if key_index(front, key) > i {
                    assert(front[i].0 != key);
                }
            }
            assert(after.drop_last() =~= put(front, key, value));
            assert(after.last() == entries.last());
            assert(entries.last().0 != key) by {
                assert(entries[i].0 != entries[entries.len() - 1].0);
            }
            assert(entries_map(after) =~= entries_map(entries).insert(key, value));
        }
    } else {
        assert(distinct_keys(after)) by {
            assert forall|a: int, b: int| 0 <= a < b < after.len() implies (#[trigger] after[a]).0
                != (#[trigger] after[b]).0 by {
                if b < entries.len() {
                    assert(after[a] == entries[a]);
                    assert(after[b] == entries[b]);
                } else {
                    assert(after[a] == entries[a]);
                }
            }
        }
        assert(after.drop_last() =~= entries);
    }
}

spec fn entries_view(pairs: Seq<(String, String)>) -> Seq<Entry> {
    Seq::new(pairs.len(), |i: int| (pairs[i].0@, pairs[i].1@))
}

/// A header mapping.
#[derive(Debug)]
pub struct Headers {
    entries: Vec<(String, String)>,
}

impl View for Headers {
    type V = Map<Seq<char>, Seq<char>>;

    /// The mapping from key to value.
    open spec fn view(&self) -> Map<Seq<char>, Seq<char>> {
        entries_map(self.entries())
    }
}

impl Headers {
    /// The entries, in the order in which their keys first came.
    pub closed spec fn entries(&self) -> Seq<Entry> {
        entries_view(self.entries@)
    }

    #[verifier::type_invariant]
    spec fn well_formed(&self) -> bool {
        distinct_keys(self.entries())
    }

    /// An empty mapping.
    pub fn new() -> (headers: Headers)
        ensures
            headers.entries() == Seq::<Entry>::empty(),
            headers@ == Map::<Seq<char>, Seq<char>>::empty(),
    {
        let headers = Headers { entries: Vec::new() };
        assert(headers.entries() =~= Seq::<Entry>::empty());
        headers
    }

    /// The number of entries. No key occurs twice among them.
    pub fn len(&self) -> (n: usize)
        ensures
            n == self.entries().len(),
            distinct_keys(self.entries()),
    {
        proof {
            use_type_invariant(self);
        }
        self.entries.len()
    }

    /// The position of the entry that holds `key`, if there is one.
    fn position(&self, key: &str) -> (at: usize)
        ensures
            at == key_index(self.entries(), key@),
            at <= self.entries().len(),
    {
        let wanted = key.to_owned();
        let mut i: usize = 0;
        assert(self.entries().skip(0) =~= self.entries());
        while i < self.entries.len()
            invariant
                wanted@ == key@,
                i <= self.entries@.len(),
                key_index(self.entries(), key@) == i + key_index(
                    self.entries().skip(i as int),
                    key@,
                ),
            decreases self.entries@.len() - i,
        {
            let ghost rest = self.entries().skip(i as int);
            assert(rest[0] == self.entries()[i as int]);
            if self.entries[i].0.eq(&wanted) {
                return i;
            }
            assert(rest.skip(1) =~= self.entries().skip(i + 1));
            i = i + 1;
        }
        assert(self.entries().skip(i as int).len() == 0);
        i
    }

    /// This mapping with `key` given the value `value`, whether or not it
    /// had one.
    pub fn with(self, key: String, value: String) -> (headers: Headers)
        ensures
            headers.entries() == put(self.entries(), key@, value@),
            headers@ == self@.insert(key@, value@),
    {
        proof {
            use_type_invariant(&self);
            lemma_put(self.entries(), key@, value@);
        }
        let ghost before = self.entries();
        let at = self.position(key.as_str());
        let Headers { entries } = self;
        let mut entries = entries;
        if at < entries.len() {
            entries.set(at, (key, value));
        } else {
            entries.push((key, value));
        }
        assert(entries_view(entries@) =~= put(before, key@, value@));
        Headers { entries }
    }

    /// Gives `key` the value `value`, whether or not it had one.
    pub fn insert(&mut self, key: String, value: String)
        ensures
            final(self).entries() == put(old(self).entries(), key@, value@),
            final(self)@ == old(self)@.insert(key@, value@),
    {
        let mut taken = Headers::new();
        core::mem::swap(self, &mut taken);
        *self = taken.with(key, value);
    }

    /// The value that `key` maps to, if any.
    pub fn get(&self, key: &str) -> (value: Option<&String>)
        ensures
            match value {
                Some(v) => self@.contains_key(key@) && v@ == self@[key@],
                None => !self@.contains_key(key@),
            },
    {
        proof {
            use_type_invariant(self);
            lemma_entries_map_dom(self.entries(), key@);
            lemma_key_index(self.entries(), key@);
        }
        let at = self.position(key);
        if at < self.entries.len() {
            proof {
                lemma_entries_map_value(self.entries(), at as int);
            }
            Some(&self.entries[at].1)
        } else {
            None
        }
    }

    /// Whether `key` maps to a value.
    pub fn contains_key(&self, key: &str) -> (found: bool)
        ensures
            found == self@.contains_key(key@),
    {
        proof {
            lemma_entries_map_dom(self.entries(), key@);
        }
        let at = self.position(key);
        at < self.entries.len()
    }

    /// The entry at position `at`, as key and value; `None` beyond the end.
    pub fn entry(&self, at: usize) -> (pair: Option<(&String, &String)>)
        ensures
            match pair {
                Some((key, value)) => at < self.entries().len() && self.entries()[at as int] == (
                    key@,
                    value@,
                ),
                None => at >= self.entries().len(),
            },
    {
        if at < self.entries.len() {
            Some((&self.entries[at].0, &self.entries[at].1))
        } else {
            None
        }
    }
}

} // verus!
