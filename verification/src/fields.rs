//! The field map of a card: field names with their values.
//!
//! A field map holds each name at most once. It is kept as a list of
//! entries, so that walking it visits the entries in a fixed order: the
//! order in which the names were first inserted.

use vstd::prelude::*;

verus! {

/// The entries of a field map in the order in which they are visited, each
/// a name with its value.
pub type Entries = Seq<(Seq<char>, Seq<char>)>;

/// Whether entry `i` of `entries` has the name `key`.
pub open spec fn key_at(entries: Entries, key: Seq<char>, i: int) -> bool {
    0 <= i < entries.len() && entries[i].0 == key
}

/// Whether some entry has the name `key`.
pub open spec fn has_key(entries: Entries, key: Seq<char>) -> bool {
    exists|i: int| key_at(entries, key, i)
}

/// The position of an entry named `key`, where there is one.
pub open spec fn position(entries: Entries, key: Seq<char>) -> int {
    choose|i: int| key_at(entries, key, i)
}

/// The value stored under `key`, if any.
pub open spec fn lookup(entries: Entries, key: Seq<char>) -> Option<Seq<char>> {
    if has_key(entries, key) {
        Some(entries[position(entries, key)].1)
    } else {
        None
    }
}

/// No name occurs in two entries.
pub open spec fn distinct_keys(entries: Entries) -> bool {
    forall|i: int, j: int| 0 <= i < j < entries.len() ==> entries[i].0 != entries[j].0
}

/// The entries after storing `value` under `key`: an entry of that name
/// keeps its place and takes the new value, a new name goes to the end.
pub open spec fn put(entries: Entries, key: Seq<char>, value: Seq<char>) -> Entries {
    if has_key(entries, key) {
        entries.update(position(entries, key), (key, value))
    } else {
        entries.push((key, value))
    }
}

/// The entries as a mapping from names to values.
pub open spec fn as_map(entries: Entries) -> Map<Seq<char>, Seq<char>> {
    Map::new(|k: Seq<char>| has_key(entries, k), |k: Seq<char>| entries[position(entries, k)].1)
}

/// The names of the entries, in order.
pub open spec fn names_of(entries: Entries) -> Seq<Seq<char>> {
    Seq::new(entries.len(), |i: int| entries[i].0)
}

/// The entries that result from storing the given pairs one after the other,
/// starting from nothing.
pub open spec fn collected(pairs: Entries) -> Entries
    decreases pairs.len(),
{
    if pairs.len() == 0 {
        Seq::<(Seq<char>, Seq<char>)>::empty()
    } else {
        put(collected(pairs.drop_last()), pairs.last().0, pairs.last().1)
    }
}

/// Among entries with distinct names, a name is found at one position only.
pub proof fn lemma_position_unique(entries: Entries, key: Seq<char>, i: int)
    requires
        distinct_keys(entries),
        key_at(entries, key, i),
    ensures
        has_key(entries, key),
        position(entries, key) == i,
        lookup(entries, key) == Some(entries[i].1),
{
    let p = position(entries, key);
    assert(key_at(entries, key, p));
    if p < i {
        assert(entries[p].0 != entries[i].0);
    } else if i < p {
        assert(entries[i].0 != entries[p].0);
    }
}

/// Storing a value keeps the names distinct, makes the name present with
/// that value, and leaves every other name as it was.
pub proof fn lemma_put(entries: Entries, key: Seq<char>, value: Seq<char>)
    requires
        distinct_keys(entries),
    ensures
        distinct_keys(put(entries, key, value)),
        lookup(put(entries, key, value), key) == Some(value),
        forall|other: Seq<char>|
            other != key ==> lookup(put(entries, key, value), other) == lookup(entries, other),
        forall|other: Seq<char>|
            has_key(put(entries, key, value), other) <==> (other == key || has_key(
                entries,
                other,
            )),
        as_map(put(entries, key, value)) == as_map(entries).insert(key, value),
{
    let after = put(entries, key, value);
    let at = if has_key(entries, key) {
        position(entries, key)
    } else {
        entries.len() as int
    };
    if has_key(entries, key) {
        assert(key_at(entries, key, at));
    }
    assert(after.len() >= entries.len());
    assert forall|i: int| 0 <= i < after.len() implies #[trigger] after[i] == (if i == at {
        (key, value)
    } else {
        entries[i]
    }) by {}
    assert forall|i: int| 0 <= i < entries.len() implies (#[trigger] after[i]).0 == entries[i].0 by {}
    assert forall|i: int, j: int| 0 <= i < j < after.len() implies after[i].0 != after[j].0 by {
        if j == entries.len() {
            assert(!has_key(entries, key));
            assert(!key_at(entries, key, i));
        }
    }
    assert(key_at(after, key, at));
    lemma_position_unique(after, key, at);
    assert forall|other: Seq<char>| other != key implies lookup(after, other) == lookup(
        entries,
        other,
    ) && (has_key(after, other) <==> has_key(entries, other)) by {
        if has_key(entries, other) {
            let p = position(entries, other);
            assert(key_at(entries, other, p));
            assert(key_at(after, other, p));
            lemma_position_unique(after, other, p);
        } else if has_key(after, other) {
            let p = position(after, other);
            assert(key_at(after, other, p));
            assert(key_at(entries, other, p));
        }
    }
    assert forall|other: Seq<char>| has_key(after, other) <==> (other == key || has_key(
        entries,
        other,
    )) by {}
    assert(as_map(after) =~= as_map(entries).insert(key, value)) by {
        assert forall|k: Seq<char>| as_map(after).dom().contains(k) implies #[trigger] as_map(
            after,
        )[k] == as_map(entries).insert(key, value)[k] by {
            if k == key {
            } else {
                assert(lookup(after, k) == lookup(entries, k));
            }
        }
    }
}

/// A field map: field names with their values, each name at most once.
#[derive(Debug)]
pub struct CardFields {
    entries: Vec<(String, String)>,
}

impl View for CardFields {
    type V = Map<Seq<char>, Seq<char>>;

    /// The mapping from names to values.
    open spec fn view(&self) -> Map<Seq<char>, Seq<char>> {
        as_map(self.entries())
    }
}

impl Clone for CardFields {
    /// A field map with the same entries in the same order.
    fn clone(&self) -> (copy: Self)
        ensures
            copy.entries() == self.entries(),
    {
        let entries = self.to_pairs();
        CardFields { entries }
    }
}

impl CardFields {
    /// The entries in the order in which they are visited.
    pub closed spec fn entries(&self) -> Entries {
        self.entries.deep_view()
    }

    /// No name occurs in two entries.
    #[verifier::type_invariant]
    spec fn names_are_distinct(&self) -> bool {
        distinct_keys(self.entries.deep_view())
    }

    /// A field map without entries.
    pub fn new() -> (fields: Self)
        ensures
            fields.entries() == Seq::<(Seq<char>, Seq<char>)>::empty(),
    {
        let fields = CardFields { entries: Vec::new() };
        assert(fields.entries.deep_view() =~= Seq::<(Seq<char>, Seq<char>)>::empty());
        fields
    }

    /// The number of entries.
    pub fn len(&self) -> (n: usize)
        ensures
            n == self.entries().len(),
            distinct_keys(self.entries()),
    {
        proof {
            use_type_invariant(self);
        }
        self.entries.len()
    }

    /// The name of entry `i`.
    pub fn name(&self, i: usize) -> (name: &String)
        requires
            i < self.entries().len(),
        ensures
            name@ == self.entries()[i as int].0,
    {
        &self.entries[i].0
    }

    /// The value of entry `i`.
    pub fn value(&self, i: usize) -> (value: &String)
        requires
            i < self.entries().len(),
        ensures
            value@ == self.entries()[i as int].1,
    {
        &self.entries[i].1
    }

    /// The position of the entry named `key`, if there is one.
    pub fn find(&self, key: &str) -> (found: Option<usize>)
        ensures
            match found {
                Some(i) => key_at(self.entries(), key@, i as int) && position(
                    self.entries(),
                    key@,
                ) == i,
                None => !has_key(self.entries(), key@),
            },
            found is Some <==> has_key(self.entries(), key@),
    {
        let wanted = String::from_str(key);
        let mut i: usize = 0;
        while i < self.entries.len()
            invariant
                i <= self.entries.len(),
                wanted@ == key@,
                forall|j: int| 0 <= j < i ==> !key_at(self.entries.deep_view(), key@, j),
            decreases self.entries.len() - i,
        {
            if self.entries[i].0 == wanted {
                proof {
                    use_type_invariant(self);
                    lemma_position_unique(self.entries(), key@, i as int);
                }
                return Some(i);
            }
            i = i + 1;
        }
        None
    }

    /// Whether an entry is named `key`.
    pub fn contains_key(&self, key: &str) -> (present: bool)
        ensures
            present == has_key(self.entries(), key@),
            present == self@.contains_key(key@),
    {
        self.find(key).is_some()
    }

    /// The value stored under `key`, if any.
    pub fn get(&self, key: &str) -> (value: Option<&String>)
        ensures
            match value {
                Some(v) => lookup(self.entries(), key@) == Some(v@),
                None => lookup(self.entries(), key@) is None,
            },
    {
        match self.find(key) {
            Some(i) => Some(&self.entries[i].1),
            None => None,
        }
    }

    /// Stores `value` under `key`. An entry of that name keeps its place and
    /// takes the new value; a new name goes to the end.
    pub fn insert(&mut self, key: String, value: String)
        ensures
            final(self).entries() == put(old(self).entries(), key@, value@),
            final(self)@ == old(self)@.insert(key@, value@),
    {
        proof {
            use_type_invariant(&*self);
            lemma_put(self.entries(), key@, value@);
        }
        let ghost before = self.entries.deep_view();
        let found = self.find(key.as_str());
        let mut entries: Vec<(String, String)> = Vec::new();
        assert(entries.deep_view() =~= Seq::<(Seq<char>, Seq<char>)>::empty());
        core::mem::swap(&mut self.entries, &mut entries);
        match found {
            Some(i) => {
                entries.set(i, (key, value));
                assert(entries.deep_view() =~= before.update(i as int, (key@, value@)));
            },
            None => {
                entries.push((key, value));
                assert(entries.deep_view() =~= before.push((key@, value@)));
            },
        }
        self.entries = entries;
    }

    /// The field map that results from storing the given pairs one after the
    /// other: of two pairs with one name the later value stays.
    pub fn from_pairs(pairs: Vec<(String, String)>) -> (fields: Self)
        ensures
            fields.entries() == collected(pairs.deep_view()),
    {
        let mut fields = CardFields::new();
        let mut i: usize = 0;
        while i < pairs.len()
            invariant
                i <= pairs.len(),
                fields.entries() == collected(pairs.deep_view().take(i as int)),
            decreases pairs.len() - i,
        {
            let ghost upto = pairs.deep_view().take(i + 1);
            assert(upto.drop_last() =~= pairs.deep_view().take(i as int));
            assert(upto.last() == pairs.deep_view()[i as int]);
            fields.insert(pairs[i].0.clone(), pairs[i].1.clone());
            i = i + 1;
        }
        assert(pairs.deep_view().take(pairs.len() as int) =~= pairs.deep_view());
        fields
    }

    /// The entries as pairs of name and value, in order.
    pub fn to_pairs(&self) -> (pairs: Vec<(String, String)>)
        ensures
            pairs.deep_view() == self.entries(),
            distinct_keys(self.entries()),
    {
        proof {
            use_type_invariant(self);
        }
        let mut pairs: Vec<(String, String)> = Vec::new();
        let mut i: usize = 0;
        while i < self.entries.len()
            invariant
                i <= self.entries.len(),
                pairs.deep_view() == self.entries.deep_view().take(i as int),
            decreases self.entries.len() - i,
        {
            let ghost before = pairs.deep_view();
            pairs.push((self.entries[i].0.clone(), self.entries[i].1.clone()));
            assert(pairs.deep_view() =~= before.push(self.entries.deep_view()[i as int]));
            assert(self.entries.deep_view().take(i + 1) =~= before.push(
                self.entries.deep_view()[i as int],
            ));
            i = i + 1;
        }
        assert(self.entries.deep_view().take(self.entries.len() as int)
            =~= self.entries.deep_view());
        pairs
    }

    /// The names in order.
    pub fn keys(&self) -> (names: Vec<String>)
        ensures
            names.deep_view() == names_of(self.entries()),
    {
        let mut names: Vec<String> = Vec::new();
        let mut i: usize = 0;
        while i < self.entries.len()
            invariant
                i <= self.entries.len(),
                names.deep_view() == names_of(self.entries.deep_view().take(i as int)),
            decreases self.entries.len() - i,
        {
            let ghost before = names.deep_view();
            names.push(self.entries[i].0.clone());
            assert(names.deep_view() =~= before.push(self.entries.deep_view()[i as int].0));
            assert(names_of(self.entries.deep_view().take(i + 1)) =~= names_of(
                self.entries.deep_view().take(i as int),
            ).push(self.entries.deep_view()[i as int].0));
            i = i + 1;
        }
        assert(self.entries.deep_view().take(self.entries.len() as int)
            =~= self.entries.deep_view());
        names
    }
}

} // verus!
