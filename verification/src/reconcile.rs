//! Field-name reconciliation: aligning the names a generator returned with
//! the names a note type expects.
//!
//! Entries are taken in order. A name that is one of the expected names is
//! kept. Any other name is compared with the expected names that have no
//! value yet; if the closest of them is within `MAX_EDIT_DISTANCE` edits, the
//! entry is stored under that expected name, otherwise under its own name.
//! No entry is dropped, but an expected name that arrives after a misspelling
//! was stored under it takes the place of that value.

use crate::distance::{edit_distance, lemma_distance_to_self, levenshtein};
use crate::fields::{
    distinct_keys, has_key, key_at, lemma_put, lookup, put, CardFields, Entries,
};
use crate::text::contains_name;
use vstd::prelude::*;

verus! {

/// The largest edit distance at which a name is still taken for a
/// misspelling of an expected name.
pub const MAX_EDIT_DISTANCE: usize = 2;

/// Whether `i` is the position of an expected name that has no value yet.
pub open spec fn is_unfilled(filled: Entries, expected: Seq<Seq<char>>, i: int) -> bool {
    0 <= i < expected.len() && !has_key(filled, expected[i])
}

/// Whether `i` is the position of the expected name closest to `key` among
/// those without a value: none of them is closer, and none before `i` is as
/// close.
pub open spec fn is_closest_unfilled(
    filled: Entries,
    key: Seq<char>,
    expected: Seq<Seq<char>>,
    i: int,
) -> bool {
    &&& is_unfilled(filled, expected, i)
    &&& forall|j: int| #[trigger]
        is_unfilled(filled, expected, j) ==> edit_distance(key, expected[i]) <= edit_distance(
            key,
            expected[j],
        )
    &&& forall|j: int|
        j < i && #[trigger] is_unfilled(filled, expected, j) ==> edit_distance(key, expected[i])
            < edit_distance(key, expected[j])
}

/// The position of the closest expected name without a value, if any
/// expected name is without a value.
pub open spec fn closest_unfilled(
    filled: Entries,
    key: Seq<char>,
    expected: Seq<Seq<char>>,
) -> Option<int> {
    if exists|i: int| is_closest_unfilled(filled, key, expected, i) {
        Some(choose|i: int| is_closest_unfilled(filled, key, expected, i))
    } else {
        None
    }
}

/// Whether `key` is taken for a misspelling: it is no expected name, and the
/// closest expected name without a value is within `MAX_EDIT_DISTANCE`.
pub open spec fn is_misspelling(filled: Entries, key: Seq<char>, expected: Seq<Seq<char>>) -> bool {
    &&& !expected.contains(key)
    &&& closest_unfilled(filled, key, expected) matches Some(i)
    &&& edit_distance(key, expected[i]) <= MAX_EDIT_DISTANCE
}

/// The name under which an entry named `key` is stored.
pub open spec fn rename_target(
    filled: Entries,
    key: Seq<char>,
    expected: Seq<Seq<char>>,
) -> Seq<char> {
    if is_misspelling(filled, key, expected) {
        expected[closest_unfilled(filled, key, expected)->0]
    } else {
        key
    }
}

/// The reconciled entries of `raw`.
pub open spec fn reconciled(raw: Entries, expected: Seq<Seq<char>>) -> Entries
    decreases raw.len(),
{
    if raw.len() == 0 {
        Seq::<(Seq<char>, Seq<char>)>::empty()
    } else {
        let before = reconciled(raw.drop_last(), expected);
        put(before, rename_target(before, raw.last().0, expected), raw.last().1)
    }
}

/// A repaired name as a value of the model: the name found, the expected
/// name it was replaced by, and their edit distance.
pub struct FixView {
    pub from: Seq<char>,
    pub to: Seq<char>,
    pub distance: nat,
}

/// The repairs made while reconciling `raw`, in order.
pub open spec fn substitutions(raw: Entries, expected: Seq<Seq<char>>) -> Seq<FixView>
    decreases raw.len(),
{
    if raw.len() == 0 {
        Seq::<FixView>::empty()
    } else {
        let before = reconciled(raw.drop_last(), expected);
        let earlier = substitutions(raw.drop_last(), expected);
        let key = raw.last().0;
        if is_misspelling(before, key, expected) {
            let to = rename_target(before, key, expected);
            earlier.push(FixView { from: key, to, distance: edit_distance(key, to) })
        } else {
            earlier
        }
    }
}

/// One repaired name.
#[derive(Clone, Debug, PartialEq, Eq)]
pub struct FuzzyFix {
    /// The name as it was found.
    pub from: String,
    /// The expected name that replaced it.
    pub to: String,
    /// The edit distance between the two.
    pub distance: usize,
}

impl DeepView for FuzzyFix {
    type V = FixView;

    open spec fn deep_view(&self) -> FixView {
        FixView { from: self.from@, to: self.to@, distance: self.distance as nat }
    }
}

/// What reconciliation gives: the field map and the repairs made on the way.
#[derive(Clone, Debug)]
pub struct Reconciliation {
    pub fields: CardFields,
    pub fixes: Vec<FuzzyFix>,
}

/// At most one position is that of the closest expected name without a
/// value.
pub proof fn lemma_closest_unique(
    filled: Entries,
    key: Seq<char>,
    expected: Seq<Seq<char>>,
    i: int,
)
    requires
        is_closest_unfilled(filled, key, expected, i),
    ensures
        closest_unfilled(filled, key, expected) == Some(i),
{
    let c = choose|c: int| is_closest_unfilled(filled, key, expected, c);
    assert(is_unfilled(filled, expected, c));
    assert(is_unfilled(filled, expected, i));
}

/// The position of the closest expected name without a value among the
/// first `n` expected names.
spec fn closest_among(filled: Entries, key: Seq<char>, expected: Seq<Seq<char>>, n: int) -> Option<
    int,
>
    decreases n,
{
    if n <= 0 {
        None
    } else {
        let earlier = closest_among(filled, key, expected, n - 1);
        if !is_unfilled(filled, expected, n - 1) {
            earlier
        } else {
            match earlier {
                None => Some(n - 1),
                Some(b) => if edit_distance(key, expected[n - 1]) < edit_distance(
                    key,
                    expected[b],
                ) {
                    Some(n - 1)
                } else {
                    Some(b)
                },
            }
        }
    }
}

/// `closest_among` finds the closest expected name without a value among the
/// first `n`, and the first of those that are as close.
proof fn lemma_closest_among(filled: Entries, key: Seq<char>, expected: Seq<Seq<char>>, n: int)
    requires
        0 <= n <= expected.len(),
    ensures
        match closest_among(filled, key, expected, n) {
            None => forall|j: int| j < n ==> !is_unfilled(filled, expected, j),
            Some(b) => {
                &&& b < n
                &&& is_unfilled(filled, expected, b)
                &&& forall|j: int|
                    j < n && #[trigger] is_unfilled(filled, expected, j) ==> edit_distance(
                        key,
                        expected[b],
                    ) <= edit_distance(key, expected[j])
                &&& forall|j: int|
                    j < b && #[trigger] is_unfilled(filled, expected, j) ==> edit_distance(
                        key,
                        expected[b],
                    ) < edit_distance(key, expected[j])
            },
        },
    decreases n,
{
    if n > 0 {
        lemma_closest_among(filled, key, expected, n - 1);
    }
}

/// Where some expected name has no value, one of them is the closest; where
/// none has, there is no closest.
pub proof fn lemma_closest_exists(filled: Entries, key: Seq<char>, expected: Seq<Seq<char>>)
    ensures
        closest_unfilled(filled, key, expected) is Some <==> exists|j: int|
            is_unfilled(filled, expected, j),
        closest_unfilled(filled, key, expected) matches Some(i) ==> is_closest_unfilled(
            filled,
            key,
            expected,
            i,
        ),
{
    lemma_closest_among(filled, key, expected, expected.len() as int);
    match closest_among(filled, key, expected, expected.len() as int) {
        None => {
            assert forall|j: int| !is_unfilled(filled, expected, j) by {}
            assert forall|i: int| !is_closest_unfilled(filled, key, expected, i) by {
                assert(!is_unfilled(filled, expected, i));
            }
        },
        Some(b) => {
            assert(is_closest_unfilled(filled, key, expected, b));
            lemma_closest_unique(filled, key, expected, b);
        },
    }
}

/// The reconciled entries hold no name twice, whatever the input.
pub proof fn lemma_reconciled_distinct(raw: Entries, expected: Seq<Seq<char>>)
    ensures
        distinct_keys(reconciled(raw, expected)),
    decreases raw.len(),
{
    if raw.len() > 0 {
        lemma_reconciled_distinct(raw.drop_last(), expected);
        let before = reconciled(raw.drop_last(), expected);
        lemma_put(before, rename_target(before, raw.last().0, expected), raw.last().1);
    }
}

/// Reconciling one more entry stores its value under its target name.
pub proof fn lemma_reconciled_step(raw: Entries, expected: Seq<Seq<char>>, i: int)
    requires
        0 <= i < raw.len(),
    ensures
        reconciled(raw.take(i + 1), expected) == put(
            reconciled(raw.take(i), expected),
            rename_target(reconciled(raw.take(i), expected), raw[i].0, expected),
            raw[i].1,
        ),
{
    assert(raw.take(i + 1).drop_last() =~= raw.take(i));
    assert(raw.take(i + 1).last() == raw[i]);
}

/// A name that reconciliation has stored stays stored as further entries are
/// reconciled.
pub proof fn lemma_names_stay(raw: Entries, expected: Seq<Seq<char>>, i: int, name: Seq<char>)
    requires
        0 <= i <= raw.len(),
        has_key(reconciled(raw.take(i), expected), name),
    ensures
        has_key(reconciled(raw, expected), name),
    decreases raw.len() - i,
{
    if i == raw.len() {
        assert(raw.take(i) =~= raw);
    } else {
        lemma_reconciled_step(raw, expected, i);
        lemma_reconciled_distinct(raw.take(i), expected);
        let before = reconciled(raw.take(i), expected);
        lemma_put(before, rename_target(before, raw[i].0, expected), raw[i].1);
        lemma_names_stay(raw, expected, i + 1, name);
    }
}

/// Where every name of the input is an expected name, reconciliation gives
/// the input back unchanged.
pub proof fn lemma_exact_names_unchanged(raw: Entries, expected: Seq<Seq<char>>)
    requires
        distinct_keys(raw),
        forall|i: int| 0 <= i < raw.len() ==> expected.contains(#[trigger] raw[i].0),
    ensures
        reconciled(raw, expected) == raw,
        substitutions(raw, expected) == Seq::<FixView>::empty(),
    decreases raw.len(),
{
    if raw.len() == 0 {
        assert(raw =~= Seq::<(Seq<char>, Seq<char>)>::empty());
    } else {
        let init = raw.drop_last();
        let key = raw.last().0;
        assert forall|i: int| 0 <= i < init.len() implies expected.contains(
            #[trigger] init[i].0,
        ) by {
            assert(init[i] == raw[i]);
        }
        assert(distinct_keys(init)) by {
            assert forall|i: int, j: int| 0 <= i < j < init.len() implies init[i].0
                != init[j].0 by {
                assert(init[i] == raw[i] && init[j] == raw[j]);
            }
        }
        lemma_exact_names_unchanged(init, expected);
        assert(expected.contains(raw[raw.len() - 1].0));
        assert(!has_key(init, key)) by {
            if has_key(init, key) {
                let p = choose|p: int| key_at(init, key, p);
                assert(key_at(init, key, p));
                assert(raw[p].0 != raw[raw.len() - 1].0);
            }
        }
        assert(init.push((key, raw.last().1)) =~= raw);
    }
}

/// A name within `MAX_EDIT_DISTANCE` of one expected name without a value,
/// and of no other, is replaced by that expected name: the entry's value is
/// stored under it, and the name is among the names of the final result.
///
/// This does not hold of a name that is itself an expected name which has a
/// value already: such a name is kept and its value overwritten.
pub proof fn lemma_close_name_is_renamed(
    raw: Entries,
    expected: Seq<Seq<char>>,
    i: int,
    name: Seq<char>,
)
    requires
        0 <= i < raw.len(),
        expected.contains(raw[i].0) ==> !has_key(reconciled(raw.take(i), expected), raw[i].0),
        expected.contains(name),
        !has_key(reconciled(raw.take(i), expected), name),
        edit_distance(raw[i].0, name) <= MAX_EDIT_DISTANCE,
        forall|j: int| #[trigger]
            is_unfilled(reconciled(raw.take(i), expected), expected, j) && edit_distance(
                raw[i].0,
                expected[j],
            ) <= MAX_EDIT_DISTANCE ==> expected[j] == name,
    ensures
        rename_target(reconciled(raw.take(i), expected), raw[i].0, expected) == name,
        reconciled(raw.take(i + 1), expected) == put(
            reconciled(raw.take(i), expected),
            name,
            raw[i].1,
        ),
        lookup(reconciled(raw.take(i + 1), expected), name) == Some(raw[i].1),
        has_key(reconciled(raw, expected), name),
{
    let filled = reconciled(raw.take(i), expected);
    let key = raw[i].0;
    if expected.contains(key) {
        let at = choose|at: int| 0 <= at < expected.len() && expected[at] == key;
        assert(is_unfilled(filled, expected, at));
        lemma_distance_to_self(key);
    } else {
        let at = choose|at: int| 0 <= at < expected.len() && expected[at] == name;
        assert(is_unfilled(filled, expected, at));
        lemma_closest_exists(filled, key, expected);
        let c = closest_unfilled(filled, key, expected)->0;
        assert(is_closest_unfilled(filled, key, expected, c));
        assert(edit_distance(key, expected[c]) <= edit_distance(key, expected[at]));
        assert(is_unfilled(filled, expected, c));
    }
    lemma_reconciled_step(raw, expected, i);
    lemma_reconciled_distinct(raw.take(i), expected);
    lemma_put(filled, name, raw[i].1);
    lemma_names_stay(raw, expected, i + 1, name);
}

/// An entry that is stored under its own name keeps its value to the end:
/// among entries with distinct names no later entry is stored under that
/// name.
pub proof fn lemma_kept_name_keeps_value(raw: Entries, expected: Seq<Seq<char>>, i: int, upto: int)
    requires
        distinct_keys(raw),
        0 <= i < upto <= raw.len(),
        rename_target(reconciled(raw.take(i), expected), raw[i].0, expected) == raw[i].0,
    ensures
        lookup(reconciled(raw.take(upto), expected), raw[i].0) == Some(raw[i].1),
    decreases upto - i,
{
    let key = raw[i].0;
    let before = reconciled(raw.take(upto - 1), expected);
    lemma_reconciled_step(raw, expected, upto - 1);
    lemma_reconciled_distinct(raw.take(upto - 1), expected);
    let target = rename_target(before, raw[upto - 1].0, expected);
    lemma_put(before, target, raw[upto - 1].1);
    if upto - 1 > i {
        lemma_kept_name_keeps_value(raw, expected, i, upto - 1);
        assert(has_key(before, key));
        if is_misspelling(before, raw[upto - 1].0, expected) {
            lemma_closest_exists(before, raw[upto - 1].0, expected);
            let c = closest_unfilled(before, raw[upto - 1].0, expected)->0;
            assert(is_unfilled(before, expected, c));
        }
        assert(target != key);
    }
}

/// A name that is further than `MAX_EDIT_DISTANCE` from every expected name
/// without a value is kept: the entry's value is stored under its own name,
/// and is found there in the final result.
pub proof fn lemma_distant_name_is_kept(raw: Entries, expected: Seq<Seq<char>>, i: int)
    requires
        distinct_keys(raw),
        0 <= i < raw.len(),
        forall|j: int| #[trigger]
            is_unfilled(reconciled(raw.take(i), expected), expected, j) ==> edit_distance(
                raw[i].0,
                expected[j],
            ) > MAX_EDIT_DISTANCE,
    ensures
        rename_target(reconciled(raw.take(i), expected), raw[i].0, expected) == raw[i].0,
        reconciled(raw.take(i + 1), expected) == put(
            reconciled(raw.take(i), expected),
            raw[i].0,
            raw[i].1,
        ),
        lookup(reconciled(raw, expected), raw[i].0) == Some(raw[i].1),
{
    let filled = reconciled(raw.take(i), expected);
    let key = raw[i].0;
    lemma_closest_exists(filled, key, expected);
    if closest_unfilled(filled, key, expected) is Some {
        let c = closest_unfilled(filled, key, expected)->0;
        assert(is_unfilled(filled, expected, c));
    }
    lemma_reconciled_step(raw, expected, i);
    lemma_kept_name_keeps_value(raw, expected, i, raw.len() as int);
    assert(raw.take(raw.len() as int) =~= raw);
}

/// The closest expected name that has no value in `filled`, as its position
/// in `expected` with its distance from `key`.
pub fn find_closest_unfilled(filled: &CardFields, key: &str, expected: &[String]) -> (best: Option<
    (usize, usize),
>)
    ensures
        match best {
            Some((i, d)) => closest_unfilled(filled.entries(), key@, expected.deep_view()) == Some(
                i as int,
            ) && d == edit_distance(key@, expected.deep_view()[i as int]),
            None => closest_unfilled(filled.entries(), key@, expected.deep_view()) is None,
        },
{
    let ghost names = expected.deep_view();
    let ghost had = filled.entries();
    let mut best: Option<(usize, usize)> = None;
    let mut n: usize = 0;
    while n < expected.len()
        invariant
            n <= expected.len(),
            names == expected.deep_view(),
            had == filled.entries(),
            match best {
                None => forall|j: int| j < n ==> !is_unfilled(had, names, j),
                Some((b, d)) => {
                    &&& b < n
                    &&& d == edit_distance(key@, names[b as int])
                    &&& is_unfilled(had, names, b as int)
                    &&& forall|j: int|
                        j < n && #[trigger] is_unfilled(had, names, j) ==> d <= edit_distance(
                            key@,
                            names[j],
                        )
                    &&& forall|j: int|
                        j < b && #[trigger] is_unfilled(had, names, j) ==> d < edit_distance(
                            key@,
                            names[j],
                        )
                },
            },
        decreases expected.len() - n,
    {
        assert(names[n as int] == expected[n as int]@);
        if !filled.contains_key(expected[n].as_str()) {
            let d: usize = levenshtein(key, expected[n].as_str());
            match best {
                None => {
                    best = Some((n, d));
                },
                Some((_, least)) => {
                    if d < least {
                        best = Some((n, d));
                    }
                },
            }
        }
        n = n + 1;
    }
    proof {
        match best {
            None => {
                lemma_closest_exists(had, key@, names);
            },
            Some((b, d)) => {
                assert(is_closest_unfilled(had, key@, names, b as int));
                lemma_closest_unique(had, key@, names, b as int);
            },
        }
    }
    best
}

/// Reconciles the names of `fields` with the `expected` names and reports
/// the repairs made.
pub fn fix_field_names(fields: CardFields, expected: &[String]) -> (out: Reconciliation)
    ensures
        out.fields.entries() == reconciled(fields.entries(), expected.deep_view()),
        out.fixes.deep_view() == substitutions(fields.entries(), expected.deep_view()),
{
    let ghost raw = fields.entries();
    let ghost names = expected.deep_view();
    let mut result = CardFields::new();
    let mut fixes: Vec<FuzzyFix> = Vec::new();
    assert(fixes.deep_view() =~= Seq::<FixView>::empty());
    let total: usize = fields.len();
    let mut i: usize = 0;
    while i < total
        invariant
            i <= total,
            total == raw.len(),
            raw == fields.entries(),
            names == expected.deep_view(),
            result.entries() == reconciled(raw.take(i as int), names),
            fixes.deep_view() == substitutions(raw.take(i as int), names),
        decreases total - i,
    {
        proof {
            assert(raw.take(i + 1).drop_last() =~= raw.take(i as int));
            assert(raw.take(i + 1).last() == raw[i as int]);
        }
        let ghost earlier = fixes.deep_view();
        let key = fields.name(i);
        let value = fields.value(i).clone();
        if contains_name(expected, key.as_str()) {
            result.insert(key.clone(), value);
        } else {
            match find_closest_unfilled(&result, key.as_str(), expected) {
                Some((at, distance)) => {
                    if distance <= MAX_EDIT_DISTANCE {
                        let to = expected[at].clone();
                        assert(to@ == names[at as int]);
                        fixes.push(FuzzyFix { from: key.clone(), to: to.clone(), distance });
                        assert(fixes.deep_view() =~= earlier.push(
                            FixView { from: key@, to: to@, distance: distance as nat },
                        ));
                        result.insert(to, value);
                    } else {
                        result.insert(key.clone(), value);
                    }
                },
                None => {
                    result.insert(key.clone(), value);
                },
            }
        }
        i = i + 1;
    }
    assert(raw.take(total as int) =~= raw);
    Reconciliation { fields: result, fixes }
}

} // verus!
