//! Text helpers over character sequences: white space, trimming, splitting
//! and joining.

use vstd::prelude::*;

verus! {

/// Whether `c` is Unicode white space.
pub uninterp spec fn is_whitespace(c: char) -> bool;

/// Calls `char::is_whitespace`, which tells whether a character has the
/// Unicode property `White_Space`; the contract gives that answer the name
/// `is_whitespace`.
#[verifier::external_body]
pub(crate) fn char_is_whitespace(c: char) -> (b: bool)
    ensures
        b == is_whitespace(c),
{
    c.is_whitespace()
}

/// `String::push` appends one character to the end of the string.
pub assume_specification[ String::push ](s: &mut String, c: char)
    ensures
        final(s)@ == old(s)@.push(c),
;

/// Whether every character of `s` is white space. The empty text is blank.
pub open spec fn is_blank(s: Seq<char>) -> bool {
    forall|i: int| 0 <= i < s.len() ==> is_whitespace(#[trigger] s[i])
}

/// `s` without its leading white space.
pub open spec fn trim_start(s: Seq<char>) -> Seq<char>
    decreases s.len(),
{
    if s.len() > 0 && is_whitespace(s.first()) {
        trim_start(s.drop_first())
    } else {
        s
    }
}

/// `s` without its trailing white space.
pub open spec fn trim_end(s: Seq<char>) -> Seq<char>
    decreases s.len(),
{
    if s.len() > 0 && is_whitespace(s.last()) {
        trim_end(s.drop_last())
    } else {
        s
    }
}

/// `s` without leading and trailing white space.
pub open spec fn trimmed(s: Seq<char>) -> Seq<char> {
    trim_end(trim_start(s))
}

/// The pieces of `s` between occurrences of `sep`. There is always at least
/// one piece; a separator at either end gives an empty piece there.
pub open spec fn split_on(s: Seq<char>, sep: char) -> Seq<Seq<char>>
    decreases s.len(),
{
    if s.len() == 0 {
        seq![Seq::<char>::empty()]
    } else {
        let before = split_on(s.drop_last(), sep);
        if s.last() == sep {
            before.push(Seq::<char>::empty())
        } else {
            before.drop_last().push(before.last().push(s.last()))
        }
    }
}

/// The items one after the other with `sep` between neighbours.
pub open spec fn joined(items: Seq<Seq<char>>, sep: Seq<char>) -> Seq<char>
    decreases items.len(),
{
    if items.len() == 0 {
        Seq::<char>::empty()
    } else if items.len() == 1 {
        items[0]
    } else {
        joined(items.drop_last(), sep) + sep + items.last()
    }
}

/// The trimmed form of each item that is not blank, in order.
pub open spec fn trimmed_nonblank(items: Seq<Seq<char>>) -> Seq<Seq<char>>
    decreases items.len(),
{
    if items.len() == 0 {
        Seq::<Seq<char>>::empty()
    } else {
        let before = trimmed_nonblank(items.drop_last());
        if is_blank(items.last()) {
            before
        } else {
            before.push(trimmed(items.last()))
        }
    }
}

/// The items that are not blank, in order and as they are.
pub open spec fn without_blank(items: Seq<Seq<char>>) -> Seq<Seq<char>>
    decreases items.len(),
{
    if items.len() == 0 {
        Seq::<Seq<char>>::empty()
    } else {
        let before = without_blank(items.drop_last());
        if is_blank(items.last()) {
            before
        } else {
            before.push(items.last())
        }
    }
}

/// The text after a leading `first`, where `s` begins with it.
pub open spec fn after_prefix(s: Seq<char>, first: char) -> Option<Seq<char>> {
    if s.len() > 0 && s.first() == first {
        Some(s.drop_first())
    } else {
        None
    }
}

/// A text always splits into at least one piece.
pub proof fn lemma_split_has_piece(s: Seq<char>, sep: char)
    ensures
        split_on(s, sep).len() >= 1,
    decreases s.len(),
{
    if s.len() > 0 {
        lemma_split_has_piece(s.drop_last(), sep);
    }
}

/// Leading white space up to position `a` is all that `trim_start` removes.
pub proof fn lemma_trim_start_skips(s: Seq<char>, a: int)
    requires
        0 <= a <= s.len(),
        forall|j: int| 0 <= j < a ==> is_whitespace(#[trigger] s[j]),
        a < s.len() ==> !is_whitespace(s[a]),
    ensures
        trim_start(s) == s.skip(a),
    decreases a,
{
    if a == 0 {
        assert(s.skip(0) =~= s);
    } else {
        let rest = s.drop_first();
        assert forall|j: int| 0 <= j < a - 1 implies is_whitespace(#[trigger] rest[j]) by {
            assert(rest[j] == s[j + 1]);
        }
        lemma_trim_start_skips(rest, a - 1);
        assert(rest.skip(a - 1) =~= s.skip(a));
    }
}

/// Trailing white space from position `e` on is all that `trim_end` removes.
pub proof fn lemma_trim_end_takes(s: Seq<char>, e: int)
    requires
        0 <= e <= s.len(),
        forall|j: int| e <= j < s.len() ==> is_whitespace(#[trigger] s[j]),
        e > 0 ==> !is_whitespace(s[e - 1]),
    ensures
        trim_end(s) == s.take(e),
    decreases s.len() - e,
{
    if e == s.len() {
        assert(s.take(e) =~= s);
    } else {
        let rest = s.drop_last();
        lemma_trim_end_takes(rest, e);
        assert(rest.take(e) =~= s.take(e));
    }
}

/// A text is blank exactly when trimming leaves nothing of it.
pub proof fn lemma_blank_iff_trimmed_empty(s: Seq<char>)
    ensures
        is_blank(s) <==> trimmed(s).len() == 0,
{
    if is_blank(s) {
        lemma_trim_start_skips(s, s.len() as int);
        assert(s.skip(s.len() as int) =~= Seq::<char>::empty());
    } else {
        lemma_trim_start_of_nonblank(s);
        lemma_trim_end_of_nonblank(trim_start(s));
    }
}

/// Trimming the start of a text that is not blank leaves a text that begins
/// with a character that is not white space.
proof fn lemma_trim_start_of_nonblank(s: Seq<char>)
    requires
        !is_blank(s),
    ensures
        trim_start(s).len() > 0,
        !is_whitespace(trim_start(s).first()),
    decreases s.len(),
{
    let at = choose|i: int| 0 <= i < s.len() && !is_whitespace(#[trigger] s[i]);
    if is_whitespace(s.first()) {
        let rest = s.drop_first();
        assert(rest[at - 1] == s[at]);
        lemma_trim_start_of_nonblank(rest);
    }
}

/// Trimming the end of a text that begins with a character that is not
/// white space leaves that character in place.
proof fn lemma_trim_end_of_nonblank(s: Seq<char>)
    requires
        s.len() > 0,
        !is_whitespace(s.first()),
    ensures
        trim_end(s).len() > 0,
    decreases s.len(),
{
    if is_whitespace(s.last()) {
        let rest = s.drop_last();
        assert(rest.first() == s.first());
        lemma_trim_end_of_nonblank(rest);
    }
}

/// The text between the first and the last character that is not white
/// space is what trimming leaves.
pub proof fn lemma_trimmed_is_span(s: Seq<char>, a: int, e: int)
    requires
        0 <= a < e <= s.len(),
        forall|j: int| 0 <= j < a ==> is_whitespace(#[trigger] s[j]),
        forall|j: int| e <= j < s.len() ==> is_whitespace(#[trigger] s[j]),
        !is_whitespace(s[a]),
        !is_whitespace(s[e - 1]),
    ensures
        trimmed(s) == s.subrange(a, e),
{
    lemma_trim_start_skips(s, a);
    let rest = s.skip(a);
    assert forall|j: int| e - a <= j < rest.len() implies is_whitespace(#[trigger] rest[j]) by {
        assert(rest[j] == s[j + a]);
    }
    assert(rest[e - a - 1] == s[e - 1]);
    lemma_trim_end_takes(rest, e - a);
    assert(rest.take(e - a) =~= s.subrange(a, e));
}

/// Whether `s` consists of white space only.
pub fn blank(s: &str) -> (b: bool)
    ensures
        b == is_blank(s@),
{
    let mut all: bool = true;
    for c in it: s.chars()
        invariant
            it.seq() == s@,
            all == is_blank(s@.take(it.index())),
    {
        let ghost k = it.index();
        proof {
            lemma_blank_step(s@, k);
        }
        all = all && char_is_whitespace(c);
    }
    assert(s@.take(s@.len() as int) =~= s@);
    all
}

/// The first `k + 1` characters are blank exactly when the first `k` are and
/// the next one is white space.
proof fn lemma_blank_step(s: Seq<char>, k: int)
    requires
        0 <= k < s.len(),
    ensures
        is_blank(s.take(k + 1)) == (is_blank(s.take(k)) && is_whitespace(s[k])),
{
    let longer = s.take(k + 1);
    let shorter = s.take(k);
    if is_blank(shorter) && is_whitespace(s[k]) {
        assert forall|i: int| 0 <= i < longer.len() implies is_whitespace(#[trigger] longer[i]) by {
            if i < k {
                assert(shorter[i] == longer[i]);
            }
        }
    } else if is_blank(longer) {
        assert(is_whitespace(longer[k]));
        assert forall|i: int| 0 <= i < shorter.len() implies is_whitespace(#[trigger] shorter[i]) by {
            assert(shorter[i] == longer[i]);
        }
    }
}

/// A copy of `s` without leading and trailing white space.
pub fn trim(s: &str) -> (t: String)
    ensures
        t@ == trimmed(s@),
{
    let n: usize = s.unicode_len();
    let mut first: usize = n;
    let mut end: usize = 0;
    let mut i: usize = 0;
    for c in it: s.chars()
        invariant
            it.seq() == s@,
            n == s@.len(),
            i == it.index(),
            end <= i,
            forall|j: int| end <= j < i ==> is_whitespace(#[trigger] s@[j]),
            end > 0 ==> !is_whitespace(s@[end - 1]),
            end == 0 ==> first == n,
            end > 0 ==> first < end && !is_whitespace(s@[first as int]),
            forall|j: int| 0 <= j < first && j < i ==> is_whitespace(#[trigger] s@[j]),
    {
        if !char_is_whitespace(c) {
            if end == 0 {
                first = i;
            }
            end = i + 1;
        }
        i = i + 1;
    }
    if end == 0 {
        proof {
            lemma_blank_iff_trimmed_empty(s@);
            assert(trimmed(s@) =~= Seq::<char>::empty());
        }
        String::new()
    } else {
        proof {
            lemma_trimmed_is_span(s@, first as int, end as int);
        }
        String::from_str(s.substring_char(first, end))
    }
}

/// The pieces of `s` between occurrences of `sep`.
pub fn split(s: &str, sep: char) -> (pieces: Vec<String>)
    ensures
        pieces.deep_view() == split_on(s@, sep),
{
    let mut pieces: Vec<String> = Vec::new();
    let mut current = String::new();
    for c in it: s.chars()
        invariant
            it.seq() == s@,
            pieces.deep_view().push(current@) == split_on(s@.take(it.index()), sep),
    {
        let ghost k = it.index();
        let ghost before = pieces.deep_view().push(current@);
        assert(s@.take(k + 1).drop_last() =~= s@.take(k));
        if c == sep {
            pieces.push(current);
            current = String::new();
            assert(pieces.deep_view() =~= before);
        } else {
            current.push(c);
            assert(pieces.deep_view().push(current@) =~= before.drop_last().push(
                before.last().push(c),
            ));
        }
    }
    assert(s@.take(s@.len() as int) =~= s@);
    let ghost all = pieces.deep_view().push(current@);
    pieces.push(current);
    assert(pieces.deep_view() =~= all);
    pieces
}

/// The items one after the other with `sep` between neighbours.
pub fn join(items: &[String], sep: &str) -> (r: String)
    ensures
        r@ == joined(items.deep_view(), sep@),
{
    let mut out = String::new();
    let mut i: usize = 0;
    while i < items.len()
        invariant
            i <= items.len(),
            out@ == joined(items.deep_view().take(i as int), sep@),
        decreases items.len() - i,
    {
        let ghost upto = items.deep_view().take(i + 1);
        assert(upto.drop_last() =~= items.deep_view().take(i as int));
        assert(upto.last() == items[i as int]@);
        if i > 0 {
            out.append(sep);
        }
        out.append(items[i].as_str());
        assert(out@ =~= joined(upto, sep@));
        i = i + 1;
    }
    assert(items.deep_view().take(items.len() as int) =~= items.deep_view());
    out
}

/// The trimmed form of each item that is not blank, in order.
pub fn trim_nonblank(items: &[String]) -> (kept: Vec<String>)
    ensures
        kept.deep_view() == trimmed_nonblank(items.deep_view()),
{
    let mut kept: Vec<String> = Vec::new();
    let mut i: usize = 0;
    while i < items.len()
        invariant
            i <= items.len(),
            kept.deep_view() == trimmed_nonblank(items.deep_view().take(i as int)),
        decreases items.len() - i,
    {
        let ghost upto = items.deep_view().take(i + 1);
        let ghost before = kept.deep_view();
        assert(upto.drop_last() =~= items.deep_view().take(i as int));
        assert(upto.last() == items[i as int]@);
        let t = trim(items[i].as_str());
        proof {
            lemma_blank_iff_trimmed_empty(items[i as int]@);
        }
        if !t.as_str().is_empty() {
            kept.push(t);
            assert(kept.deep_view() =~= before.push(trimmed(upto.last())));
        }
        i = i + 1;
    }
    assert(items.deep_view().take(items.len() as int) =~= items.deep_view());
    kept
}

/// Whether `s` begins with `prefix`.
pub fn starts_with(s: &str, prefix: &str) -> (b: bool)
    ensures
        b == prefix@.is_prefix_of(s@),
{
    let n: usize = s.unicode_len();
    let m: usize = prefix.unicode_len();
    if m > n {
        false
    } else {
        let head = String::from_str(s.substring_char(0, m));
        let want = String::from_str(prefix);
        head == want
    }
}

/// Whether `name` is one of `names`.
pub fn contains_name(names: &[String], name: &str) -> (b: bool)
    ensures
        b == names.deep_view().contains(name@),
{
    let wanted = String::from_str(name);
    let mut i: usize = 0;
    while i < names.len()
        invariant
            i <= names.len(),
            wanted@ == name@,
            forall|j: int| 0 <= j < i ==> names.deep_view()[j] != name@,
        decreases names.len() - i,
    {
        if names[i] == wanted {
            assert(names.deep_view()[i as int] == name@);
            return true;
        }
        i = i + 1;
    }
    false
}

/// The items that are not blank, in order and as they are.
pub fn drop_blank(items: &[String]) -> (kept: Vec<String>)
    ensures
        kept.deep_view() == without_blank(items.deep_view()),
{
    let mut kept: Vec<String> = Vec::new();
    let mut i: usize = 0;
    while i < items.len()
        invariant
            i <= items.len(),
            kept.deep_view() == without_blank(items.deep_view().take(i as int)),
        decreases items.len() - i,
    {
        let ghost upto = items.deep_view().take(i + 1);
        let ghost before = kept.deep_view();
        assert(upto.drop_last() =~= items.deep_view().take(i as int));
        assert(upto.last() == items[i as int]@);
        if !blank(items[i].as_str()) {
            kept.push(items[i].clone());
            assert(kept.deep_view() =~= before.push(upto.last()));
        }
        i = i + 1;
    }
    assert(items.deep_view().take(items.len() as int) =~= items.deep_view());
    kept
}

/// The text after a leading `first`, where `s` begins with it.
pub fn strip_prefix(s: &str, first: char) -> (rest: Option<String>)
    ensures
        match rest {
            Some(r) => after_prefix(s@, first) == Some(r@),
            None => after_prefix(s@, first) is None,
        },
{
    let n: usize = s.unicode_len();
    if n > 0 && s.get_char(0) == first {
        let rest = String::from_str(s.substring_char(1, n));
        assert(rest@ =~= s@.drop_first());
        Some(rest)
    } else {
        None
    }
}

} // verus!
