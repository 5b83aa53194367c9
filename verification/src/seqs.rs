//! Mathematical functions on character sequences, in which the contracts of
//! this crate are stated.

use vstd::prelude::*;

verus! {

/// The least index at which `c` stands in `s`, or the length of `s` where
/// `c` stands nowhere in it.
pub open spec fn first_index(s: Seq<char>, c: char) -> int
    decreases s.len(),
{
    if s.len() == 0 || s[0] == c {
        0
    } else {
        1 + first_index(s.skip(1), c)
    }
}

/// The part of `s` in front of the first `c`; the whole of `s` where there
/// is no `c`.
pub open spec fn before(s: Seq<char>, c: char) -> Seq<char> {
    s.take(first_index(s, c))
}

/// The part of `s` behind the first `c`, if there is a `c`.
pub open spec fn after(s: Seq<char>, c: char) -> Option<Seq<char>> {
    if first_index(s, c) < s.len() {
        Some(s.skip(first_index(s, c) + 1))
    } else {
        None
    }
}

/// `s` with every `from` turned into `to`.
pub open spec fn swap_char(s: Seq<char>, from: char, to: char) -> Seq<char> {
    Seq::new(
        s.len(),
        |i: int|
            if s[i] == from {
                to
            } else {
                s[i]
            },
    )
}

/// `s` without the occurrences of `pat`, found from left to right, none
/// overlapping an earlier one. An empty `pat` removes nothing.
pub open spec fn without(s: Seq<char>, pat: Seq<char>) -> Seq<char>
    decreases s.len(),
{
    if pat.len() == 0 || s.len() < pat.len() {
        s
    } else if pat.is_prefix_of(s) {
        without(s.skip(pat.len() as int), pat)
    } else {
        seq![s[0]] + without(s.skip(1), pat)
    }
}

/// `s` without the character `c`.
pub open spec fn without_char(s: Seq<char>, c: char) -> Seq<char>
    decreases s.len(),
{
    if s.len() == 0 {
        s
    } else if s.last() == c {
        without_char(s.drop_last(), c)
    } else {
        without_char(s.drop_last(), c).push(s.last())
    }
}

/// Whether `s` is wrapped in one pair of square brackets.
pub open spec fn is_bracketed(s: Seq<char>) -> bool {
    s.len() >= 2 && s[0] == '[' && s[s.len() - 1] == ']'
}

/// `s` without one layer of square brackets, where it is wrapped in one.
pub open spec fn unbracketed(s: Seq<char>) -> Seq<char> {
    if is_bracketed(s) {
        s.subrange(1, s.len() - 1)
    } else {
        s
    }
}

/// The number of times `c` stands at the front of `s` without a break.
pub open spec fn leading(s: Seq<char>, c: char) -> int
    decreases s.len(),
{
    if s.len() > 0 && s[0] == c {
        1 + leading(s.skip(1), c)
    } else {
        0
    }
}

/// `s` without the run of `c` at its front.
pub open spec fn trimmed_start(s: Seq<char>, c: char) -> Seq<char> {
    s.skip(leading(s, c))
}

/// The greatest index `i` at which `a` stands in `s` with `b` right behind
/// it, or -1 where the pair stands nowhere in `s`.
pub open spec fn last_pair(s: Seq<char>, a: char, b: char) -> int
    decreases s.len(),
{
    if s.len() < 2 {
        -1
    } else if s[s.len() - 2] == a && s[s.len() - 1] == b {
        s.len() - 2
    } else {
        last_pair(s.drop_last(), a, b)
    }
}

/// The pieces `parts` in a row, with `sep` between each two neighbours.
pub open spec fn joined(parts: Seq<Seq<char>>, sep: Seq<char>) -> Seq<char>
    decreases parts.len(),
{
    if parts.len() == 0 {
        Seq::empty()
    } else if parts.len() == 1 {
        parts[0]
    } else {
        joined(parts.drop_last(), sep) + sep + parts.last()
    }
}

/// What the strings of `v` hold, one sequence for each.
pub open spec fn views(v: Seq<String>) -> Seq<Seq<char>> {
    Seq::new(v.len(), |i: int| v[i]@)
}

/// `first_index` is within the sequence's bounds, nothing in front of it is
/// `c`, and where it is an index, `c` stands there.
pub proof fn lemma_first_index(s: Seq<char>, c: char)
    ensures
        0 <= first_index(s, c) <= s.len(),
        forall|j: int| 0 <= j < first_index(s, c) ==> s[j] != c,
        first_index(s, c) < s.len() ==> s[first_index(s, c)] == c,
    decreases s.len(),
{
    if s.len() == 0 || s[0] == c {
    } else {
        let t = s.skip(1);
        lemma_first_index(t, c);
        assert forall|j: int| 0 <= j < first_index(s, c) implies s[j] != c by {
            if j > 0 {
                assert(t[j - 1] == s[j]);
            }
        }
        if first_index(s, c) < s.len() {
            assert(t[first_index(t, c)] == s[first_index(t, c) + 1]);
        }
    }
}

/// An index with no `c` in front of it, which holds `c` or is the length of
/// `s`, is `first_index`.
pub proof fn lemma_first_index_is(s: Seq<char>, c: char, i: int)
    requires
        0 <= i <= s.len(),
        forall|j: int| 0 <= j < i ==> s[j] != c,
        i < s.len() ==> s[i] == c,
    ensures
        first_index(s, c) == i,
{
    lemma_first_index(s, c);
    let k: int = first_index(s, c);
    if k < i {
        assert(s[k] == c);
    } else if i < k {
        assert(s[i] == c);
    }
}

/// `leading` is within bounds, all in front of it is `c`, and what stands at
/// it is not.
pub proof fn lemma_leading(s: Seq<char>, c: char)
    ensures
        0 <= leading(s, c) <= s.len(),
        forall|j: int| 0 <= j < leading(s, c) ==> s[j] == c,
        leading(s, c) < s.len() ==> s[leading(s, c)] != c,
    decreases s.len(),
{
    if s.len() > 0 && s[0] == c {
        let t = s.skip(1);
        lemma_leading(t, c);
        assert forall|j: int| 0 <= j < leading(s, c) implies s[j] == c by {
            if j > 0 {
                assert(t[j - 1] == s[j]);
            }
        }
        if leading(s, c) < s.len() {
            assert(t[leading(t, c)] == s[leading(t, c) + 1]);
        }
    }
}

/// An index with only `c` in front of it, which holds another character or
/// is the length of `s`, is `leading`.
pub proof fn lemma_leading_is(s: Seq<char>, c: char, i: int)
    requires
        0 <= i <= s.len(),
        forall|j: int| 0 <= j < i ==> s[j] == c,
        i < s.len() ==> s[i] != c,
    ensures
        leading(s, c) == i,
{
    lemma_leading(s, c);
    let k: int = leading(s, c);
    if k < i {
        assert(s[k] == c);
    } else if i < k {
        assert(s[i] == c);
    }
}

/// `last_pair` is -1 or the index of a pair, and no pair stands behind it.
pub proof fn lemma_last_pair(s: Seq<char>, a: char, b: char)
    ensures
        last_pair(s, a, b) == -1 || 0 <= last_pair(s, a, b) <= s.len() - 2,
        last_pair(s, a, b) >= 0 ==> s[last_pair(s, a, b)] == a && s[last_pair(s, a, b) + 1] == b,
        forall|j: int|
            last_pair(s, a, b) < j && j + 1 < s.len() ==> !(s[j] == a && #[trigger] s[j + 1] == b),
    decreases s.len(),
{
    if s.len() < 2 {
    } else if s[s.len() - 2] == a && s[s.len() - 1] == b {
    } else {
        let t = s.drop_last();
        lemma_last_pair(t, a, b);
        assert forall|j: int| last_pair(s, a, b) < j && j + 1 < s.len() implies !(s[j] == a
            && #[trigger] s[j + 1] == b) by {
            if j + 1 < t.len() {
                assert(t[j] == s[j]);
                assert(t[j + 1] == s[j + 1]);
            }
        }
    }
}

/// An index of a pair with no pair behind it is `last_pair`; so is -1 where
/// there is no pair at all.
pub proof fn lemma_last_pair_is(s: Seq<char>, a: char, b: char, i: int)
    requires
        i == -1 || 0 <= i <= s.len() - 2,
        i >= 0 ==> s[i] == a && s[i + 1] == b,
        forall|j: int| i < j && j + 1 < s.len() ==> !(s[j] == a && #[trigger] s[j + 1] == b),
    ensures
        last_pair(s, a, b) == i,
{
    lemma_last_pair(s, a, b);
    let k: int = last_pair(s, a, b);
    if k < i {
        assert(s[i] == a && s[i + 1] == b);
    } else if i < k {
        assert(s[k] == a && s[k + 1] == b);
    }
}

/// What the first `i + 1` items of `s` hold: the item at `i`, and what the
/// first `i` hold.
pub proof fn lemma_take_contains<A>(s: Seq<A>, i: int, k: A)
    requires
        0 <= i < s.len(),
    ensures
        s.take(i + 1).contains(k) <==> (k == s[i] || s.take(i).contains(k)),
{
    let short = s.take(i);
    let long = s.take(i + 1);
    if short.contains(k) {
        let j = choose|j: int| 0 <= j < short.len() && short[j] == k;
        assert(long[j] == k);
    }
    if k == s[i] {
        assert(long[i] == k);
    }
    if long.contains(k) {
        let j = choose|j: int| 0 <= j < long.len() && long[j] == k;
        if j < i {
            assert(short[j] == k);
        }
    }
}

/// A text that is cut at a `c` with no `c` in front of it falls into what
/// stands in front of that `c` and what stands behind it.
pub proof fn lemma_cut(x: Seq<char>, c: char, y: Seq<char>)
    requires
        !x.contains(c),
    ensures
        before(x + seq![c] + y, c) == x,
        after(x + seq![c] + y, c) == Some(y),
{
    let s = x + seq![c] + y;
    assert forall|j: int| 0 <= j < x.len() implies s[j] != c by {
        assert(s[j] == x[j]);
    }
    assert(s[x.len() as int] == c);
    lemma_first_index_is(s, c, x.len() as int);
    assert(s.take(x.len() as int) =~= x);
    assert(s.skip(x.len() as int + 1) =~= y);
}

/// A text without a `c` is not cut at `c`.
pub proof fn lemma_uncut(x: Seq<char>, c: char)
    requires
        !x.contains(c),
    ensures
        before(x, c) == x,
        after(x, c) is None,
{
    lemma_first_index_is(x, c, x.len() as int);
    assert(x.take(x.len() as int) =~= x);
}

/// Two texts in a row hold a character where one of them holds it.
pub proof fn lemma_concat_contains(x: Seq<char>, y: Seq<char>, c: char)
    ensures
        (x + y).contains(c) <==> x.contains(c) || y.contains(c),
{
    let s = x + y;
    if x.contains(c) {
        let j = choose|j: int| 0 <= j < x.len() && x[j] == c;
        assert(s[j] == c);
    }
    if y.contains(c) {
        let j = choose|j: int| 0 <= j < y.len() && y[j] == c;
        assert(s[x.len() + j] == c);
    }
    if s.contains(c) {
        let j = choose|j: int| 0 <= j < s.len() && s[j] == c;
        if j < x.len() {
            assert(x[j] == c);
        } else {
            assert(y[j - x.len()] == c);
        }
    }
}

} // verus!
