//! Executable text handling. A text is worked on as a vector of its
//! characters; each function here computes one function of `seqs`.

use crate::seqs;
use vstd::prelude::*;

verus! {

/// `String::push` of std appends one character to the end of the string.
pub assume_specification[ String::push ](s: &mut String, c: char)
    ensures
        final(s)@ == old(s)@.push(c),
;

/// The characters of `s`, in order.
pub fn chars_of(s: &str) -> (v: Vec<char>)
    ensures
        v@ == s@,
{
    let mut v: Vec<char> = Vec::new();
    let it = s.chars();
    for c in iter: it
        invariant
            v@ == iter.seq().take(iter.index() as int),
            iter.seq() == s@,
    {
        v.push(c);
    }
    v
}

/// The string that holds the characters `v`, in order.
pub fn string_of(v: &Vec<char>) -> (s: String)
    ensures
        s@ == v@,
{
    let mut s = String::new();
    let mut i: usize = 0;
    while i < v.len()
        invariant
            i <= v.len(),
            s@ == v@.take(i as int),
        decreases v.len() - i,
    {
        s.push(v[i]);
        i = i + 1;
    }
    s
}

/// Whether `a` and `b` hold the same characters.
pub fn same(a: &Vec<char>, b: &Vec<char>) -> (r: bool)
    ensures
        r == (a@ == b@),
{
    if a.len() != b.len() {
        return false;
    }
    let mut i: usize = 0;
    while i < a.len()
        invariant
            i <= a.len(),
            a.len() == b.len(),
            a@.take(i as int) == b@.take(i as int),
        decreases a.len() - i,
    {
        if a[i] != b[i] {
            return false;
        }
        assert(a@.take(i + 1) == a@.take(i as int).push(a@[i as int]));
        assert(b@.take(i + 1) == b@.take(i as int).push(b@[i as int]));
        i = i + 1;
    }
    assert(a@.take(a@.len() as int) == a@);
    assert(b@.take(b@.len() as int) == b@);
    true
}

/// Whether the strings `a` and `b` hold the same characters.
pub fn str_eq(a: &str, b: &str) -> (r: bool)
    ensures
        r == (a@ == b@),
{
    let x = chars_of(a);
    let y = chars_of(b);
    same(&x, &y)
}

/// A copy of the characters of `v` from index `from` up to, not including,
/// index `to`.
pub fn slice(v: &Vec<char>, from: usize, to: usize) -> (r: Vec<char>)
    requires
        from <= to <= v.len(),
    ensures
        r@ == v@.subrange(from as int, to as int),
{
    let mut r: Vec<char> = Vec::new();
    let mut i: usize = from;
    while i < to
        invariant
            from <= i <= to <= v.len(),
            r@ == v@.subrange(from as int, i as int),
        decreases to - i,
    {
        r.push(v[i]);
        i = i + 1;
    }
    r
}

/// Appends the characters of `src` to `dst`.
pub fn push_all(dst: &mut Vec<char>, src: &Vec<char>)
    ensures
        final(dst)@ == old(dst)@ + src@,
{
    let mut i: usize = 0;
    while i < src.len()
        invariant
            i <= src.len(),
            dst@ == old(dst)@ + src@.take(i as int),
        decreases src.len() - i,
    {
        dst.push(src[i]);
        i = i + 1;
    }
}

/// Appends the characters of the string `src` to `dst`.
pub fn push_str(dst: &mut Vec<char>, src: &str)
    ensures
        final(dst)@ == old(dst)@ + src@,
{
    let chars = chars_of(src);
    push_all(dst, &chars);
}

/// The index of the first `c` in `v`, or the length of `v`.
pub fn find(v: &Vec<char>, c: char) -> (i: usize)
    ensures
        i == seqs::first_index(v@, c),
        i <= v.len(),
{
    let mut i: usize = 0;
    while i < v.len() && v[i] != c
        invariant
            i <= v.len(),
            forall|j: int| 0 <= j < i ==> v@[j] != c,
        decreases v.len() - i,
    {
        i = i + 1;
    }
    proof {
        seqs::lemma_first_index_is(v@, c, i as int);
    }
    i
}

/// The index of the first `c` in `v` at or behind index `from`, or the
/// length of `v`.
pub fn find_from(v: &Vec<char>, from: usize, c: char) -> (i: usize)
    requires
        from <= v.len(),
    ensures
        i == from + seqs::first_index(v@.skip(from as int), c),
        from <= i <= v.len(),
{
    let mut i: usize = from;
    while i < v.len() && v[i] != c
        invariant
            from <= i <= v.len(),
            forall|j: int| from <= j < i ==> v@[j] != c,
        decreases v.len() - i,
    {
        i = i + 1;
    }
    proof {
        let rest = v@.skip(from as int);
        assert forall|j: int| 0 <= j < i - from implies rest[j] != c by {
            assert(rest[j] == v@[from + j]);
        }
        seqs::lemma_first_index_is(rest, c, i - from);
    }
    i
}

/// The part of `v` in front of the first `c`.
pub fn before(v: &Vec<char>, c: char) -> (r: Vec<char>)
    ensures
        r@ == seqs::before(v@, c),
{
    let i = find(v, c);
    slice(v, 0, i)
}

/// The part of `v` behind the first `c`, if there is one.
pub fn after(v: &Vec<char>, c: char) -> (r: Option<Vec<char>>)
    ensures
        r is Some == seqs::after(v@, c) is Some,
        r matches Some(t) ==> seqs::after(v@, c) == Some(t@),
{
    let i = find(v, c);
    if i < v.len() {
        Some(slice(v, i + 1, v.len()))
    } else {
        None
    }
}

/// `v` with every `from` turned into `to`.
pub fn swap_char(v: &Vec<char>, from: char, to: char) -> (r: Vec<char>)
    ensures
        r@ == seqs::swap_char(v@, from, to),
{
    let mut r: Vec<char> = Vec::new();
    let mut i: usize = 0;
    while i < v.len()
        invariant
            i <= v.len(),
            r@.len() == i,
            forall|j: int|
                0 <= j < i ==> r@[j] == if v@[j] == from {
                    to
                } else {
                    v@[j]
                },
        decreases v.len() - i,
    {
        if v[i] == from {
            r.push(to);
        } else {
            r.push(v[i]);
        }
        i = i + 1;
    }
    assert(r@ =~= seqs::swap_char(v@, from, to));
    r
}

/// Whether `pat` stands in `v` at index `at`.
pub fn stands_at(v: &Vec<char>, at: usize, pat: &Vec<char>) -> (r: bool)
    requires
        at <= v.len(),
    ensures
        r == pat@.is_prefix_of(v@.skip(at as int)),
{
    if pat.len() > v.len() - at {
        return false;
    }
    let mut i: usize = 0;
    while i < pat.len()
        invariant
            i <= pat.len(),
            at + pat.len() <= v.len(),
            forall|j: int| 0 <= j < i ==> pat@[j] == v@[at + j],
        decreases pat.len() - i,
    {
        if pat[i] != v[at + i] {
            assert(v@.skip(at as int)[i as int] == v@[at + i]);
            return false;
        }
        i = i + 1;
    }
    assert(pat@ =~= v@.skip(at as int).subrange(0, pat@.len() as int));
    true
}

/// Whether `v` begins with the characters of `pat`.
pub fn starts_with(v: &Vec<char>, pat: &str) -> (r: bool)
    ensures
        r == pat@.is_prefix_of(v@),
{
    let p = chars_of(pat);
    assert(v@.skip(0) == v@);
    stands_at(v, 0, &p)
}

/// `v` without the occurrences of `pat`.
pub fn without(v: &Vec<char>, pat: &Vec<char>) -> (r: Vec<char>)
    ensures
        r@ == seqs::without(v@, pat@),
{
    let mut r: Vec<char> = Vec::new();
    if pat.len() == 0 {
        push_all(&mut r, v);
        return r;
    }
    let mut i: usize = 0;
    assert(v@.skip(0) == v@);
    assert(r@ + seqs::without(v@, pat@) == seqs::without(v@, pat@));
    while i < v.len()
        invariant
            i <= v.len(),
            pat.len() > 0,
            r@ + seqs::without(v@.skip(i as int), pat@) == seqs::without(v@, pat@),
        decreases v.len() - i,
    {
        let ghost rest = v@.skip(i as int);
        if stands_at(v, i, pat) {
            assert(rest.skip(pat@.len() as int) == v@.skip(i + pat@.len()));
            i = i + pat.len();
        } else {
            assert(rest.skip(1) == v@.skip(i + 1));
            assert(rest[0] == v@[i as int]);
            assert(seqs::without(rest, pat@) == if rest.len() < pat@.len() {
                rest
            } else {
                seq![rest[0]] + seqs::without(rest.skip(1), pat@)
            });
            if v.len() - i < pat.len() {
                let tail = slice(v, i, v.len());
                push_all(&mut r, &tail);
                assert(v@.skip(v@.len() as int) == Seq::<char>::empty());
                i = v.len();
            } else {
                r.push(v[i]);
                assert(r@ + seqs::without(v@.skip(i + 1), pat@) == seqs::without(v@, pat@)) by {
                    assert(r@ =~= r@.drop_last() + seq![v@[i as int]]);
                    assert((r@.drop_last() + seq![v@[i as int]]) + seqs::without(
                        v@.skip(i + 1),
                        pat@,
                    ) =~= r@.drop_last() + (seq![v@[i as int]] + seqs::without(
                        v@.skip(i + 1),
                        pat@,
                    )));
                }
                i = i + 1;
            }
        }
    }
    assert(v@.skip(v@.len() as int) == Seq::<char>::empty());
    assert(r@ + Seq::<char>::empty() == r@);
    r
}

/// `v` without the character `c`.
pub fn without_char(v: &Vec<char>, c: char) -> (r: Vec<char>)
    ensures
        r@ == seqs::without_char(v@, c),
{
    let mut r: Vec<char> = Vec::new();
    let mut i: usize = 0;
    while i < v.len()
        invariant
            i <= v.len(),
            r@ == seqs::without_char(v@.take(i as int), c),
        decreases v.len() - i,
    {
        assert(v@.take(i + 1).drop_last() == v@.take(i as int));
        if v[i] != c {
            r.push(v[i]);
        }
        i = i + 1;
    }
    assert(v@.take(v@.len() as int) == v@);
    r
}

/// `v` without one layer of square brackets, where it is wrapped in one.
pub fn unbracketed(v: &Vec<char>) -> (r: Vec<char>)
    ensures
        r@ == seqs::unbracketed(v@),
{
    if v.len() >= 2 && v[0] == '[' && v[v.len() - 1] == ']' {
        slice(v, 1, v.len() - 1)
    } else {
        let r = slice(v, 0, v.len());
        assert(v@.subrange(0, v@.len() as int) == v@);
        r
    }
}

/// `v` without the run of `c` at its front.
pub fn trimmed_start(v: &Vec<char>, c: char) -> (r: Vec<char>)
    ensures
        r@ == seqs::trimmed_start(v@, c),
{
    let mut i: usize = 0;
    while i < v.len() && v[i] == c
        invariant
            i <= v.len(),
            forall|j: int| 0 <= j < i ==> v@[j] == c,
        decreases v.len() - i,
    {
        i = i + 1;
    }
    proof {
        seqs::lemma_leading_is(v@, c, i as int);
    }
    slice(v, i, v.len())
}

/// The index of the last `a` in `v` that has `b` right behind it, if there
/// is such a pair.
pub fn find_last_pair(v: &Vec<char>, a: char, b: char) -> (r: Option<usize>)
    ensures
        match r {
            Some(i) => seqs::last_pair(v@, a, b) == i && i + 2 <= v.len(),
            None => seqs::last_pair(v@, a, b) == -1,
        },
{
    if v.len() < 2 {
        return None;
    }
    let mut i: usize = v.len() - 1;
    while i > 0
        invariant
            0 <= i < v.len(),
            forall|j: int| i <= j && j + 1 < v.len() ==> !(v@[j] == a && #[trigger] v@[j + 1] == b),
        decreases i,
    {
        if v[i - 1] == a && v[i] == b {
            proof {
                seqs::lemma_last_pair_is(v@, a, b, i - 1);
            }
            return Some(i - 1);
        }
        i = i - 1;
    }
    proof {
        seqs::lemma_last_pair_is(v@, a, b, -1);
    }
    None
}

/// The strings `parts` in a row, with `sep` between each two neighbours.
pub fn joined(parts: &Vec<String>, sep: &Vec<char>) -> (r: Vec<char>)
    ensures
        r@ == seqs::joined(seqs::views(parts@), sep@),
{
    let mut r: Vec<char> = Vec::new();
    let mut i: usize = 0;
    while i < parts.len()
        invariant
            i <= parts.len(),
            r@ == seqs::joined(seqs::views(parts@).take(i as int), sep@),
        decreases parts.len() - i,
    {
        let ghost done = seqs::views(parts@).take(i as int);
        let ghost next = seqs::views(parts@).take(i + 1);
        assert(next.drop_last() == done);
        assert(next.last() == parts@[i as int]@);
        if i > 0 {
            push_all(&mut r, sep);
        }
        push_str(&mut r, parts[i].as_str());
        assert(r@ == seqs::joined(next, sep@)) by {
            if i == 0 {
                assert(done =~= Seq::<Seq<char>>::empty());
                assert(Seq::<char>::empty() + parts@[i as int]@ == parts@[i as int]@);
            }
        }
        i = i + 1;
    }
    assert(seqs::views(parts@).take(parts@.len() as int) == seqs::views(parts@));
    r
}

} // verus!
