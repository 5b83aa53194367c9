//! Paths as texts with `/` between their parts.

use crate::text;
use vstd::prelude::*;

verus! {

/// The path `rel` taken from the directory `base`: the two with one `/`
/// between them, which `base` may bring itself. From an empty `base` it is
/// `rel`.
pub open spec fn join_path(base: Seq<char>, rel: Seq<char>) -> Seq<char> {
    if base.len() == 0 {
        rel
    } else if base.last() == '/' {
        base + rel
    } else {
        base + seq!['/'] + rel
    }
}

/// `path` as seen from the directory `dir`, where it lies in `dir` or is
/// `dir` itself; every path lies in the empty directory.
pub open spec fn relative_to(path: Seq<char>, dir: Seq<char>) -> Option<Seq<char>> {
    if dir.len() == 0 {
        Some(path)
    } else if path == dir {
        Some(Seq::empty())
    } else if dir.last() == '/' {
        if dir.is_prefix_of(path) {
            Some(path.skip(dir.len() as int))
        } else {
            None
        }
    } else if (dir + seq!['/']).is_prefix_of(path) {
        Some(path.skip(dir.len() as int + 1))
    } else {
        None
    }
}

/// The address of `rel` on the host `base`: the two with a `/` between.
pub open spec fn url_of(base: Seq<char>, rel: Seq<char>) -> Seq<char> {
    base + seq!['/'] + rel
}

/// The path `rel` taken from the directory `base`.
pub(crate) fn join_chars(base: &Vec<char>, rel: &Vec<char>) -> (r: Vec<char>)
    ensures
        r@ == join_path(base@, rel@),
{
    let mut out: Vec<char> = Vec::new();
    text::push_all(&mut out, base);
    if base.len() > 0 && base[base.len() - 1] != '/' {
        out.push('/');
    }
    text::push_all(&mut out, rel);
    assert(out@ =~= join_path(base@, rel@));
    out
}

/// The path `rel` taken from the directory `base`.
pub fn join(base: &str, rel: &str) -> (r: String)
    ensures
        r@ == join_path(base@, rel@),
{
    let b = text::chars_of(base);
    let p = text::chars_of(rel);
    let out = join_chars(&b, &p);
    text::string_of(&out)
}

/// `path` as seen from the directory `dir`, where it lies in it.
pub(crate) fn relative_chars(path: &Vec<char>, dir: &Vec<char>) -> (r: Option<Vec<char>>)
    ensures
        r is Some == relative_to(path@, dir@) is Some,
        r matches Some(p) ==> relative_to(path@, dir@) == Some(p@),
{
    assert(path@.skip(0) == path@);
    if dir.len() == 0 {
        Some(text::slice(path, 0, path.len()))
    } else if text::same(path, dir) {
        Some(Vec::new())
    } else if dir[dir.len() - 1] == '/' {
        if text::stands_at(path, 0, dir) {
            Some(text::slice(path, dir.len(), path.len()))
        } else {
            None
        }
    } else {
        let mut marked: Vec<char> = Vec::new();
        text::push_all(&mut marked, dir);
        marked.push('/');
        assert(marked@ =~= dir@ + seq!['/']);
        if text::stands_at(path, 0, &marked) {
            Some(text::slice(path, dir.len() + 1, path.len()))
        } else {
            None
        }
    }
}

/// `path` as seen from the directory `dir`, where it lies in it.
pub fn relative(path: &str, dir: &str) -> (r: Option<String>)
    ensures
        r is Some == relative_to(path@, dir@) is Some,
        r matches Some(p) ==> relative_to(path@, dir@) == Some(p@),
{
    let p = text::chars_of(path);
    let d = text::chars_of(dir);
    match relative_chars(&p, &d) {
        Some(out) => Some(text::string_of(&out)),
        None => None,
    }
}

/// The address of `rel` on the host `base`.
pub fn url(base: &str, rel: &str) -> (r: String)
    ensures
        r@ == url_of(base@, rel@),
{
    let mut out = text::chars_of(base);
    out.push('/');
    text::push_str(&mut out, rel);
    assert(out@ =~= url_of(base@, rel@));
    text::string_of(&out)
}

} // verus!
