//! Coordinates of the form `group:artifact:version[:classifier][@ext]` and
//! the storage path that each one stands for.

use crate::seqs::{after, before, lemma_concat_contains, lemma_cut, lemma_uncut, swap_char};
use crate::text;
use vstd::prelude::*;

verus! {

/// Whether `s` has the three parts that a coordinate needs: in front of
/// its first `@`, at least two colons.
pub open spec fn is_coordinate(s: Seq<char>) -> bool {
    let main = before(s, '@');
    after(main, ':') is Some && after(after(main, ':').unwrap(), ':') is Some
}

/// The path `group/artifact/version/artifact-version[-classifier].ext` of
/// the coordinate `s`. The dots of the group become slashes; the extension
/// is what stands between the first `@` and the next, `jar` without an `@`;
/// a fifth part and what follows it count for nothing.
pub open spec fn maven_path(s: Seq<char>) -> Seq<char> {
    let main = before(s, '@');
    let ext = match after(s, '@') {
        Some(rest) => before(rest, '@'),
        None => "jar"@,
    };
    let group = before(main, ':');
    let rest1 = after(main, ':').unwrap();
    let artifact = before(rest1, ':');
    let rest2 = after(rest1, ':').unwrap();
    let version = before(rest2, ':');
    let classifier = match after(rest2, ':') {
        Some(rest3) => seq!['-'] + before(rest3, ':'),
        None => Seq::empty(),
    };
    swap_char(group, '.', '/') + seq!['/'] + artifact + seq!['/'] + version + seq!['/'] + artifact
        + seq!['-'] + version + classifier + seq!['.'] + ext
}

/// The path of the coordinate `v`, where `v` is one.
pub(crate) fn path_chars(v: &Vec<char>) -> (r: Option<Vec<char>>)
    ensures
        r is Some == is_coordinate(v@),
        r matches Some(p) ==> p@ == maven_path(v@),
{
    let main = text::before(v, '@');
    let ext = match text::after(v, '@') {
        Some(rest) => text::before(&rest, '@'),
        None => text::chars_of("jar"),
    };
    let group = text::before(&main, ':');
    let rest1 = match text::after(&main, ':') {
        Some(rest) => rest,
        None => { return None; },
    };
    let artifact = text::before(&rest1, ':');
    let rest2 = match text::after(&rest1, ':') {
        Some(rest) => rest,
        None => { return None; },
    };
    let version = text::before(&rest2, ':');
    let mut out = text::swap_char(&group, '.', '/');
    out.push('/');
    text::push_all(&mut out, &artifact);
    out.push('/');
    text::push_all(&mut out, &version);
    out.push('/');
    text::push_all(&mut out, &artifact);
    out.push('-');
    text::push_all(&mut out, &version);
    match text::after(&rest2, ':') {
        Some(rest3) => {
            let classifier = text::before(&rest3, ':');
            out.push('-');
            text::push_all(&mut out, &classifier);
        },
        None => {},
    }
    out.push('.');
    text::push_all(&mut out, &ext);
    assert(out@ =~= maven_path(v@));
    Some(out)
}

/// The storage path of the coordinate `mvn`.
pub fn maven_to_path(mvn: &str) -> (r: String)
    requires
        is_coordinate(mvn@),
    ensures
        r@ == maven_path(mvn@),
{
    let v = text::chars_of(mvn);
    match path_chars(&v) {
        Some(p) => text::string_of(&p),
        None => unreached(),
    }
}

/// The storage path of `mvn` where `mvn` is a coordinate, nothing where it
/// is not.
pub fn try_maven_to_path(mvn: &str) -> (r: Option<String>)
    ensures
        r is Some == is_coordinate(mvn@),
        r matches Some(p) ==> p@ == maven_path(mvn@),
{
    let v = text::chars_of(mvn);
    match path_chars(&v) {
        Some(p) => Some(text::string_of(&p)),
        None => None,
    }
}

/// Whether `s` holds neither a colon nor an `@`.
pub open spec fn is_plain(s: Seq<char>) -> bool {
    !s.contains(':') && !s.contains('@')
}

/// The coordinate `group:artifact:version` stands for the path
/// `group/artifact/version/artifact-version.jar`, the group's dots turned
/// into slashes.
pub proof fn lemma_plain_coordinate(group: Seq<char>, artifact: Seq<char>, version: Seq<char>)
    requires
        is_plain(group),
        is_plain(artifact),
        is_plain(version),
    ensures
        is_coordinate(group + seq![':'] + artifact + seq![':'] + version),
        maven_path(group + seq![':'] + artifact + seq![':'] + version) == swap_char(
            group,
            '.',
            '/',
        ) + seq!['/'] + artifact + seq!['/'] + version + seq!['/'] + artifact + seq!['-'] + version
            + seq!['.'] + "jar"@,
{
    let tail = artifact + seq![':'] + version;
    let s = group + seq![':'] + artifact + seq![':'] + version;
    assert(s =~= group + seq![':'] + tail);
    assert(!seq![':'].contains('@')) by {
        assert forall|j: int| 0 <= j < seq![':'].len() implies seq![':'][j] != '@' by {}
    }
    lemma_concat_contains(artifact, seq![':'], '@');
    lemma_concat_contains(artifact + seq![':'], version, '@');
    lemma_concat_contains(group, seq![':'], '@');
    lemma_concat_contains(group + seq![':'], tail, '@');
    lemma_uncut(s, '@');
    lemma_cut(group, ':', tail);
    lemma_cut(artifact, ':', version);
    lemma_uncut(version, ':');
    assert(maven_path(s) =~= swap_char(group, '.', '/') + seq!['/'] + artifact + seq!['/']
        + version + seq!['/'] + artifact + seq!['-'] + version + seq!['.'] + "jar"@);
}

/// The coordinate `group:artifact:version:classifier@ext` stands for the
/// path `group/artifact/version/artifact-version-classifier.ext`, the
/// group's dots turned into slashes.
pub proof fn lemma_full_coordinate(
    group: Seq<char>,
    artifact: Seq<char>,
    version: Seq<char>,
    classifier: Seq<char>,
    ext: Seq<char>,
)
    requires
        is_plain(group),
        is_plain(artifact),
        is_plain(version),
        is_plain(classifier),
        !ext.contains('@'),
    ensures
        is_coordinate(
            group + seq![':'] + artifact + seq![':'] + version + seq![':'] + classifier + seq!['@']
                + ext,
        ),
        maven_path(
            group + seq![':'] + artifact + seq![':'] + version + seq![':'] + classifier + seq!['@']
                + ext,
        ) == swap_char(group, '.', '/') + seq!['/'] + artifact + seq!['/'] + version + seq!['/']
            + artifact + seq!['-'] + version + seq!['-'] + classifier + seq!['.'] + ext,
{
    let tail2 = version + seq![':'] + classifier;
    let tail1 = artifact + seq![':'] + tail2;
    let main = group + seq![':'] + tail1;
    let s = group + seq![':'] + artifact + seq![':'] + version + seq![':'] + classifier + seq!['@']
        + ext;
    assert(s =~= main + seq!['@'] + ext);
    assert(!seq![':'].contains('@')) by {
        assert forall|j: int| 0 <= j < seq![':'].len() implies seq![':'][j] != '@' by {}
    }
    lemma_concat_contains(version, seq![':'], '@');
    lemma_concat_contains(version + seq![':'], classifier, '@');
    lemma_concat_contains(artifact, seq![':'], '@');
    lemma_concat_contains(artifact + seq![':'], tail2, '@');
    lemma_concat_contains(group, seq![':'], '@');
    lemma_concat_contains(group + seq![':'], tail1, '@');
    lemma_cut(main, '@', ext);
    lemma_uncut(ext, '@');
    lemma_cut(group, ':', tail1);
    lemma_cut(artifact, ':', tail2);
    lemma_cut(version, ':', classifier);
    lemma_uncut(classifier, ':');
    assert(maven_path(s) =~= swap_char(group, '.', '/') + seq!['/'] + artifact + seq!['/']
        + version + seq!['/'] + artifact + seq!['-'] + version + seq!['-'] + classifier + seq!['.']
        + ext);
}

} // verus!
