//! The install profile and the resolution of its tokens.

use crate::error::{text_result, Fault, InstallError};
use crate::libraries::Library;
use crate::maven::{is_coordinate, maven_path, path_chars};
use crate::path::{join_chars, join_path};
use crate::processors::Processor;
use crate::seqs::{lemma_take_contains, trimmed_start, unbracketed, without};
use crate::side::{Side, Sided};
use crate::table::TokenMap;
use crate::text;
use vstd::prelude::*;

verus! {

/// An install profile as its document gives it.
#[derive(Debug, Clone)]
pub struct NeoProfile {
    pub spec: u16,
    pub profile: String,
    pub version: String,
    pub icon: String,
    pub minecraft: String,
    pub json: String,
    pub logo: String,
    pub welcome: String,
    pub mirror_list: String,
    pub hide_extract: bool,
    pub data: TokenMap<Sided<String>>,
    pub processors: Vec<Processor>,
    pub libraries: Vec<Library>,
    pub server_jar_path: String,
}

/// What the raw value `raw` of a token stands for. One layer of square
/// brackets round it counts for nothing. Then a value that begins with `/`
/// is a path in the directory `base`, its leading slashes dropped; one that
/// begins with `'` is a literal, which is the value behind that one quote;
/// any other is a coordinate, and stands for its path in the directory
/// `lib`.
pub open spec fn resolve_value(raw: Seq<char>, lib: Seq<char>, base: Seq<char>) -> Result<
    Seq<char>,
    Fault,
> {
    let it = unbracketed(raw);
    if it.len() > 0 && it[0] == '/' {
        Ok(join_path(base, trimmed_start(it, '/')))
    } else if it.len() > 0 && it[0] == '\'' {
        Ok(it.skip(1))
    } else if is_coordinate(it) {
        Ok(join_path(lib, maven_path(it)))
    } else {
        Err(Fault::InvalidCoordinate(it))
    }
}

/// What the token `name` stands for on `side`: what the value that the
/// table holds for that side stands for.
pub open spec fn resolve(
    tokens: Map<Seq<char>, Sided<Seq<char>>>,
    name: Seq<char>,
    side: Side,
    lib: Seq<char>,
    base: Seq<char>,
) -> Result<Seq<char>, Fault> {
    if tokens.contains_key(name) {
        resolve_value(tokens[name].pick(side), lib, base)
    } else {
        Err(Fault::MissingToken(name))
    }
}

/// What the raw value `raw` of a token stands for.
pub fn resolve_text(raw: &str, lib_path: &str, base_path: &str) -> (r: Result<String, InstallError>)
    ensures
        text_result(r) == resolve_value(raw@, lib_path@, base_path@),
{
    let value = text::chars_of(raw);
    let it = text::unbracketed(&value);
    if it.len() > 0 && it[0] == '/' {
        let rel = text::trimmed_start(&it, '/');
        let base = text::chars_of(base_path);
        let out = join_chars(&base, &rel);
        Ok(text::string_of(&out))
    } else if it.len() > 0 && it[0] == '\'' {
        let out = text::slice(&it, 1, it.len());
        Ok(text::string_of(&out))
    } else {
        match path_chars(&it) {
            Some(rel) => {
                let lib = text::chars_of(lib_path);
                let out = join_chars(&lib, &rel);
                Ok(text::string_of(&out))
            },
            None => Err(InstallError::InvalidCoordinate(text::string_of(&it))),
        }
    }
}

impl NeoProfile {
    /// The data table with its values as texts.
    pub open spec fn tokens(&self) -> Map<Seq<char>, Sided<Seq<char>>> {
        self.data@.map_values(|v: Sided<String>| v@)
    }

    /// What the token `name` stands for on `side`, with `lib_path` as the
    /// library directory and `base_path` as the directory of the extracted
    /// data.
    pub fn data(&self, name: &str, side: Side, lib_path: &str, base_path: &str) -> (r: Result<
        String,
        InstallError,
    >)
        ensures
            text_result(r) == resolve(self.tokens(), name@, side, lib_path@, base_path@),
    {
        match self.data.get(name) {
            Some(entry) => resolve_text(entry.get(side).as_str(), lib_path, base_path),
            None => Err(InstallError::MissingToken(name.to_owned())),
        }
    }

    /// Adds the token `MINECRAFT_JAR`: for each side the value of
    /// `MC_EXTRA` without its occurrences of `:extra`. A profile without
    /// `MC_EXTRA` is left as it is.
    pub fn add_minecraft(&mut self) -> (r: Result<(), InstallError>)
        ensures
            match r {
                Ok(_) => {
                    &&& old(self).tokens().contains_key("MC_EXTRA"@)
                    &&& final(self).tokens() == old(self).tokens().insert(
                        "MINECRAFT_JAR"@,
                        Sided {
                            client: without(old(self).tokens()["MC_EXTRA"@].client, ":extra"@),
                            server: without(old(self).tokens()["MC_EXTRA"@].server, ":extra"@),
                        },
                    )
                },
                Err(e) => {
                    &&& !old(self).tokens().contains_key("MC_EXTRA"@)
                    &&& e@ == Fault::MissingToken("MC_EXTRA"@)
                    &&& final(self).data == old(self).data
                },
            },
            *final(self) == (NeoProfile { data: final(self).data, ..*old(self) }),
    {
        let pat = text::chars_of(":extra");
        let derived = match self.data.get("MC_EXTRA") {
            Some(extra) => {
                let client = text::without(&text::chars_of(extra.client.as_str()), &pat);
                let server = text::without(&text::chars_of(extra.server.as_str()), &pat);
                Sided { client: text::string_of(&client), server: text::string_of(&server) }
            },
            None => {
                return Err(InstallError::MissingToken("MC_EXTRA".to_owned()));
            },
        };
        let ghost value = derived;
        self.data.insert("MINECRAFT_JAR".to_owned(), derived);
        assert(self.tokens() =~= old(self).tokens().insert("MINECRAFT_JAR"@, value@));
        Ok(())
    }
}

/// The tokens that every run has, whatever the profile holds: the
/// installer's path, the root of the working directory as the processors
/// see it, the side's name, the game version and the library directory.
pub open spec fn run_tokens(
    minecraft: Seq<char>,
    side: Side,
    lib: Seq<char>,
    jar: Seq<char>,
) -> Map<Seq<char>, Seq<char>> {
    Map::<Seq<char>, Seq<char>>::empty().insert("INSTALLER"@, jar).insert("ROOT"@, "."@).insert(
        "SIDE"@,
        side.name(),
    ).insert("MINECRAFT_VERSION"@, minecraft).insert("LIBRARY_DIR"@, lib)
}

/// The variable table of a run: under each token of the profile what it
/// stands for on `side`, and under each other name of `run_tokens` what
/// that map holds. A token of the profile goes before a run token of the
/// same name.
pub open spec fn variables(
    tokens: Map<Seq<char>, Sided<Seq<char>>>,
    minecraft: Seq<char>,
    side: Side,
    lib: Seq<char>,
    base: Seq<char>,
    jar: Seq<char>,
) -> Map<Seq<char>, Seq<char>> {
    Map::new(
        |k: Seq<char>| tokens.contains_key(k) || run_tokens(minecraft, side, lib, jar).contains_key(k),
        |k: Seq<char>|
            if tokens.contains_key(k) {
                resolve(tokens, k, side, lib, base)->Ok_0
            } else {
                run_tokens(minecraft, side, lib, jar)[k]
            },
    )
}

/// The variable table while only the first `n` of `names` are in it.
spec fn variables_upto(
    names: Seq<Seq<char>>,
    n: int,
    tokens: Map<Seq<char>, Sided<Seq<char>>>,
    minecraft: Seq<char>,
    side: Side,
    lib: Seq<char>,
    base: Seq<char>,
    jar: Seq<char>,
) -> Map<Seq<char>, Seq<char>> {
    Map::new(
        |k: Seq<char>| names.take(n).contains(k) || run_tokens(minecraft, side, lib, jar).contains_key(k),
        |k: Seq<char>|
            if names.take(n).contains(k) {
                resolve(tokens, k, side, lib, base)->Ok_0
            } else {
                run_tokens(minecraft, side, lib, jar)[k]
            },
    )
}

/// The variable table of a run for `side`. It is there when every token of
/// the profile stands for something; else the fault is that of the first
/// token, in the table's order, that does not.
pub fn setup_vars(
    data: &NeoProfile,
    side: Side,
    lib_path: &str,
    base_path: &str,
    jar_path: &str,
) -> (r: Result<TokenMap<String>, InstallError>)
    ensures
        match r {
            Ok(vars) => {
                &&& forall|k: Seq<char>| #[trigger]
                    data.tokens().contains_key(k) ==> resolve(
                        data.tokens(),
                        k,
                        side,
                        lib_path@,
                        base_path@,
                    ) is Ok
                &&& vars.texts() == variables(
                    data.tokens(),
                    data.minecraft@,
                    side,
                    lib_path@,
                    base_path@,
                    jar_path@,
                )
            },
            Err(e) => exists|i: int|
                {
                    &&& 0 <= i < data.data.names().len()
                    &&& resolve(
                        data.tokens(),
                        #[trigger] data.data.names()[i],
                        side,
                        lib_path@,
                        base_path@,
                    ) == Err::<Seq<char>, Fault>(e@)
                    &&& forall|j: int|
                        0 <= j < i ==> resolve(
                            data.tokens(),
                            #[trigger] data.data.names()[j],
                            side,
                            lib_path@,
                            base_path@,
                        ) is Ok
                },
        },
{
    let mut vars: TokenMap<String> = TokenMap::new();
    vars.insert("INSTALLER".to_owned(), jar_path.to_owned());
    vars.insert("ROOT".to_owned(), ".".to_owned());
    vars.insert("SIDE".to_owned(), side.get().to_owned());
    vars.insert("MINECRAFT_VERSION".to_owned(), data.minecraft.clone());
    vars.insert("LIBRARY_DIR".to_owned(), lib_path.to_owned());
    let ghost names = data.data.names();
    let ghost tokens = data.tokens();
    assert(vars.texts() =~= variables_upto(
        names,
        0,
        tokens,
        data.minecraft@,
        side,
        lib_path@,
        base_path@,
        jar_path@,
    ));
    let n = data.data.len();
    let mut i: usize = 0;
    while i < n
        invariant
            i <= n,
            n == names.len(),
            names == data.data.names(),
            tokens == data.tokens(),
            forall|j: int|
                0 <= j < i ==> resolve(tokens, #[trigger] names[j], side, lib_path@, base_path@) is Ok,
            vars.texts() == variables_upto(
                names,
                i as int,
                tokens,
                data.minecraft@,
                side,
                lib_path@,
                base_path@,
                jar_path@,
            ),
        decreases n - i,
    {
        let (key, value) = data.data.entry_at(i);
        let ghost before = vars.texts();
        match resolve_text(value.get(side).as_str(), lib_path, base_path) {
            Ok(resolved) => {
                vars.insert(key.to_owned(), resolved);
                assert(tokens.contains_key(key@) && tokens[key@] == value@);
                assert(resolve(tokens, key@, side, lib_path@, base_path@) == Ok::<Seq<char>, Fault>(
                    resolved@,
                ));
                assert(names.take(i + 1) =~= names.take(i as int).push(key@));
                assert(vars.texts() =~= before.insert(key@, resolved@));
                assert(vars.texts() =~= variables_upto(
                    names,
                    i + 1,
                    tokens,
                    data.minecraft@,
                    side,
                    lib_path@,
                    base_path@,
                    jar_path@,
                )) by {
                    let next = variables_upto(
                        names,
                        i + 1,
                        tokens,
                        data.minecraft@,
                        side,
                        lib_path@,
                        base_path@,
                        jar_path@,
                    );
                    let run = run_tokens(data.minecraft@, side, lib_path@, jar_path@);
                    let earlier = variables_upto(
                        names,
                        i as int,
                        tokens,
                        data.minecraft@,
                        side,
                        lib_path@,
                        base_path@,
                        jar_path@,
                    );
                    assert(before == earlier);
                    assert forall|k: Seq<char>| next.contains_key(k) == before.insert(
                        key@,
                        resolved@,
                    ).contains_key(k) by {
                        lemma_take_contains(names, i as int, k);
                        assert(earlier.contains_key(k) == (names.take(i as int).contains(k)
                            || run.contains_key(k)));
                        assert(next.contains_key(k) == (names.take(i + 1).contains(k)
                            || run.contains_key(k)));
                    }
                    assert forall|k: Seq<char>| next.contains_key(k) implies next[k]
                        == before.insert(key@, resolved@)[k] by {
                        lemma_take_contains(names, i as int, k);
                        assert(earlier.contains_key(k) == (names.take(i as int).contains(k)
                            || run.contains_key(k)));
                        if k != key@ {
                            assert(earlier.contains_key(k));
                            assert(earlier[k] == if names.take(i as int).contains(k) {
                                resolve(tokens, k, side, lib_path@, base_path@)->Ok_0
                            } else {
                                run[k]
                            });
                        }
                    }
                    assert(next =~= before.insert(key@, resolved@));
                }
            },
            Err(e) => {
                return Err(e);
            },
        }
        i = i + 1;
    }
    proof {
        data.data.lemma_names();
        assert(names.take(n as int) == names);
        assert forall|k: Seq<char>| #[trigger] tokens.contains_key(k) implies resolve(
            tokens,
            k,
            side,
            lib_path@,
            base_path@,
        ) is Ok by {
            assert(names.contains(k));
            let j = choose|j: int| 0 <= j < names.len() && names[j] == k;
            assert(resolve(tokens, names[j], side, lib_path@, base_path@) is Ok);
        }
        assert(vars.texts() =~= variables(
            tokens,
            data.minecraft@,
            side,
            lib_path@,
            base_path@,
            jar_path@,
        ));
    }
    Ok(vars)
}

/// Side isolation: what a token stands for on the active side depends on
/// the value that the table holds for that side and on nothing that it
/// holds for the other. Two tables that agree on the token's value for
/// `side` resolve it alike.
pub proof fn lemma_side_isolation(
    tokens: Map<Seq<char>, Sided<Seq<char>>>,
    other: Map<Seq<char>, Sided<Seq<char>>>,
    name: Seq<char>,
    side: Side,
    lib: Seq<char>,
    base: Seq<char>,
)
    requires
        tokens.contains_key(name) == other.contains_key(name),
        tokens.contains_key(name) ==> tokens[name].pick(side) == other[name].pick(side),
    ensures
        resolve(tokens, name, side, lib, base) == resolve(other, name, side, lib, base),
{
}

/// Side isolation on one entry: a token with the value `client` for the
/// client and `server` for the server stands on each side for what that
/// side's value stands for.
pub proof fn lemma_active_side(
    tokens: Map<Seq<char>, Sided<Seq<char>>>,
    name: Seq<char>,
    client: Seq<char>,
    server: Seq<char>,
    lib: Seq<char>,
    base: Seq<char>,
)
    ensures
        resolve(tokens.insert(name, Sided { client, server }), name, Side::Client, lib, base)
            == resolve_value(client, lib, base),
        resolve(tokens.insert(name, Sided { client, server }), name, Side::Server, lib, base)
            == resolve_value(server, lib, base),
{
}

/// Token classification, paths: a value that begins with `/` stands for a
/// path in the base directory.
pub proof fn lemma_path_token(raw: Seq<char>, lib: Seq<char>, base: Seq<char>)
    requires
        raw.len() > 0,
        raw[0] == '/',
    ensures
        resolve_value(raw, lib, base) == Ok::<Seq<char>, Fault>(
            join_path(base, trimmed_start(raw, '/')),
        ),
        base.is_prefix_of(join_path(base, trimmed_start(raw, '/'))),
{
}

/// Token classification, literals: a value that begins with `'` stands for
/// the text behind that quote, whatever the directories are and whether or
/// not the text is a coordinate.
pub proof fn lemma_literal_token(raw: Seq<char>, lib: Seq<char>, base: Seq<char>)
    requires
        raw.len() > 0,
        raw[0] == '\'',
    ensures
        resolve_value(raw, lib, base) == Ok::<Seq<char>, Fault>(raw.skip(1)),
{
}

/// Token classification, coordinates: a coordinate, bare or in one layer
/// of square brackets, stands for its path in the library directory.
pub proof fn lemma_coordinate_token(raw: Seq<char>, lib: Seq<char>, base: Seq<char>)
    requires
        is_coordinate(unbracketed(raw)),
        unbracketed(raw).len() > 0 ==> unbracketed(raw)[0] != '/' && unbracketed(raw)[0] != '\'',
    ensures
        resolve_value(raw, lib, base) == Ok::<Seq<char>, Fault>(
            join_path(lib, maven_path(unbracketed(raw))),
        ),
        lib.is_prefix_of(join_path(lib, maven_path(unbracketed(raw)))),
{
}

} // verus!
