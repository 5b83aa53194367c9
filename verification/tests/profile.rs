use neo_installer::error::InstallError;
use neo_installer::profile::{resolve_text, setup_vars, NeoProfile};
use neo_installer::side::{Side, Sided};
use neo_installer::table::TokenMap;

const LIB: &str = "/work/libraries";
const BASE: &str = "/work/.installer";

fn profile_with(entries: &[(&str, &str, &str)]) -> NeoProfile {
    let mut data = TokenMap::new();
    for (name, client, server) in entries {
        data.insert(
            name.to_string(),
            Sided { client: client.to_string(), server: server.to_string() },
        );
    }
    NeoProfile {
        spec: 1,
        profile: "NeoForge".to_string(),
        version: "neoforge-21.0.1".to_string(),
        icon: String::new(),
        minecraft: "1.21".to_string(),
        json: "/version.json".to_string(),
        logo: "/big_logo.png".to_string(),
        welcome: "Welcome".to_string(),
        mirror_list: "https://mirrors.example/list.json".to_string(),
        hide_extract: true,
        data,
        processors: Vec::new(),
        libraries: Vec::new(),
        server_jar_path: "{LIBRARY_DIR}/net/minecraft/server/{MINECRAFT_VERSION}/server.jar"
            .to_string(),
    }
}

#[test]
fn a_value_with_a_leading_slash_resolves_under_the_base_directory() {
    let profile = profile_with(&[("BINPATCH", "/foo/bar", "/foo/bar")]);
    assert_eq!(
        profile.data("BINPATCH", Side::Client, LIB, BASE),
        Ok("/work/.installer/foo/bar".to_string())
    );
}

#[test]
fn all_leading_slashes_are_dropped() {
    assert_eq!(resolve_text("//data/x.lzma", LIB, BASE), Ok("/work/.installer/data/x.lzma".to_string()));
    assert_eq!(resolve_text("/", LIB, BASE), Ok("/work/.installer/".to_string()));
}

#[test]
fn a_quoted_value_is_a_literal() {
    let profile = profile_with(&[("MCP_VERSION", "'literal", "'literal")]);
    assert_eq!(
        profile.data("MCP_VERSION", Side::Client, LIB, BASE),
        Ok("literal".to_string())
    );
}

#[test]
fn a_literal_that_looks_like_a_coordinate_stays_a_literal() {
    assert_eq!(resolve_text("'org:lib:1.0", LIB, BASE), Ok("org:lib:1.0".to_string()));
}

#[test]
fn only_the_leading_quote_is_dropped() {
    assert_eq!(resolve_text("'1.21-20240613'", LIB, BASE), Ok("1.21-20240613'".to_string()));
    assert_eq!(resolve_text("'", LIB, BASE), Ok("".to_string()));
    assert_eq!(resolve_text("''", LIB, BASE), Ok("'".to_string()));
}

#[test]
fn a_bare_coordinate_resolves_under_the_library_directory() {
    let profile = profile_with(&[("LIB", "org:lib:1.0", "org:lib:1.0")]);
    assert_eq!(
        profile.data("LIB", Side::Server, LIB, BASE),
        Ok("/work/libraries/org/lib/1.0/lib-1.0.jar".to_string())
    );
}

#[test]
fn a_bracketed_coordinate_resolves_under_the_library_directory() {
    assert_eq!(
        resolve_text("[net.minecraft:client:1.21:mappings@txt]", LIB, BASE),
        Ok("/work/libraries/net/minecraft/client/1.21/client-1.21-mappings.txt".to_string())
    );
}

#[test]
fn one_layer_of_brackets_is_stripped_before_the_value_is_classified() {
    assert_eq!(resolve_text("[/x/y]", LIB, BASE), Ok("/work/.installer/x/y".to_string()));
    assert_eq!(resolve_text("['lit]", LIB, BASE), Ok("lit".to_string()));
    assert_eq!(
        resolve_text("[[a:b:1]]", LIB, BASE),
        Ok("/work/libraries/[a/b/1]/b-1].jar".to_string())
    );
}

#[test]
fn a_missing_token_is_reported_by_name() {
    let profile = profile_with(&[("A", "'x", "'y")]);
    assert_eq!(
        profile.data("NOPE", Side::Client, LIB, BASE),
        Err(InstallError::MissingToken("NOPE".to_string()))
    );
}

#[test]
fn a_value_that_is_no_coordinate_is_reported() {
    assert_eq!(
        resolve_text("nonsense", LIB, BASE),
        Err(InstallError::InvalidCoordinate("nonsense".to_string()))
    );
    assert_eq!(resolve_text("", LIB, BASE), Err(InstallError::InvalidCoordinate(String::new())));
    assert_eq!(
        resolve_text("[a:b]", LIB, BASE),
        Err(InstallError::InvalidCoordinate("a:b".to_string()))
    );
    assert_eq!(
        resolve_text("[a:b:c", LIB, BASE),
        Ok("/work/libraries/[a/b/c/b-c.jar".to_string())
    );
}

#[test]
fn each_side_resolves_to_its_own_value() {
    let profile = profile_with(&[("PATCHED", "'client-value", "'server-value")]);
    assert_eq!(
        profile.data("PATCHED", Side::Client, LIB, BASE),
        Ok("client-value".to_string())
    );
    assert_eq!(
        profile.data("PATCHED", Side::Server, LIB, BASE),
        Ok("server-value".to_string())
    );
}

#[test]
fn the_other_sides_value_is_not_looked_at() {
    let profile = profile_with(&[("X", "'fine", "broken"), ("Y", "broken", "/fine")]);
    assert_eq!(profile.data("X", Side::Client, LIB, BASE), Ok("fine".to_string()));
    assert_eq!(
        profile.data("X", Side::Server, LIB, BASE),
        Err(InstallError::InvalidCoordinate("broken".to_string()))
    );
    assert_eq!(
        profile.data("Y", Side::Server, LIB, BASE),
        Ok("/work/.installer/fine".to_string())
    );
}

#[test]
fn add_minecraft_derives_the_game_jar_token() {
    let mut profile = profile_with(&[(
        "MC_EXTRA",
        "[net.minecraft:client:1.21:extra]",
        "[net.minecraft:server:1.21:extra]",
    )]);
    assert_eq!(profile.add_minecraft(), Ok(()));
    assert_eq!(profile.data.len(), 2);
    let derived = profile.data.get("MINECRAFT_JAR").unwrap();
    assert_eq!(derived.client, "[net.minecraft:client:1.21]");
    assert_eq!(derived.server, "[net.minecraft:server:1.21]");
    assert_eq!(
        profile.data("MINECRAFT_JAR", Side::Client, LIB, BASE),
        Ok("/work/libraries/net/minecraft/client/1.21/client-1.21.jar".to_string())
    );
    let kept = profile.data.get("MC_EXTRA").unwrap();
    assert_eq!(kept.client, "[net.minecraft:client:1.21:extra]");
}

#[test]
fn add_minecraft_replaces_an_older_game_jar_token() {
    let mut profile = profile_with(&[
        ("MINECRAFT_JAR", "'old", "'old"),
        ("MC_EXTRA", "a:b:1:extra", "a:b:2:extra:extra"),
    ]);
    assert_eq!(profile.add_minecraft(), Ok(()));
    assert_eq!(profile.data.len(), 2);
    let derived = profile.data.get("MINECRAFT_JAR").unwrap();
    assert_eq!(derived.client, "a:b:1");
    assert_eq!(derived.server, "a:b:2");
}

#[test]
fn add_minecraft_needs_the_extra_token() {
    let mut profile = profile_with(&[("A", "'x", "'y")]);
    assert_eq!(
        profile.add_minecraft(),
        Err(InstallError::MissingToken("MC_EXTRA".to_string()))
    );
    assert_eq!(profile.data.len(), 1);
    assert!(!profile.data.contains_key("MINECRAFT_JAR"));
    assert_eq!(profile.minecraft, "1.21");
}

#[test]
fn setup_vars_holds_the_run_tokens() {
    let profile = profile_with(&[]);
    let vars = setup_vars(&profile, Side::Server, LIB, BASE, "/work/.installer/installer.jar")
        .unwrap();
    assert_eq!(vars.len(), 5);
    assert_eq!(vars.get("INSTALLER"), Some(&"/work/.installer/installer.jar".to_string()));
    assert_eq!(vars.get("ROOT"), Some(&".".to_string()));
    assert_eq!(vars.get("SIDE"), Some(&"server".to_string()));
    assert_eq!(vars.get("MINECRAFT_VERSION"), Some(&"1.21".to_string()));
    assert_eq!(vars.get("LIBRARY_DIR"), Some(&"/work/libraries".to_string()));
    assert_eq!(vars.get("OTHER"), None);
}

#[test]
fn setup_vars_resolves_every_token_for_the_side() {
    let profile = profile_with(&[
        ("MAPPINGS", "[a.b:c:1.0:mappings@tsrg]", "[a.b:s:1.0:mappings@tsrg]"),
        ("BINPATCH", "/data/client.lzma", "/data/server.lzma"),
        ("MC_SHA", "'abc'", "'def'"),
    ]);
    let vars = setup_vars(&profile, Side::Client, LIB, BASE, "/i.jar").unwrap();
    assert_eq!(vars.len(), 8);
    assert_eq!(
        vars.get("MAPPINGS"),
        Some(&"/work/libraries/a/b/c/1.0/c-1.0-mappings.tsrg".to_string())
    );
    assert_eq!(vars.get("BINPATCH"), Some(&"/work/.installer/data/client.lzma".to_string()));
    assert_eq!(vars.get("MC_SHA"), Some(&"abc'".to_string()));
    assert_eq!(vars.get("SIDE"), Some(&"client".to_string()));
    let vars = setup_vars(&profile, Side::Server, LIB, BASE, "/i.jar").unwrap();
    assert_eq!(
        vars.get("MAPPINGS"),
        Some(&"/work/libraries/a/b/s/1.0/s-1.0-mappings.tsrg".to_string())
    );
    assert_eq!(vars.get("BINPATCH"), Some(&"/work/.installer/data/server.lzma".to_string()));
    assert_eq!(vars.get("MC_SHA"), Some(&"def'".to_string()));
}

#[test]
fn a_token_of_the_profile_goes_before_a_run_token() {
    let profile = profile_with(&[("SIDE", "'left", "'right"), ("ROOT", "/r", "/r")]);
    let vars = setup_vars(&profile, Side::Client, LIB, BASE, "/i.jar").unwrap();
    assert_eq!(vars.len(), 5);
    assert_eq!(vars.get("SIDE"), Some(&"left".to_string()));
    assert_eq!(vars.get("ROOT"), Some(&"/work/.installer/r".to_string()));
    assert_eq!(vars.get("INSTALLER"), Some(&"/i.jar".to_string()));
}

#[test]
fn setup_vars_reports_the_first_token_that_does_not_resolve() {
    let profile = profile_with(&[
        ("GOOD", "'x", "'x"),
        ("BAD", "one", "'fine"),
        ("WORSE", "two", "three"),
    ]);
    assert_eq!(
        setup_vars(&profile, Side::Client, LIB, BASE, "/i.jar").err(),
        Some(InstallError::InvalidCoordinate("one".to_string()))
    );
    assert_eq!(
        setup_vars(&profile, Side::Server, LIB, BASE, "/i.jar").err(),
        Some(InstallError::InvalidCoordinate("three".to_string()))
    );
}
