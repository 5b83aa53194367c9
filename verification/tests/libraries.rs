use neo_installer::download::{download_if_needed, Download};
use neo_installer::error::InstallError;
use neo_installer::libraries::{
    download_libs, fetch_step, plan_fetch, FetchAction, FetchEvent, FetchStage, Library,
    LibraryDownload, LibraryDownloads, LibraryFetch, FALLBACK_HOST,
};
use neo_installer::manifest::{download_mc_jars, FileDownload, VersionDownloads, VersionManifest};
use neo_installer::meta::{LatestMeta, MetaIndex, Version, MOJANG_META_URL};
use neo_installer::mirrors::{choose_mirror, Mirror};
use neo_installer::profile::{setup_vars, NeoProfile};
use neo_installer::side::{Side, Sided};
use neo_installer::table::TokenMap;

const LIB: &str = "/work/libraries";
const BASE: &str = "/work/.installer";

fn library(name: &str) -> Library {
    Library {
        name: name.to_string(),
        downloads: LibraryDownloads {
            artifact: LibraryDownload {
                sha1: "da39a3ee5e6b4b0d3255bfef95601890afd80709".to_string(),
                size: 0,
                url: String::new(),
                path: String::new(),
            },
        },
    }
}

fn mirror(url: &str) -> Mirror {
    Mirror {
        name: "Mirror".to_string(),
        image: None,
        homepage: "https://example.org".to_string(),
        url: url.to_string(),
        advertised: true,
    }
}

fn profile_with(entries: &[(&str, &str, &str)], libraries: Vec<Library>) -> NeoProfile {
    let mut data = TokenMap::new();
    for (name, client, server) in entries {
        data.insert(
            name.to_string(),
            Sided { client: client.to_string(), server: server.to_string() },
        );
    }
    NeoProfile {
        spec: 1,
        profile: "NeoForge".to_string(),
        version: "neoforge-21.0.1".to_string(),
        icon: String::new(),
        minecraft: "1.21".to_string(),
        json: "/version.json".to_string(),
        logo: "/big_logo.png".to_string(),
        welcome: "Welcome".to_string(),
        mirror_list: "https://mirrors.example/list.json".to_string(),
        hide_extract: true,
        data,
        processors: Vec::new(),
        libraries,
        server_jar_path: "{LIBRARY_DIR}/net/minecraft/server/{MINECRAFT_VERSION}/server-{MINECRAFT_VERSION}.jar"
            .to_string(),
    }
}

fn plan() -> LibraryFetch {
    LibraryFetch {
        target: "/work/libraries/a/b/c/1.0/c-1.0.jar".to_string(),
        primary: "https://mirror.example/maven/a/b/c/1.0/c-1.0.jar".to_string(),
        fallback: "https://libraries.minecraft.net/a/b/c/1.0/c-1.0.jar".to_string(),
    }
}

fn run(events: &[FetchEvent]) -> Vec<FetchAction> {
    let plan = plan();
    let mut stage = FetchStage::Start;
    let mut actions = Vec::new();
    for event in events {
        let (next, action) = fetch_step(&plan, stage, *event);
        stage = next;
        actions.push(action);
    }
    actions
}

#[test]
fn the_fallback_host_is_the_canonical_one() {
    assert_eq!(FALLBACK_HOST, "https://libraries.minecraft.net");
}

#[test]
fn plan_fetch_asks_both_hosts_for_the_same_path() {
    assert_eq!(
        plan_fetch("a.b:c:1.0", LIB, "https://mirror.example/maven"),
        Ok(plan())
    );
    assert_eq!(
        plan_fetch("bad", LIB, "https://mirror.example/maven"),
        Err(InstallError::InvalidCoordinate("bad".to_string()))
    );
}

#[test]
fn a_file_that_is_there_is_not_fetched_again() {
    assert_eq!(
        run(&[FetchEvent::Begin, FetchEvent::Exists(true), FetchEvent::Begin]),
        vec![
            FetchAction::Check("/work/libraries/a/b/c/1.0/c-1.0.jar".to_string()),
            FetchAction::Stop,
            FetchAction::Stop,
        ]
    );
}

#[test]
fn the_mirror_is_asked_first() {
    assert_eq!(
        run(&[FetchEvent::Begin, FetchEvent::Exists(false), FetchEvent::Response(true), FetchEvent::Begin]),
        vec![
            FetchAction::Check("/work/libraries/a/b/c/1.0/c-1.0.jar".to_string()),
            FetchAction::Get("https://mirror.example/maven/a/b/c/1.0/c-1.0.jar".to_string()),
            FetchAction::Store("/work/libraries/a/b/c/1.0/c-1.0.jar".to_string()),
            FetchAction::Stop,
        ]
    );
}

#[test]
fn the_fallback_host_is_asked_when_the_mirror_fails() {
    assert_eq!(
        run(&[
            FetchEvent::Begin,
            FetchEvent::Exists(false),
            FetchEvent::Response(false),
            FetchEvent::Response(true),
            FetchEvent::Begin,
        ]),
        vec![
            FetchAction::Check("/work/libraries/a/b/c/1.0/c-1.0.jar".to_string()),
            FetchAction::Get("https://mirror.example/maven/a/b/c/1.0/c-1.0.jar".to_string()),
            FetchAction::Get("https://libraries.minecraft.net/a/b/c/1.0/c-1.0.jar".to_string()),
            FetchAction::Store("/work/libraries/a/b/c/1.0/c-1.0.jar".to_string()),
            FetchAction::Stop,
        ]
    );
}

#[test]
fn when_both_hosts_fail_the_fetch_warns_and_writes_nothing() {
    assert_eq!(
        run(&[
            FetchEvent::Begin,
            FetchEvent::Exists(false),
            FetchEvent::Response(false),
            FetchEvent::Response(false),
            FetchEvent::Begin,
            FetchEvent::Response(true),
        ]),
        vec![
            FetchAction::Check("/work/libraries/a/b/c/1.0/c-1.0.jar".to_string()),
            FetchAction::Get("https://mirror.example/maven/a/b/c/1.0/c-1.0.jar".to_string()),
            FetchAction::Get("https://libraries.minecraft.net/a/b/c/1.0/c-1.0.jar".to_string()),
            FetchAction::Warn("https://libraries.minecraft.net/a/b/c/1.0/c-1.0.jar".to_string()),
            FetchAction::Stop,
            FetchAction::Stop,
        ]
    );
}

#[test]
fn a_broken_step_ends_the_fetch() {
    assert_eq!(
        run(&[FetchEvent::Begin, FetchEvent::Broken, FetchEvent::Exists(false)]),
        vec![
            FetchAction::Check("/work/libraries/a/b/c/1.0/c-1.0.jar".to_string()),
            FetchAction::Stop,
            FetchAction::Stop,
        ]
    );
    assert_eq!(
        run(&[FetchEvent::Begin, FetchEvent::Exists(false), FetchEvent::Broken, FetchEvent::Response(true)]),
        vec![
            FetchAction::Check("/work/libraries/a/b/c/1.0/c-1.0.jar".to_string()),
            FetchAction::Get("https://mirror.example/maven/a/b/c/1.0/c-1.0.jar".to_string()),
            FetchAction::Stop,
            FetchAction::Stop,
        ]
    );
    assert_eq!(
        fetch_step(&plan(), FetchStage::Fallback, FetchEvent::Broken),
        (FetchStage::Done, FetchAction::Stop)
    );
    assert_eq!(
        fetch_step(&plan(), FetchStage::Fallback, FetchEvent::Exists(false)),
        (FetchStage::Done, FetchAction::Stop)
    );
}

#[test]
fn each_step_names_the_next_stage() {
    let plan = plan();
    assert_eq!(fetch_step(&plan, FetchStage::Start, FetchEvent::Begin).0, FetchStage::Checking);
    assert_eq!(fetch_step(&plan, FetchStage::Checking, FetchEvent::Exists(false)).0, FetchStage::Primary);
    assert_eq!(fetch_step(&plan, FetchStage::Checking, FetchEvent::Exists(true)).0, FetchStage::Done);
    assert_eq!(fetch_step(&plan, FetchStage::Primary, FetchEvent::Response(false)).0, FetchStage::Fallback);
    assert_eq!(fetch_step(&plan, FetchStage::Primary, FetchEvent::Response(true)).0, FetchStage::Done);
    assert_eq!(fetch_step(&plan, FetchStage::Fallback, FetchEvent::Response(false)).0, FetchStage::Done);
    assert_eq!(fetch_step(&plan, FetchStage::Fallback, FetchEvent::Response(true)).0, FetchStage::Done);
    assert_eq!(fetch_step(&plan, FetchStage::Done, FetchEvent::Exists(false)).0, FetchStage::Done);
}

#[test]
fn the_first_mirror_of_the_list_is_used() {
    let mirrors = vec![mirror("https://first.example"), mirror("https://second.example")];
    assert_eq!(choose_mirror(&mirrors), Ok("https://first.example"));
    assert_eq!(choose_mirror(&Vec::new()), Err(InstallError::NoMirror));
}

#[test]
fn download_libs_plans_one_fetch_for_each_library() {
    let profile = profile_with(&[], vec![library("a.b:c:1.0"), library("x:y:2:natives@zip")]);
    let mirrors = vec![mirror("https://mirror.example/maven"), mirror("https://unused.example")];
    assert_eq!(
        download_libs(&profile, LIB, &mirrors),
        Ok(vec![
            plan(),
            LibraryFetch {
                target: "/work/libraries/x/y/2/y-2-natives.zip".to_string(),
                primary: "https://mirror.example/maven/x/y/2/y-2-natives.zip".to_string(),
                fallback: "https://libraries.minecraft.net/x/y/2/y-2-natives.zip".to_string(),
            },
        ])
    );
    let empty = profile_with(&[], Vec::new());
    assert_eq!(download_libs(&empty, LIB, &mirrors), Ok(Vec::new()));
}

#[test]
fn download_libs_needs_a_mirror_and_coordinates() {
    let profile = profile_with(&[], vec![library("a.b:c:1.0"), library("bad"), library("worse")]);
    assert_eq!(download_libs(&profile, LIB, &Vec::new()), Err(InstallError::NoMirror));
    assert_eq!(
        download_libs(&profile, LIB, &vec![mirror("https://mirror.example")]),
        Err(InstallError::InvalidCoordinate("bad".to_string()))
    );
}

fn index() -> MetaIndex {
    let version = |id: &str, url: &str| Version {
        id: id.to_string(),
        kind: "release".to_string(),
        url: url.to_string(),
        time: "2024-06-13T08:32:38+00:00".to_string(),
        release_time: "2024-06-13T08:24:03+00:00".to_string(),
        sha1: "0000000000000000000000000000000000000000".to_string(),
        compliance_level: 1,
    };
    MetaIndex {
        latest: LatestMeta { release: "1.21".to_string(), snapshot: "24w33a".to_string() },
        versions: vec![
            version("24w33a", "https://meta.example/24w33a.json"),
            version("1.21", "https://meta.example/1.21.json"),
            version("1.20.6", "https://meta.example/1.20.6.json"),
            version("1.21", "https://meta.example/1.21-again.json"),
        ],
    }
}

#[test]
fn the_index_address_is_the_upstream_one() {
    assert_eq!(
        MOJANG_META_URL,
        "https://launchermeta.mojang.com/mc/game/version_manifest_v2.json"
    );
}

#[test]
fn the_first_version_with_the_id_is_found() {
    let index = index();
    assert_eq!(index.version_url("1.21"), Ok("https://meta.example/1.21.json"));
    assert_eq!(index.version_url("24w33a"), Ok("https://meta.example/24w33a.json"));
    assert_eq!(index.find("1.20.6").map(|v| v.url.as_str()), Some("https://meta.example/1.20.6.json"));
}

#[test]
fn a_version_that_the_index_lacks_is_reported() {
    let index = index();
    assert_eq!(
        index.version_url("1.19"),
        Err(InstallError::VersionNotFound("1.19".to_string()))
    );
    assert_eq!(index.version_url("1.2"), Err(InstallError::VersionNotFound("1.2".to_string())));
    assert!(index.find("").is_none());
}

fn manifest() -> VersionManifest {
    let file = |url: &str| FileDownload {
        sha1: "0000000000000000000000000000000000000000".to_string(),
        size: 1,
        url: url.to_string(),
    };
    VersionManifest {
        downloads: VersionDownloads {
            client: file("https://piston.example/client.jar"),
            client_mappings: file("https://piston.example/client.txt"),
            server: file("https://piston.example/server.jar"),
            server_mappings: file("https://piston.example/server.txt"),
        },
    }
}

#[test]
fn the_manifest_gives_the_addresses_of_a_side() {
    let manifest = manifest();
    assert_eq!(manifest.jar(Side::Client), "https://piston.example/client.jar");
    assert_eq!(manifest.jar(Side::Server), "https://piston.example/server.jar");
    assert_eq!(manifest.mappings(Side::Client), "https://piston.example/client.txt");
    assert_eq!(manifest.mappings(Side::Server), "https://piston.example/server.txt");
}

fn game_profile() -> NeoProfile {
    profile_with(
        &[
            ("MINECRAFT_JAR", "[net.minecraft:client:1.21]", "[net.minecraft:server:1.21]"),
            ("MOJMAPS", "[net.minecraft:client:1.21:mappings@txt]", "[net.minecraft:server:1.21:mappings@txt]"),
        ],
        Vec::new(),
    )
}

#[test]
fn the_client_fetches_its_archive_and_mappings() {
    let profile = game_profile();
    let vars = setup_vars(&profile, Side::Client, LIB, BASE, "/i.jar").unwrap();
    assert_eq!(
        download_mc_jars(&profile, &vars, Side::Client, LIB, BASE, &manifest()),
        Ok(vec![
            Download {
                path: "/work/libraries/net/minecraft/client/1.21/client-1.21.jar".to_string(),
                url: "https://piston.example/client.jar".to_string(),
            },
            Download {
                path: "/work/libraries/net/minecraft/client/1.21/client-1.21-mappings.txt".to_string(),
                url: "https://piston.example/client.txt".to_string(),
            },
        ])
    );
}

#[test]
fn the_server_fetches_its_archive_once_more_to_the_server_path() {
    let profile = game_profile();
    let vars = setup_vars(&profile, Side::Server, LIB, BASE, "/i.jar").unwrap();
    assert_eq!(
        download_mc_jars(&profile, &vars, Side::Server, LIB, BASE, &manifest()),
        Ok(vec![
            Download {
                path: "/work/libraries/net/minecraft/server/1.21/server-1.21.jar".to_string(),
                url: "https://piston.example/server.jar".to_string(),
            },
            Download {
                path: "/work/libraries/net/minecraft/server/1.21/server-1.21-mappings.txt".to_string(),
                url: "https://piston.example/server.txt".to_string(),
            },
            Download {
                path: "/work/libraries/net/minecraft/server/1.21/server-1.21.jar".to_string(),
                url: "https://piston.example/server.jar".to_string(),
            },
        ])
    );
}

#[test]
fn the_game_files_need_their_tokens() {
    let profile = profile_with(&[("MINECRAFT_JAR", "[a:b:1]", "[a:b:1]")], Vec::new());
    let vars = setup_vars(&profile, Side::Client, LIB, BASE, "/i.jar").unwrap();
    assert_eq!(
        download_mc_jars(&profile, &vars, Side::Client, LIB, BASE, &manifest()),
        Err(InstallError::MissingToken("MOJMAPS".to_string()))
    );
    let profile = profile_with(&[("MOJMAPS", "[a:b:1]", "[a:b:1]")], Vec::new());
    assert_eq!(
        download_mc_jars(&profile, &vars, Side::Client, LIB, BASE, &manifest()),
        Err(InstallError::MissingToken("MINECRAFT_JAR".to_string()))
    );
    let profile = game_profile();
    let no_vars: TokenMap<String> = TokenMap::new();
    assert_eq!(
        download_mc_jars(&profile, &no_vars, Side::Server, LIB, BASE, &manifest()),
        Err(InstallError::MissingToken("LIBRARY_DIR".to_string()))
    );
    assert_eq!(
        download_mc_jars(&profile, &no_vars, Side::Client, LIB, BASE, &manifest()).map(|v| v.len()),
        Ok(2)
    );
}

#[test]
fn a_download_whose_file_is_there_is_left_alone() {
    let download = Download { path: "/a/b.jar".to_string(), url: "https://h/b.jar".to_string() };
    assert_eq!(download_if_needed(&download, true), None);
    assert_eq!(download_if_needed(&download, false), Some("https://h/b.jar"));
}
