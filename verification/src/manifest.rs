//! The manifest of one game version, and the game files that an
//! installation fetches.

use crate::download::{download_views, Download, DownloadView};
use crate::error::{Fault, InstallError};
use crate::processors::{render, rendered};
use crate::profile::{resolve, NeoProfile};
use crate::side::Side;
use crate::table::TokenMap;
use vstd::prelude::*;

verus! {

/// A file of a game version: where it is offered, with its size and hash.
/// The hash is carried along and not checked.
#[derive(Debug, Clone)]
pub struct FileDownload {
    pub sha1: String,
    pub size: u64,
    pub url: String,
}

/// The files of a game version.
#[derive(Debug, Clone)]
pub struct VersionDownloads {
    pub client: FileDownload,
    pub client_mappings: FileDownload,
    pub server: FileDownload,
    pub server_mappings: FileDownload,
}

/// The manifest of a game version, as far as an installation reads it.
#[derive(Debug, Clone)]
pub struct VersionManifest {
    pub downloads: VersionDownloads,
}

impl VersionManifest {
    /// Where the game's archive for `side` is offered.
    pub open spec fn jar_url(&self, side: Side) -> Seq<char> {
        match side {
            Side::Client => self.downloads.client.url@,
            Side::Server => self.downloads.server.url@,
        }
    }

    /// Where the game's mappings for `side` are offered.
    pub open spec fn mappings_url(&self, side: Side) -> Seq<char> {
        match side {
            Side::Client => self.downloads.client_mappings.url@,
            Side::Server => self.downloads.server_mappings.url@,
        }
    }

    /// Where the game's archive for `side` is offered.
    pub fn jar(&self, side: Side) -> (r: String)
        ensures
            r@ == self.jar_url(side),
    {
        match side {
            Side::Client => self.downloads.client.url.clone(),
            Side::Server => self.downloads.server.url.clone(),
        }
    }

    /// Where the game's mappings for `side` are offered.
    pub fn mappings(&self, side: Side) -> (r: String)
        ensures
            r@ == self.mappings_url(side),
    {
        match side {
            Side::Client => self.downloads.client_mappings.url.clone(),
            Side::Server => self.downloads.server_mappings.url.clone(),
        }
    }
}

/// The game files of an installation for `side`: the game's archive, to
/// where the token `MINECRAFT_JAR` stands for; the mappings, to where
/// `MOJMAPS` stands for; and for the server, the server's archive once
/// more, to the path that the template `server_jar_path` renders to.
pub open spec fn game_downloads_of(
    tokens: Map<Seq<char>, crate::side::Sided<Seq<char>>>,
    server_jar_path: Seq<char>,
    vars: Map<Seq<char>, Seq<char>>,
    side: Side,
    lib: Seq<char>,
    base: Seq<char>,
    manifest: VersionManifest,
) -> Result<Seq<DownloadView>, Fault> {
    match resolve(tokens, "MINECRAFT_JAR"@, side, lib, base) {
        Err(e) => Err(e),
        Ok(jar) => match resolve(tokens, "MOJMAPS"@, side, lib, base) {
            Err(e) => Err(e),
            Ok(mappings) => {
                let both = seq![
                    DownloadView { path: jar, url: manifest.jar_url(side) },
                    DownloadView { path: mappings, url: manifest.mappings_url(side) },
                ];
                if side == Side::Server {
                    match rendered(server_jar_path, vars) {
                        Err(e) => Err(e),
                        Ok(path) => Ok(
                            both.push(
                                DownloadView { path, url: manifest.jar_url(Side::Server) },
                            ),
                        ),
                    }
                } else {
                    Ok(both)
                }
            },
        },
    }
}

/// The game files of an installation of `data` for `side`, given the
/// manifest of the profile's game version.
pub fn download_mc_jars(
    data: &NeoProfile,
    vars: &TokenMap<String>,
    side: Side,
    lib_path: &str,
    base_path: &str,
    manifest: &VersionManifest,
) -> (r: Result<Vec<Download>, InstallError>)
    ensures
        match r {
            Ok(v) => game_downloads_of(
                data.tokens(),
                data.server_jar_path@,
                vars.texts(),
                side,
                lib_path@,
                base_path@,
                *manifest,
            ) == Ok::<Seq<DownloadView>, Fault>(download_views(v@)),
            Err(e) => game_downloads_of(
                data.tokens(),
                data.server_jar_path@,
                vars.texts(),
                side,
                lib_path@,
                base_path@,
                *manifest,
            ) == Err::<Seq<DownloadView>, Fault>(e@),
        },
{
    let jar = match data.data("MINECRAFT_JAR", side, lib_path, base_path) {
        Ok(path) => path,
        Err(e) => {
            return Err(e);
        },
    };
    let mappings = match data.data("MOJMAPS", side, lib_path, base_path) {
        Ok(path) => path,
        Err(e) => {
            return Err(e);
        },
    };
    let mut out: Vec<Download> = Vec::new();
    out.push(Download { path: jar, url: manifest.jar(side) });
    out.push(Download { path: mappings, url: manifest.mappings(side) });
    let ghost both = download_views(out@);
    assert(both =~= seq![
        DownloadView { path: jar@, url: manifest.jar_url(side) },
        DownloadView { path: mappings@, url: manifest.mappings_url(side) },
    ]);
    match side {
        Side::Server => {
            match render(data.server_jar_path.as_str(), vars) {
                Ok(path) => {
                    out.push(Download { path, url: manifest.jar(Side::Server) });
                    assert(download_views(out@) =~= both.push(
                        DownloadView { path: path@, url: manifest.jar_url(Side::Server) },
                    ));
                },
                Err(e) => {
                    return Err(e);
                },
            }
        },
        Side::Client => {},
    }
    Ok(out)
}

} // verus!
