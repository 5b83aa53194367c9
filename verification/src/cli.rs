//! What a run is asked to do, where it puts its files, and what it takes
//! out of the installer archive.

use crate::archive::{
    archive_names, archive_opens, content_of, text_of, Archive, EntryBytes, EntryContent,
    EntryRead, EntryState,
};
use crate::error::{Fault, InstallError};
use crate::maven::{is_coordinate, maven_path, path_chars};
use crate::path::{join_chars, join_path, url_of};
use crate::processors::located;
use crate::seqs::{first_index, lemma_first_index, lemma_first_index_is, views};
use crate::side::Side;
use crate::text;
use vstd::prelude::*;

verus! {

/// The host that offers the installers.
pub const NEO_MAVEN: &'static str = "https://maven.neoforged.net/releases";

/// The name of the section of an executable that holds the version to
/// install.
pub const EMBEDDED_VERSION_SECTION: &'static str = "__neo_version";

/// What the program is asked to do.
#[derive(Debug, Clone)]
pub struct Cli {
    pub command: Commands,
}

/// What a program with an embedded version is asked to do: to install that
/// version.
#[derive(Debug, Clone)]
pub struct AutoCli {
    /// The side to install for.
    pub side: Side,
    /// The target path to install to.
    pub target: String,
    /// Keep files created during installation.
    pub keep: bool,
    /// The path to the Java executable to use when running processors.
    pub java: String,
}

/// The commands of the program.
#[derive(Debug, Clone)]
pub enum Commands {
    /// Generate an automated installer for a specific version.
    Generate {
        /// The version to install.
        neo: String,
        /// The path to output the generated executable.
        output: String,
    },
    /// Install a version.
    Install {
        /// The side to install for.
        side: Side,
        /// The version to install.
        neo: String,
        /// The target path to install to.
        target: String,
        /// Keep files created during installation.
        keep: bool,
        /// The path to the Java executable to use when running processors.
        java: String,
    },
}

impl AutoCli {
    /// The request to install the version `neo` with these options.
    pub fn into_cli(self, neo: String) -> (r: Cli)
        ensures
            r.command == (Commands::Install {
                side: self.side,
                neo,
                target: self.target,
                keep: self.keep,
                java: self.java,
            }),
    {
        Cli {
            command: Commands::Install {
                side: self.side,
                neo,
                target: self.target,
                keep: self.keep,
                java: self.java,
            },
        }
    }
}

/// The files and directories of an installation.
#[derive(Debug, Clone, PartialEq, Eq)]
pub struct InstallLayout {
    /// The directory that is installed into.
    pub work_dir: String,
    /// The scratch directory of the installation.
    pub base_path: String,
    /// The directory of the libraries.
    pub lib_path: String,
    /// The directory of the data files that the installer brings.
    pub data_path: String,
    /// The installer archive.
    pub jar_path: String,
    /// Where the installer archive is offered.
    pub jar_url: String,
}

/// What an `InstallLayout` stands for.
pub struct LayoutView {
    pub work_dir: Seq<char>,
    pub base_path: Seq<char>,
    pub lib_path: Seq<char>,
    pub data_path: Seq<char>,
    pub jar_path: Seq<char>,
    pub jar_url: Seq<char>,
}

impl View for InstallLayout {
    type V = LayoutView;

    open spec fn view(&self) -> LayoutView {
        LayoutView {
            work_dir: self.work_dir@,
            base_path: self.base_path@,
            lib_path: self.lib_path@,
            data_path: self.data_path@,
            jar_path: self.jar_path@,
            jar_url: self.jar_url@,
        }
    }
}

/// The coordinate of the installer of the version `neo`.
pub open spec fn installer_coordinate(neo: Seq<char>) -> Seq<char> {
    "net.neoforged:neoforge:"@ + neo + ":installer"@
}

/// The layout of an installation of the version `neo` into `work_dir`:
/// the scratch directory `.installer` and the directory `libraries` in the
/// working directory, the data directory and the installer archive in the
/// scratch directory, and the installer's address on the host.
pub open spec fn layout_of(work_dir: Seq<char>, neo: Seq<char>) -> LayoutView {
    LayoutView {
        work_dir,
        base_path: join_path(work_dir, ".installer"@),
        lib_path: join_path(work_dir, "libraries"@),
        data_path: join_path(join_path(work_dir, ".installer"@), "data"@),
        jar_path: join_path(join_path(work_dir, ".installer"@), "installer.jar"@),
        jar_url: url_of(
            "https://maven.neoforged.net/releases"@,
            maven_path(installer_coordinate(neo)),
        ),
    }
}

/// The installer's coordinate is a coordinate, whatever the version is.
pub proof fn lemma_installer_coordinate(neo: Seq<char>)
    ensures
        is_coordinate(installer_coordinate(neo)),
{
    reveal_strlit("net.neoforged:neoforge:");
    let p = "net.neoforged:neoforge:"@;
    let s = installer_coordinate(neo);
    assert(p.len() == 23);
    assert forall|j: int| 0 <= j < 23 implies s[j] == p[j] by {}
    lemma_first_index(s, '@');
    let at = first_index(s, '@');
    if at < 23 {
        assert(s[at] == p[at]);
        assert(false);
    }
    let main = s.take(at);
    assert forall|j: int| 0 <= j < 23 implies main[j] == p[j] by {
        assert(main[j] == s[j]);
    }
    assert forall|j: int| 0 <= j < 13 implies main[j] != ':' by {
        assert(main[j] == p[j]);
    }
    assert(main[13] == p[13]);
    lemma_first_index_is(main, ':', 13);
    let rest = main.skip(14);
    assert forall|j: int| 0 <= j < 8 implies rest[j] != ':' by {
        assert(rest[j] == p[j + 14]);
    }
    assert(rest[8] == p[22]);
    lemma_first_index_is(rest, ':', 8);
}

/// In the layout of an installation, every file of the library directory
/// lies in the working directory: seen from there, the file of a
/// coordinate is its path below `libraries`, whatever the working
/// directory is.
pub proof fn lemma_libraries_are_inside(work_dir: Seq<char>, neo: Seq<char>, coordinate: Seq<char>)
    requires
        is_coordinate(coordinate),
    ensures
        located(coordinate, layout_of(work_dir, neo).lib_path, work_dir) == Ok::<Seq<char>, Fault>(
            "libraries"@ + seq!['/'] + maven_path(coordinate),
        ),
{
    reveal_strlit("libraries");
    let name = "libraries"@;
    let lib = join_path(work_dir, name);
    let path = maven_path(coordinate);
    let full = join_path(lib, path);
    assert(name.len() == 9);
    assert(name[8] == 's');
    assert(lib.len() > 0 && lib.last() == 's');
    assert(full == lib + seq!['/'] + path);
    if work_dir.len() == 0 {
        assert(full =~= name + seq!['/'] + path);
    } else if work_dir.last() == '/' {
        assert(full =~= work_dir + (name + seq!['/'] + path));
        assert(full != work_dir);
        assert(work_dir.is_prefix_of(full));
        assert(full.skip(work_dir.len() as int) =~= name + seq!['/'] + path);
    } else {
        assert(full =~= work_dir + seq!['/'] + (name + seq!['/'] + path));
        assert(full != work_dir);
        assert((work_dir + seq!['/']).is_prefix_of(full));
        assert(full.skip(work_dir.len() as int + 1) =~= name + seq!['/'] + path);
    }
}

/// The layout of an installation of the version `neo` into `work_dir`.
pub fn layout(work_dir: &str, neo: &str) -> (r: InstallLayout)
    ensures
        r@ == layout_of(work_dir@, neo@),
{
    let work = text::chars_of(work_dir);
    let base = join_chars(&work, &text::chars_of(".installer"));
    let lib = join_chars(&work, &text::chars_of("libraries"));
    let data = join_chars(&base, &text::chars_of("data"));
    let jar = join_chars(&base, &text::chars_of("installer.jar"));
    let mut coordinate = text::chars_of("net.neoforged:neoforge:");
    text::push_str(&mut coordinate, neo);
    text::push_str(&mut coordinate, ":installer");
    proof {
        lemma_installer_coordinate(neo@);
    }
    let rel = match path_chars(&coordinate) {
        Some(rel) => rel,
        None => unreached(),
    };
    let mut url = text::chars_of(NEO_MAVEN);
    url.push('/');
    text::push_all(&mut url, &rel);
    assert(url@ =~= url_of(NEO_MAVEN@, rel@));
    InstallLayout {
        work_dir: text::string_of(&work),
        base_path: text::string_of(&base),
        lib_path: text::string_of(&lib),
        data_path: text::string_of(&data),
        jar_path: text::string_of(&jar),
        jar_url: text::string_of(&url),
    }
}

/// Whether the entry `name` of the installer is a data file: it lies in
/// the directory `data/` and is not that directory itself.
pub open spec fn is_data_name(name: Seq<char>) -> bool {
    "data/"@.is_prefix_of(name) && name != "data/"@
}

/// Whether the entry `name` of the installer is a data file.
pub fn is_data_entry(name: &str) -> (r: bool)
    ensures
        r == is_data_name(name@),
{
    let n = text::chars_of(name);
    let dir = text::chars_of("data/");
    text::starts_with(&n, "data/") && !text::same(&n, &dir)
}

/// A data file of the installer: its entry in the archive, the file it is
/// written to, and what it holds.
#[derive(Debug, Clone, PartialEq, Eq)]
pub struct DataFile {
    pub entry: String,
    pub path: String,
    pub content: Vec<u8>,
}

/// What a `DataFile` stands for.
pub struct DataFileView {
    pub entry: Seq<char>,
    pub path: Seq<char>,
    pub content: Seq<u8>,
}

impl View for DataFile {
    type V = DataFileView;

    open spec fn view(&self) -> DataFileView {
        DataFileView { entry: self.entry@, path: self.path@, content: self.content@ }
    }
}

/// What the data files `v` stand for, in their order.
pub open spec fn data_file_views(v: Seq<DataFile>) -> Seq<DataFileView> {
    Seq::new(v.len(), |i: int| v[i]@)
}

/// The data files among the entries `names` of the archive `bytes`, in
/// their order: each with what its entry holds, and with its file below
/// the scratch directory `base` under the entry's name. Nothing where one
/// of them cannot be read.
pub open spec fn data_files_of(bytes: Seq<u8>, names: Seq<Seq<char>>, base: Seq<char>) -> Option<
    Seq<DataFileView>,
>
    decreases names.len(),
{
    if names.len() == 0 {
        Some(Seq::empty())
    } else {
        match data_files_of(bytes, names.drop_last(), base) {
            None => None,
            Some(done) => if !is_data_name(names.last()) {
                Some(done)
            } else {
                match content_of(bytes, names.last()) {
                    EntryContent::Bytes(content) => Some(
                        done.push(
                            DataFileView {
                                entry: names.last(),
                                path: join_path(base, names.last()),
                                content,
                            },
                        ),
                    ),
                    _ => None,
                }
            },
        }
    }
}

/// Where the first entries hold a data file that cannot be read, so do
/// all.
proof fn lemma_data_files_fault(bytes: Seq<u8>, names: Seq<Seq<char>>, i: int, base: Seq<char>)
    requires
        0 <= i < names.len(),
        data_files_of(bytes, names.take(i + 1), base) is None,
    ensures
        data_files_of(bytes, names, base) is None,
    decreases names.len(),
{
    if i + 1 < names.len() {
        assert(names.drop_last().take(i + 1) =~= names.take(i + 1));
        lemma_data_files_fault(bytes, names.drop_last(), i, base);
    } else {
        assert(names.take(i + 1) =~= names);
    }
}

/// The data files among the entries `names` of `archive`.
pub fn data_files(archive: &mut Archive, names: &Vec<String>, base_path: &str) -> (r: Option<
    Vec<DataFile>,
>)
    ensures
        final(archive).bytes() == old(archive).bytes(),
        match r {
            Some(files) => data_files_of(old(archive).bytes(), views(names@), base_path@) == Some(
                data_file_views(files@),
            ),
            None => data_files_of(old(archive).bytes(), views(names@), base_path@) is None,
        },
{
    let mut out: Vec<DataFile> = Vec::new();
    let base = text::chars_of(base_path);
    let mut i: usize = 0;
    let ghost all = views(names@);
    let ghost bytes = archive.bytes();
    assert(all.take(0) =~= Seq::<Seq<char>>::empty());
    assert(data_file_views(out@) =~= Seq::<DataFileView>::empty());
    while i < names.len()
        invariant
            i <= names.len(),
            all == views(names@),
            base@ == base_path@,
            archive.bytes() == bytes,
            old(archive).bytes() == bytes,
            data_files_of(bytes, all.take(i as int), base_path@) == Some(data_file_views(out@)),
        decreases names.len() - i,
    {
        let ghost done = data_file_views(out@);
        assert(all.take(i + 1).drop_last() =~= all.take(i as int));
        assert(all.take(i + 1).last() == names@[i as int]@);
        if is_data_entry(names[i].as_str()) {
            match archive.read(names[i].as_str()) {
                EntryBytes::Bytes(content) => {
                    let entry = names[i].clone();
                    let path = text::string_of(&join_chars(&base, &text::chars_of(entry.as_str())));
                    out.push(DataFile { entry, path, content });
                    assert(data_file_views(out@) =~= done.push(
                        DataFileView { entry: entry@, path: path@, content: content@ },
                    ));
                },
                _ => {
                    proof {
                        lemma_data_files_fault(bytes, all, i as int, base_path@);
                    }
                    return None;
                },
            }
        }
        i = i + 1;
    }
    assert(all.take(names@.len() as int) =~= all);
    Some(out)
}

/// What an installation takes out of the installer archive: the text of
/// the install profile, and the data files to write.
#[derive(Debug, Clone, PartialEq, Eq)]
pub struct InstallerFiles {
    pub profile_json: String,
    pub data_files: Vec<DataFile>,
}

/// What an `InstallerFiles` stands for.
pub struct InstallerFilesView {
    pub profile_json: Seq<char>,
    pub data_files: Seq<DataFileView>,
}

impl View for InstallerFiles {
    type V = InstallerFilesView;

    open spec fn view(&self) -> InstallerFilesView {
        InstallerFilesView {
            profile_json: self.profile_json@,
            data_files: data_file_views(self.data_files@),
        }
    }
}

/// The name of the install profile in the installer archive.
pub open spec fn profile_name() -> Seq<char> {
    "install_profile.json"@
}

/// What the installer archive `bytes` holds for the installation. Bytes
/// that are no archive are a fault; so is an archive whose install profile
/// is missing or is no text, or one of whose data files cannot be read.
/// `jar` is the archive's path, for the fault.
pub open spec fn installer_files_of(bytes: Seq<u8>, jar: Seq<char>, base: Seq<char>) -> Result<
    InstallerFilesView,
    Fault,
> {
    if !archive_opens(bytes) {
        Err(Fault::ArchiveUnreadable(jar))
    } else {
        match text_of(content_of(bytes, profile_name())) {
            EntryState::Missing => Err(Fault::ProfileMissing(jar)),
            EntryState::Unreadable => Err(Fault::ArchiveUnreadable(jar)),
            EntryState::Text(profile_json) => match data_files_of(
                bytes,
                archive_names(bytes),
                base,
            ) {
                Some(data_files) => Ok(InstallerFilesView { profile_json, data_files }),
                None => Err(Fault::ArchiveUnreadable(jar)),
            },
        }
    }
}

/// Reads the installer archive `bytes`. `jar_path` is the archive's path,
/// for the error; `base_path` is the scratch directory below which the
/// data files go.
pub fn read_installer_files(bytes: Vec<u8>, jar_path: &str, base_path: &str) -> (r: Result<
    InstallerFiles,
    InstallError,
>)
    ensures
        match r {
            Ok(files) => installer_files_of(bytes@, jar_path@, base_path@) == Ok::<
                InstallerFilesView,
                Fault,
            >(files@),
            Err(e) => installer_files_of(bytes@, jar_path@, base_path@) == Err::<
                InstallerFilesView,
                Fault,
            >(e@),
        },
{
    let mut archive = match Archive::open(bytes) {
        Some(archive) => archive,
        None => {
            return Err(InstallError::ArchiveUnreadable(jar_path.to_owned()));
        },
    };
    let profile_json = match archive.read_text("install_profile.json") {
        EntryRead::Text(text) => text,
        EntryRead::Missing => {
            return Err(InstallError::ProfileMissing(jar_path.to_owned()));
        },
        EntryRead::Unreadable => {
            return Err(InstallError::ArchiveUnreadable(jar_path.to_owned()));
        },
    };
    let names = archive.names();
    match data_files(&mut archive, &names, base_path) {
        Some(data_files) => Ok(InstallerFiles { profile_json, data_files }),
        None => Err(InstallError::ArchiveUnreadable(jar_path.to_owned())),
    }
}

} // verus!
