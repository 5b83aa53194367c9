//! The ways in which an installation fails for good.

use crate::seqs::views;
use crate::text;
use vstd::prelude::*;

verus! {

/// A fatal condition. Each one ends the installation at once; the text it
/// carries names what it was found on.
#[derive(Debug, PartialEq, Eq)]
pub enum InstallError {
    /// A token was asked for that the table does not hold; carries its name.
    MissingToken(String),
    /// A text stands where a coordinate is due and has no artifact or no
    /// version; carries the text.
    InvalidCoordinate(String),
    /// The version index has no entry for the target game version; carries
    /// the version id.
    VersionNotFound(String),
    /// The mirror list holds no mirror.
    NoMirror,
    /// A path is to be handed on relative to the working directory and does
    /// not lie under it; carries the path.
    OutsideWorkDir(String),
    /// The processor's own archive is not in the library directory; carries
    /// the archive's coordinate.
    ProcessorJarMissing(String),
    /// An archive cannot be read; carries the coordinate of a processor's
    /// archive, and the path of the installer's.
    ArchiveUnreadable(String),
    /// The processor's archive declares no main entry point; carries its
    /// coordinate.
    EntryPointNotFound(String),
    /// The processor ran and reported failure; carries its coordinate.
    ProcessorFailed(String),
    /// The installer archive holds no install profile that can be read;
    /// carries the installer's path.
    ProfileMissing(String),
}

/// What an `InstallError` stands for, its texts taken as sequences.
pub enum Fault {
    MissingToken(Seq<char>),
    InvalidCoordinate(Seq<char>),
    VersionNotFound(Seq<char>),
    NoMirror,
    OutsideWorkDir(Seq<char>),
    ProcessorJarMissing(Seq<char>),
    ArchiveUnreadable(Seq<char>),
    EntryPointNotFound(Seq<char>),
    ProcessorFailed(Seq<char>),
    ProfileMissing(Seq<char>),
}

impl View for InstallError {
    type V = Fault;

    open spec fn view(&self) -> Fault {
        match self {
            InstallError::MissingToken(s) => Fault::MissingToken(s@),
            InstallError::InvalidCoordinate(s) => Fault::InvalidCoordinate(s@),
            InstallError::VersionNotFound(s) => Fault::VersionNotFound(s@),
            InstallError::NoMirror => Fault::NoMirror,
            InstallError::OutsideWorkDir(s) => Fault::OutsideWorkDir(s@),
            InstallError::ProcessorJarMissing(s) => Fault::ProcessorJarMissing(s@),
            InstallError::ArchiveUnreadable(s) => Fault::ArchiveUnreadable(s@),
            InstallError::EntryPointNotFound(s) => Fault::EntryPointNotFound(s@),
            InstallError::ProcessorFailed(s) => Fault::ProcessorFailed(s@),
            InstallError::ProfileMissing(s) => Fault::ProfileMissing(s@),
        }
    }
}

/// A text or the fault that stands in its place.
pub open spec fn text_result(r: Result<String, InstallError>) -> Result<Seq<char>, Fault> {
    match r {
        Ok(s) => Ok(s@),
        Err(e) => Err(e@),
    }
}

/// Texts or the fault that stands in their place.
pub open spec fn texts_result(r: Result<Vec<String>, InstallError>) -> Result<
    Seq<Seq<char>>,
    Fault,
> {
    match r {
        Ok(v) => Ok(views(v@)),
        Err(e) => Err(e@),
    }
}

impl Clone for InstallError {
    /// An error of the same kind with the same text.
    fn clone(&self) -> (r: Self)
        ensures
            r@ == self@,
    {
        match self {
            InstallError::MissingToken(s) => InstallError::MissingToken(s.clone()),
            InstallError::InvalidCoordinate(s) => InstallError::InvalidCoordinate(s.clone()),
            InstallError::VersionNotFound(s) => InstallError::VersionNotFound(s.clone()),
            InstallError::NoMirror => InstallError::NoMirror,
            InstallError::OutsideWorkDir(s) => InstallError::OutsideWorkDir(s.clone()),
            InstallError::ProcessorJarMissing(s) => InstallError::ProcessorJarMissing(s.clone()),
            InstallError::ArchiveUnreadable(s) => InstallError::ArchiveUnreadable(s.clone()),
            InstallError::EntryPointNotFound(s) => InstallError::EntryPointNotFound(s.clone()),
            InstallError::ProcessorFailed(s) => InstallError::ProcessorFailed(s.clone()),
            InstallError::ProfileMissing(s) => InstallError::ProfileMissing(s.clone()),
        }
    }
}

impl Fault {
    /// The sentence that reports the fault to the operator.
    pub open spec fn message(self) -> Seq<char> {
        match self {
            Fault::MissingToken(s) => "Missing token: "@ + s,
            Fault::InvalidCoordinate(s) => "Invalid coordinate: "@ + s,
            Fault::VersionNotFound(s) => "Failed to find Minecraft version info: "@ + s,
            Fault::NoMirror => "The mirror list is empty"@,
            Fault::OutsideWorkDir(s) => "Path outside the working directory: "@ + s,
            Fault::ProcessorJarMissing(s) => "Failed to find processor JAR: "@ + s,
            Fault::ArchiveUnreadable(s) => "Failed to read JAR: "@ + s,
            Fault::EntryPointNotFound(s) => "Failed to find main class in JAR: "@ + s,
            Fault::ProcessorFailed(s) => "Processor failed: "@ + s,
            Fault::ProfileMissing(s) => "Failed to find the install profile in: "@ + s,
        }
    }
}

impl InstallError {
    /// The sentence that reports the error to the operator.
    pub fn message(&self) -> (r: String)
        ensures
            r@ == self@.message(),
    {
        let mut out: Vec<char> = Vec::new();
        match self {
            InstallError::MissingToken(s) => {
                text::push_str(&mut out, "Missing token: ");
                text::push_str(&mut out, s.as_str());
            },
            InstallError::InvalidCoordinate(s) => {
                text::push_str(&mut out, "Invalid coordinate: ");
                text::push_str(&mut out, s.as_str());
            },
            InstallError::VersionNotFound(s) => {
                text::push_str(&mut out, "Failed to find Minecraft version info: ");
                text::push_str(&mut out, s.as_str());
            },
            InstallError::NoMirror => {
                text::push_str(&mut out, "The mirror list is empty");
            },
            InstallError::OutsideWorkDir(s) => {
                text::push_str(&mut out, "Path outside the working directory: ");
                text::push_str(&mut out, s.as_str());
            },
            InstallError::ProcessorJarMissing(s) => {
                text::push_str(&mut out, "Failed to find processor JAR: ");
                text::push_str(&mut out, s.as_str());
            },
            InstallError::ArchiveUnreadable(s) => {
                text::push_str(&mut out, "Failed to read JAR: ");
                text::push_str(&mut out, s.as_str());
            },
            InstallError::EntryPointNotFound(s) => {
                text::push_str(&mut out, "Failed to find main class in JAR: ");
                text::push_str(&mut out, s.as_str());
            },
            InstallError::ProcessorFailed(s) => {
                text::push_str(&mut out, "Processor failed: ");
                text::push_str(&mut out, s.as_str());
            },
            InstallError::ProfileMissing(s) => {
                text::push_str(&mut out, "Failed to find the install profile in: ");
                text::push_str(&mut out, s.as_str());
            },
        }
        assert(out@ =~= self@.message());
        text::string_of(&out)
    }
}

} // verus!
