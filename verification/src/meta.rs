//! The index of game versions.

use crate::error::{Fault, InstallError};
use crate::text;
use vstd::prelude::*;

verus! {

/// Where the index of game versions is offered.
pub const MOJANG_META_URL: &'static str =
    "https://launchermeta.mojang.com/mc/game/version_manifest_v2.json";

/// The index of game versions.
#[derive(Debug, Clone)]
pub struct MetaIndex {
    pub latest: LatestMeta,
    pub versions: Vec<Version>,
}

/// The ids of the latest versions.
#[derive(Debug, Clone)]
pub struct LatestMeta {
    pub release: String,
    pub snapshot: String,
}

/// One game version of the index; `url` is where its manifest is offered.
#[derive(Debug, Clone)]
pub struct Version {
    pub id: String,
    pub kind: String,
    pub url: String,
    pub time: String,
    pub release_time: String,
    pub sha1: String,
    pub compliance_level: u8,
}

/// The number of versions at the front of `versions` whose id is not `id`:
/// the index of the first version with that id, or the length of the list.
pub open spec fn first_version(versions: Seq<Version>, id: Seq<char>) -> int
    decreases versions.len(),
{
    if versions.len() == 0 || versions[0].id@ == id {
        0
    } else {
        1 + first_version(versions.skip(1), id)
    }
}

/// Where the manifest of the version `id` is offered: the address that the
/// first version with that id gives.
pub open spec fn version_url_of(versions: Seq<Version>, id: Seq<char>) -> Result<
    Seq<char>,
    Fault,
> {
    if 0 <= first_version(versions, id) < versions.len() {
        Ok(versions[first_version(versions, id)].url@)
    } else {
        Err(Fault::VersionNotFound(id))
    }
}

/// An index with no version of that id in front of it, which holds such a
/// version or is the length of the list, is `first_version`.
proof fn lemma_first_version_is(versions: Seq<Version>, id: Seq<char>, i: int)
    requires
        0 <= i <= versions.len(),
        forall|j: int| 0 <= j < i ==> versions[j].id@ != id,
        i < versions.len() ==> versions[i].id@ == id,
    ensures
        first_version(versions, id) == i,
    decreases versions.len(),
{
    if versions.len() == 0 || versions[0].id@ == id {
    } else {
        let rest = versions.skip(1);
        assert forall|j: int| 0 <= j < i - 1 implies rest[j].id@ != id by {
            assert(rest[j] == versions[j + 1]);
        }
        if i < versions.len() {
            assert(rest[i - 1] == versions[i]);
        }
        lemma_first_version_is(rest, id, i - 1);
    }
}

impl MetaIndex {
    /// The first version of the index whose id is `id`.
    pub fn find(&self, id: &str) -> (r: Option<&Version>)
        ensures
            match r {
                Some(v) => 0 <= first_version(self.versions@, id@) < self.versions@.len() && *v
                    == self.versions@[first_version(self.versions@, id@)],
                None => first_version(self.versions@, id@) == self.versions@.len(),
            },
    {
        let mut i: usize = 0;
        while i < self.versions.len()
            invariant
                i <= self.versions.len(),
                forall|j: int| 0 <= j < i ==> self.versions@[j].id@ != id@,
            decreases self.versions.len() - i,
        {
            if text::str_eq(self.versions[i].id.as_str(), id) {
                proof {
                    lemma_first_version_is(self.versions@, id@, i as int);
                }
                return Some(&self.versions[i]);
            }
            i = i + 1;
        }
        proof {
            lemma_first_version_is(self.versions@, id@, i as int);
        }
        None
    }

    /// Where the manifest of the version `id` is offered.
    pub fn version_url(&self, id: &str) -> (r: Result<&str, InstallError>)
        ensures
            match r {
                Ok(url) => version_url_of(self.versions@, id@) == Ok::<Seq<char>, Fault>(url@),
                Err(e) => version_url_of(self.versions@, id@) == Err::<Seq<char>, Fault>(e@),
            },
    {
        match self.find(id) {
            Some(version) => Ok(version.url.as_str()),
            None => Err(InstallError::VersionNotFound(id.to_owned())),
        }
    }
}

} // verus!
