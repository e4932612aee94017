//! The data the version catalog and the per-version manifest carry, and the
//! selection of the version to install.

use vstd::prelude::*;

use crate::platform::Os;

verus! {

/// One entry of the version catalog: a version id and the URL of its
/// metadata manifest.
pub struct Version {
    pub id: String,
    pub url: String,
}

/// A library the version requires: where it goes (relative to the libraries
/// tree), where it comes from, its expected digest, and an optional
/// platform rule. A missing rule means the library applies everywhere.
pub struct LibraryEntry {
    pub relative_path: String,
    pub url: String,
    pub sha1: String,
    pub rule: Option<Os>,
}

/// The client binary's source URL and expected digest.
pub struct ClientDownload {
    pub url: String,
    pub sha1: String,
}

/// One object of the asset index; its storage path is derived from the
/// digest (content-addressed), not from a logical name.
pub struct AssetObject {
    pub hash: String,
}

/// The parsed per-version metadata: the ordered library list, the client
/// binary, and where to find the asset index.
pub struct VersionData {
    pub libraries: Vec<LibraryEntry>,
    pub client: ClientDownload,
    pub asset_index_url: String,
}

/// The catalog's "latest" pointers.
pub struct LatestPointers {
    pub release: String,
    pub snapshot: String,
}

/// Picks the version id to install: the latest snapshot when `snapshot` is
/// set, the latest release otherwise.
pub fn select_version_id(latest: LatestPointers, snapshot: bool) -> (id: String)
    ensures
        snapshot ==> id == latest.snapshot,
        !snapshot ==> id == latest.release,
{
    if snapshot {
        latest.snapshot
    } else {
        latest.release
    }
}

/// Finds the catalog entry for `id`. When several entries carry the same id,
/// the last one wins, as a single pass that keeps overwriting its candidate
/// would have it.
pub fn find_version(versions: &Vec<Version>, id: &String) -> (found: Option<usize>)
    ensures
        found matches Some(i) ==> {
            &&& i < versions@.len()
            &&& versions@[i as int].id@ == id@
            &&& forall|j: int| i < j < versions@.len() ==> versions@[j].id@ != id@
        },
        found is None ==> forall|j: int| 0 <= j < versions@.len() ==> versions@[j].id@ != id@,
{
    let mut found: Option<usize> = None;
    let n = versions.len();
    let mut k: usize = 0;
    while k < n
        invariant
            n == versions@.len(),
            k <= n,
            found matches Some(i) ==> {
                &&& i < k
                &&& versions@[i as int].id@ == id@
                &&& forall|j: int| i < j < k ==> versions@[j].id@ != id@
            },
            found is None ==> forall|j: int| 0 <= j < k ==> versions@[j].id@ != id@,
        decreases n - k,
    {
        if versions[k].id == *id {
            found = Some(k);
        }
        k = k + 1;
    }
    found
}

} // verus!
