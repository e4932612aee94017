//! The content delivery pipeline's decisions: which artifacts a version
//! needs on this platform, which of them must be fetched, where each one
//! lives on disk and on the network, how a downloaded payload is verified,
//! and how the classpath is assembled.
//!
//! The embedding binary supplies the filesystem answers (which destination
//! paths already exist) and performs the fetches; everything it acts on is
//! computed and verified here.

use vstd::prelude::*;

use crate::digest::digest_matches;
use crate::digest::sha1_hex_of;
use crate::manifest::AssetObject;
use crate::manifest::LibraryEntry;
use crate::manifest::VersionData;
use crate::platform::Os;
use vstd::string::StrSliceExecFns;
use vstd::string::StringExecFns;

verus! {

/// Whether a library entry applies on the given platform: a missing rule
/// admits every platform, a rule naming one admits exactly that one.
pub open spec fn rule_applies(rule: Option<Os>, os: Os) -> bool {
    match rule {
        Option::None => true,
        Option::Some(p) => p == os,
    }
}

/// Evaluates an entry's platform rule against the current platform.
pub fn rule_allows(rule: &Option<Os>, os: Os) -> (allowed: bool)
    ensures
        allowed == rule_applies(*rule, os),
{
    match rule {
        Option::None => true,
        Option::Some(p) => *p == os,
    }
}

// ---------------------------------------------------------------------------
// Destination paths and source URLs
// ---------------------------------------------------------------------------

/// Where a library lands: `<dir>/libraries/<relative path>`.
pub open spec fn spec_library_path(dir: Seq<char>, rel: Seq<char>) -> Seq<char> {
    dir + "/libraries/"@ + rel
}

/// Where the client binary lands: `<dir>/versions/<id>.jar`.
pub open spec fn spec_client_path(dir: Seq<char>, id: Seq<char>) -> Seq<char> {
    dir + "/versions/"@ + id + ".jar"@
}

/// Where the raw asset index is cached: `<dir>/assets/indexes/<id>.json`.
pub open spec fn spec_asset_index_path(dir: Seq<char>, id: Seq<char>) -> Seq<char> {
    dir + "/assets/indexes/"@ + id + ".json"@
}

/// Where an asset object lands, content-addressed: the first two characters
/// of its digest shard the store, the full digest names the file.
pub open spec fn spec_asset_object_path(dir: Seq<char>, hash: Seq<char>) -> Seq<char> {
    dir + "/assets/objects/"@ + hash.take(2) + "/"@ + hash
}

/// Where an asset object is fetched from, derived from its digest alone.
pub open spec fn spec_asset_url(hash: Seq<char>) -> Seq<char> {
    "https://resources.download.minecraft.net/"@ + hash.take(2) + "/"@ + hash
}

/// Builds a library's destination path.
pub fn library_path(dir: &str, rel: &str) -> (path: String)
    ensures
        path@ == spec_library_path(dir@, rel@),
{
    let mut path = dir.to_owned();
    path.append("/libraries/");
    path.append(rel);
    path
}

/// Builds the client binary's destination path.
pub fn client_path(dir: &str, id: &str) -> (path: String)
    ensures
        path@ == spec_client_path(dir@, id@),
{
    let mut path = dir.to_owned();
    path.append("/versions/");
    path.append(id);
    path.append(".jar");
    path
}

/// Builds the asset index's cache path.
pub fn asset_index_path(dir: &str, id: &str) -> (path: String)
    ensures
        path@ == spec_asset_index_path(dir@, id@),
{
    let mut path = dir.to_owned();
    path.append("/assets/indexes/");
    path.append(id);
    path.append(".json");
    path
}

/// Builds an asset object's content-addressed destination path.
pub fn asset_object_path(dir: &str, hash: &str) -> (path: String)
    requires
        hash@.len() >= 2,
    ensures
        path@ == spec_asset_object_path(dir@, hash@),
{
    let shard = hash.substring_char(0, 2);
    let mut path = dir.to_owned();
    path.append("/assets/objects/");
    path.append(shard);
    path.append("/");
    path.append(hash);
    path
}

/// Builds an asset object's source URL.
pub fn asset_url(hash: &str) -> (url: String)
    requires
        hash@.len() >= 2,
    ensures
        url@ == spec_asset_url(hash@),
{
    let shard = hash.substring_char(0, 2);
    let mut url = "https://resources.download.minecraft.net/".to_owned();
    url.append(shard);
    url.append("/");
    url.append(hash);
    url
}

// ---------------------------------------------------------------------------
// The fetch plan
// ---------------------------------------------------------------------------

/// One artifact that must be retrieved: from where, what its digest must be,
/// and where it goes.
pub struct FetchTask {
    pub url: String,
    pub sha1: String,
    pub destination: String,
}

/// The mathematical face of a fetch task.
pub struct FetchTaskView {
    pub url: Seq<char>,
    pub sha1: Seq<char>,
    pub destination: Seq<char>,
}

impl View for FetchTask {
    type V = FetchTaskView;

    open spec fn view(&self) -> FetchTaskView {
        FetchTaskView { url: self.url@, sha1: self.sha1@, destination: self.destination@ }
    }
}

/// What one pipeline run must do for the library and client artifacts:
/// paths already on disk (kept in manifest order) and the fetches still owed.
pub struct InstallPlan {
    pub present: Vec<String>,
    pub tasks: Vec<FetchTask>,
}

/// The destination paths of the applicable libraries that are already on
/// disk, in manifest order.
pub open spec fn spec_present_paths(
    libs: Seq<LibraryEntry>,
    present: Seq<bool>,
    os: Os,
    dir: Seq<char>,
) -> Seq<Seq<char>>
    decreases libs.len(),
{
    if libs.len() == 0 {
        Seq::empty()
    } else {
        let rest = spec_present_paths(libs.drop_last(), present.drop_last(), os, dir);
        let lib = libs.last();
        if rule_applies(lib.rule, os) && present.last() {
            rest.push(spec_library_path(dir, lib.relative_path@))
        } else {
            rest
        }
    }
}

/// The fetch tasks for the applicable libraries that are missing from disk,
/// in manifest order.
pub open spec fn spec_missing_tasks(
    libs: Seq<LibraryEntry>,
    present: Seq<bool>,
    os: Os,
    dir: Seq<char>,
) -> Seq<FetchTaskView>
    decreases libs.len(),
{
    if libs.len() == 0 {
        Seq::empty()
    } else {
        let rest = spec_missing_tasks(libs.drop_last(), present.drop_last(), os, dir);
        let lib = libs.last();
        if rule_applies(lib.rule, os) && !present.last() {
            rest.push(
                FetchTaskView {
                    url: lib.url@,
                    sha1: lib.sha1@,
                    destination: spec_library_path(dir, lib.relative_path@),
                },
            )
        } else {
            rest
        }
    }
}

/// Partitions the version's libraries and client binary into "already
/// present" classpath entries and owed fetch tasks. `lib_present[i]` and
/// `client_present` say whether each destination path already exists;
/// applicability is decided here, presence by the caller's filesystem.
pub fn plan_install(
    data: &VersionData,
    version_id: &String,
    lib_present: &Vec<bool>,
    client_present: bool,
    os: Os,
    dir: &String,
) -> (plan: InstallPlan)
    requires
        lib_present@.len() == data.libraries@.len(),
    ensures
        plan.present@.map_values(|p: String| p@) == spec_present_paths(
            data.libraries@,
            lib_present@,
            os,
            dir@,
        ) + (if client_present {
            seq![spec_client_path(dir@, version_id@)]
        } else {
            Seq::<Seq<char>>::empty()
        }),
        plan.tasks@.map_values(|t: FetchTask| t@) == spec_missing_tasks(
            data.libraries@,
            lib_present@,
            os,
            dir@,
        ) + (if client_present {
            Seq::<FetchTaskView>::empty()
        } else {
            seq![
                (FetchTaskView {
                    url: data.client.url@,
                    sha1: data.client.sha1@,
                    destination: spec_client_path(dir@, version_id@),
                }),
            ]
        }),
{
    let mut present: Vec<String> = Vec::new();
    let mut tasks: Vec<FetchTask> = Vec::new();
    let n = data.libraries.len();
    let mut k: usize = 0;
    while k < n
        invariant
            n == data.libraries@.len(),
            lib_present@.len() == data.libraries@.len(),
            k <= n,
            present@.map_values(|p: String| p@) == spec_present_paths(
                data.libraries@.take(k as int),
                lib_present@.take(k as int),
                os,
                dir@,
            ),
            tasks@.map_values(|t: FetchTask| t@) == spec_missing_tasks(
                data.libraries@.take(k as int),
                lib_present@.take(k as int),
                os,
                dir@,
            ),
        decreases n - k,
    {
        let lib = &data.libraries[k];
        proof {
            assert(data.libraries@.take(k + 1).drop_last() =~= data.libraries@.take(k as int));
            assert(lib_present@.take(k + 1).drop_last() =~= lib_present@.take(k as int));
            assert(data.libraries@.take(k + 1).last() == data.libraries@[k as int]);
        }
        if rule_allows(&lib.rule, os) {
            let path = library_path(dir.as_str(), lib.relative_path.as_str());
            if lib_present[k] {
                present.push(path);
            } else {
                let task = FetchTask {
                    url: lib.url.clone(),
                    sha1: lib.sha1.clone(),
                    destination: path,
                };
                tasks.push(task);
            }
        }
        proof {
            assert(present@.map_values(|p: String| p@) =~= spec_present_paths(
                data.libraries@.take(k + 1),
                lib_present@.take(k + 1),
                os,
                dir@,
            ));
            assert(tasks@.map_values(|t: FetchTask| t@) =~= spec_missing_tasks(
                data.libraries@.take(k + 1),
                lib_present@.take(k + 1),
                os,
                dir@,
            ));
        }
        k = k + 1;
    }
    proof {
        assert(data.libraries@.take(n as int) =~= data.libraries@);
        assert(lib_present@.take(n as int) =~= lib_present@);
    }
    let cpath = client_path(dir.as_str(), version_id.as_str());
    if client_present {
        present.push(cpath);
        proof {
            assert(present@.map_values(|p: String| p@) =~= spec_present_paths(
                data.libraries@,
                lib_present@,
                os,
                dir@,
            ) + seq![spec_client_path(dir@, version_id@)]);
        }
    } else {
        let task = FetchTask {
            url: data.client.url.clone(),
            sha1: data.client.sha1.clone(),
            destination: cpath,
        };
        tasks.push(task);
        proof {
            assert(tasks@.map_values(|t: FetchTask| t@) =~= spec_missing_tasks(
                data.libraries@,
                lib_present@,
                os,
                dir@,
            ) + seq![
                (FetchTaskView {
                    url: data.client.url@,
                    sha1: data.client.sha1@,
                    destination: spec_client_path(dir@, version_id@),
                }),
            ]);
        }
    }
    proof {
        if client_present {
            assert(tasks@.map_values(|t: FetchTask| t@) =~= spec_missing_tasks(
                data.libraries@,
                lib_present@,
                os,
                dir@,
            ) + Seq::<FetchTaskView>::empty());
        } else {
            assert(present@.map_values(|p: String| p@) =~= spec_present_paths(
                data.libraries@,
                lib_present@,
                os,
                dir@,
            ) + Seq::<Seq<char>>::empty());
        }
    }
    InstallPlan { present, tasks }
}

/// The fetch tasks for the asset objects missing from the content-addressed
/// store, in the order the index was walked.
pub open spec fn spec_asset_tasks(
    objects: Seq<AssetObject>,
    present: Seq<bool>,
    dir: Seq<char>,
) -> Seq<FetchTaskView>
    decreases objects.len(),
{
    if objects.len() == 0 {
        Seq::empty()
    } else {
        let rest = spec_asset_tasks(objects.drop_last(), present.drop_last(), dir);
        let obj = objects.last();
        if !present.last() {
            rest.push(
                FetchTaskView {
                    url: spec_asset_url(obj.hash@),
                    sha1: obj.hash@,
                    destination: spec_asset_object_path(dir, obj.hash@),
                },
            )
        } else {
            rest
        }
    }
}

/// Plans the asset fetches: one task per object whose content-addressed path
/// does not already exist. Asset fetches never contribute to the classpath.
pub fn plan_assets(objects: &Vec<AssetObject>, present: &Vec<bool>, dir: &String) -> (tasks: Vec<
    FetchTask,
>)
    requires
        present@.len() == objects@.len(),
        forall|i: int| 0 <= i < objects@.len() ==> objects@[i].hash@.len() >= 2,
    ensures
        tasks@.map_values(|t: FetchTask| t@) == spec_asset_tasks(objects@, present@, dir@),
{
    let mut tasks: Vec<FetchTask> = Vec::new();
    let n = objects.len();
    let mut k: usize = 0;
    while k < n
        invariant
            n == objects@.len(),
            present@.len() == objects@.len(),
            forall|i: int| 0 <= i < objects@.len() ==> objects@[i].hash@.len() >= 2,
            k <= n,
            tasks@.map_values(|t: FetchTask| t@) == spec_asset_tasks(
                objects@.take(k as int),
                present@.take(k as int),
                dir@,
            ),
        decreases n - k,
    {
        proof {
            assert(objects@.take(k + 1).drop_last() =~= objects@.take(k as int));
            assert(present@.take(k + 1).drop_last() =~= present@.take(k as int));
        }
        if !present[k] {
            let obj = &objects[k];
            let task = FetchTask {
                url: asset_url(obj.hash.as_str()),
                sha1: obj.hash.clone(),
                destination: asset_object_path(dir.as_str(), obj.hash.as_str()),
            };
            tasks.push(task);
        }
        proof {
            assert(tasks@.map_values(|t: FetchTask| t@) =~= spec_asset_tasks(
                objects@.take(k + 1),
                present@.take(k + 1),
                dir@,
            ));
        }
        k = k + 1;
    }
    proof {
        assert(objects@.take(n as int) =~= objects@);
        assert(present@.take(n as int) =~= present@);
    }
    tasks
}

// ---------------------------------------------------------------------------
// Laws of the plan
// ---------------------------------------------------------------------------

/// The destination paths of every applicable library, presence aside: what
/// one full run materializes for this platform, one way or the other.
pub open spec fn spec_applicable_paths(libs: Seq<LibraryEntry>, os: Os, dir: Seq<char>) -> Seq<
    Seq<char>,
>
    decreases libs.len(),
{
    if libs.len() == 0 {
        Seq::empty()
    } else {
        let rest = spec_applicable_paths(libs.drop_last(), os, dir);
        let lib = libs.last();
        if rule_applies(lib.rule, os) {
            rest.push(spec_library_path(dir, lib.relative_path@))
        } else {
            rest
        }
    }
}

/// The destination paths of a task list.
pub open spec fn spec_task_destinations(tasks: Seq<FetchTaskView>) -> Seq<Seq<char>> {
    tasks.map_values(|t: FetchTaskView| t.destination)
}

/// Appending one more string never loses a path already in the prefix.
proof fn lemma_push_keeps_contains<A>(s: Seq<A>, extra: A, x: A)
    requires
        s.contains(x),
    ensures
        s.push(extra).contains(x),
{
    let idx = choose|idx: int| 0 <= idx < s.len() && s[idx] == x;
    assert(s.push(extra)[idx] == x);
}

/// An applicable entry's destination path lands in the plan: among the
/// already-present classpath entries when its file exists, as a fetch task
/// carrying the entry's URL and digest when it does not.
proof fn lemma_applicable_entry_planned(
    libs: Seq<LibraryEntry>,
    present: Seq<bool>,
    os: Os,
    dir: Seq<char>,
    i: int,
)
    requires
        present.len() == libs.len(),
        0 <= i < libs.len(),
        rule_applies(libs[i].rule, os),
    ensures
        present[i] ==> spec_present_paths(libs, present, os, dir).contains(
            spec_library_path(dir, libs[i].relative_path@),
        ),
        !present[i] ==> spec_missing_tasks(libs, present, os, dir).contains(
            (FetchTaskView {
                url: libs[i].url@,
                sha1: libs[i].sha1@,
                destination: spec_library_path(dir, libs[i].relative_path@),
            }),
        ),
    decreases libs.len(),
{
    let path = spec_library_path(dir, libs[i].relative_path@);
    if i == libs.len() - 1 {
        if present[i] {
            let s = spec_present_paths(libs, present, os, dir);
            assert(s.last() == path);
            assert(s.contains(path));
        } else {
            let s = spec_missing_tasks(libs, present, os, dir);
            let task = FetchTaskView { url: libs[i].url@, sha1: libs[i].sha1@, destination: path };
            assert(s.last() == task);
            assert(s.contains(task));
        }
    } else {
        lemma_applicable_entry_planned(libs.drop_last(), present.drop_last(), os, dir, i);
        let lib = libs.last();
        if present[i] {
            let rest = spec_present_paths(libs.drop_last(), present.drop_last(), os, dir);
            if rule_applies(lib.rule, os) && present.last() {
                lemma_push_keeps_contains(
                    rest,
                    spec_library_path(dir, lib.relative_path@),
                    path,
                );
            }
        } else {
            let rest = spec_missing_tasks(libs.drop_last(), present.drop_last(), os, dir);
            let task = FetchTaskView { url: libs[i].url@, sha1: libs[i].sha1@, destination: path };
            if rule_applies(lib.rule, os) && !present.last() {
                lemma_push_keeps_contains(
                    rest,
                    (FetchTaskView {
                        url: lib.url@,
                        sha1: lib.sha1@,
                        destination: spec_library_path(dir, lib.relative_path@),
                    }),
                    task,
                );
            }
        }
    }
}

/// Equal paths under a common prefix come from equal relative paths.
proof fn lemma_concat_injective(prefix: Seq<char>, s1: Seq<char>, s2: Seq<char>)
    requires
        s1 != s2,
    ensures
        prefix + s1 != prefix + s2,
{
    if prefix + s1 == prefix + s2 {
        assert((prefix + s1).len() == prefix.len() + s1.len());
        assert((prefix + s2).len() == prefix.len() + s2.len());
        assert(s1.len() == s2.len());
        assert forall|k: int| 0 <= k < s1.len() implies s1[k] == s2[k] by {
            assert((prefix + s1)[prefix.len() + k] == s1[k]);
            assert((prefix + s2)[prefix.len() + k] == s2[k]);
        }
        assert(s1 =~= s2);
    }
}

/// An inapplicable entry's destination path lands nowhere in the plan, as
/// long as no other entry shares its relative path (the partition is
/// computed once per path, so a manifest never schedules one path twice).
proof fn lemma_inapplicable_entry_not_planned(
    libs: Seq<LibraryEntry>,
    present: Seq<bool>,
    os: Os,
    dir: Seq<char>,
    i: int,
)
    requires
        present.len() == libs.len(),
        0 <= i < libs.len(),
        !rule_applies(libs[i].rule, os),
        forall|j: int|
            0 <= j < libs.len() && j != i ==> libs[j].relative_path@ != libs[i].relative_path@,
    ensures
        !spec_present_paths(libs, present, os, dir).contains(
            spec_library_path(dir, libs[i].relative_path@),
        ),
        forall|t: FetchTaskView|
            spec_missing_tasks(libs, present, os, dir).contains(t) ==> t.destination
                != spec_library_path(dir, libs[i].relative_path@),
    decreases libs.len(),
{
    let path = spec_library_path(dir, libs[i].relative_path@);
    if libs.len() > 0 {
        let lib = libs.last();
        let last = libs.len() - 1;
        if i == last {
            // the entry itself is filtered out; nothing with its path is pushed
            lemma_skip_entry_not_planned(libs, present, os, dir, i);
        } else {
            lemma_inapplicable_entry_not_planned(
                libs.drop_last(),
                present.drop_last(),
                os,
                dir,
                i,
            );
            if rule_applies(lib.rule, os) {
                lemma_concat_injective(
                    dir + "/libraries/"@,
                    lib.relative_path@,
                    libs[i].relative_path@,
                );
                assert(spec_library_path(dir, lib.relative_path@) != path);
            }
            let s = spec_present_paths(libs, present, os, dir);
            let rest = spec_present_paths(libs.drop_last(), present.drop_last(), os, dir);
            if s.contains(path) {
                let idx = choose|idx: int| 0 <= idx < s.len() && s[idx] == path;
                if rule_applies(lib.rule, os) && present.last() {
                    if idx < rest.len() {
                        assert(rest[idx] == path);
                    }
                }
                assert(false);
            }
            let st = spec_missing_tasks(libs, present, os, dir);
            let restt = spec_missing_tasks(libs.drop_last(), present.drop_last(), os, dir);
            assert forall|t: FetchTaskView| st.contains(t) implies t.destination != path by {
                let idx = choose|idx: int| 0 <= idx < st.len() && st[idx] == t;
                if rule_applies(lib.rule, os) && !present.last() {
                    if idx < restt.len() {
                        assert(restt.contains(t));
                    }
                } else {
                    assert(restt.contains(t));
                }
            }
        }
    }
}

/// Helper: when the last entry is the inapplicable one, the plan over the
/// whole list equals the plan over the rest, and induction carries the rest.
proof fn lemma_skip_entry_not_planned(
    libs: Seq<LibraryEntry>,
    present: Seq<bool>,
    os: Os,
    dir: Seq<char>,
    i: int,
)
    requires
        present.len() == libs.len(),
        0 <= i < libs.len(),
        i == libs.len() - 1,
        !rule_applies(libs[i].rule, os),
        forall|j: int|
            0 <= j < libs.len() && j != i ==> libs[j].relative_path@ != libs[i].relative_path@,
    ensures
        !spec_present_paths(libs, present, os, dir).contains(
            spec_library_path(dir, libs[i].relative_path@),
        ),
        forall|t: FetchTaskView|
            spec_missing_tasks(libs, present, os, dir).contains(t) ==> t.destination
                != spec_library_path(dir, libs[i].relative_path@),
    decreases libs.len(),
{
    let path = spec_library_path(dir, libs[i].relative_path@);
    let rest_libs = libs.drop_last();
    let rest_present = present.drop_last();
    // every remaining entry has a different relative path, so no element of
    // the rest's plan can carry this path
    assert forall|k: int| 0 <= k < rest_libs.len() implies spec_library_path(
        dir,
        rest_libs[k].relative_path@,
    ) != path by {
        lemma_concat_injective(
            dir + "/libraries/"@,
            rest_libs[k].relative_path@,
            libs[i].relative_path@,
        );
    }
    lemma_plan_paths_from_entries(rest_libs, rest_present, os, dir, path);
    assert(libs.last() == libs[i]);
    assert(spec_present_paths(libs, present, os, dir) == spec_present_paths(
        rest_libs,
        rest_present,
        os,
        dir,
    ));
    assert(spec_missing_tasks(libs, present, os, dir) == spec_missing_tasks(
        rest_libs,
        rest_present,
        os,
        dir,
    ));
}

/// Every path the plan holds is some entry's library path.
proof fn lemma_plan_paths_from_entries(
    libs: Seq<LibraryEntry>,
    present: Seq<bool>,
    os: Os,
    dir: Seq<char>,
    path: Seq<char>,
)
    requires
        present.len() == libs.len(),
        forall|k: int|
            0 <= k < libs.len() ==> spec_library_path(dir, libs[k].relative_path@) != path,
    ensures
        !spec_present_paths(libs, present, os, dir).contains(path),
        forall|t: FetchTaskView|
            spec_missing_tasks(libs, present, os, dir).contains(t) ==> t.destination != path,
    decreases libs.len(),
{
    if libs.len() > 0 {
        lemma_plan_paths_from_entries(libs.drop_last(), present.drop_last(), os, dir, path);
        let lib = libs.last();
        let s = spec_present_paths(libs, present, os, dir);
        let rest = spec_present_paths(libs.drop_last(), present.drop_last(), os, dir);
        if s.contains(path) {
            let idx = choose|idx: int| 0 <= idx < s.len() && s[idx] == path;
            if rule_applies(lib.rule, os) && present.last() {
                if idx < rest.len() {
                    assert(rest[idx] == path);
                }
                assert(libs[libs.len() - 1] == lib);
            }
            assert(false);
        }
        let st = spec_missing_tasks(libs, present, os, dir);
        let restt = spec_missing_tasks(libs.drop_last(), present.drop_last(), os, dir);
        assert forall|t: FetchTaskView| st.contains(t) implies t.destination != path by {
            let idx = choose|idx: int| 0 <= idx < st.len() && st[idx] == t;
            if rule_applies(lib.rule, os) && !present.last() {
                if idx < restt.len() {
                    assert(restt.contains(t));
                }
            } else {
                assert(restt.contains(t));
            }
        }
    }
}

/// A library entry without a platform rule is included on every platform:
/// whatever `os` is, its destination path stands in the plan, among the
/// already-present classpath entries when its file exists, as a fetch task
/// carrying its URL and digest when it does not.
pub proof fn lemma_universal_entry_included(
    libs: Seq<LibraryEntry>,
    present: Seq<bool>,
    os: Os,
    dir: Seq<char>,
    i: int,
)
    requires
        present.len() == libs.len(),
        0 <= i < libs.len(),
        libs[i].rule is None,
    ensures
        present[i] ==> spec_present_paths(libs, present, os, dir).contains(
            spec_library_path(dir, libs[i].relative_path@),
        ),
        !present[i] ==> spec_missing_tasks(libs, present, os, dir).contains(
            (FetchTaskView {
                url: libs[i].url@,
                sha1: libs[i].sha1@,
                destination: spec_library_path(dir, libs[i].relative_path@),
            }),
        ),
{
    lemma_applicable_entry_planned(libs, present, os, dir, i);
}

/// A library entry whose platform rule names platform `p` is included if and
/// only if the current platform is `p`. The exclusion half is stated for a
/// manifest whose entries carry pairwise distinct relative paths; with a
/// duplicated path, another entry's copy can stand in the plan even where
/// this entry is filtered out.
pub proof fn lemma_platform_rule_decides(
    libs: Seq<LibraryEntry>,
    present: Seq<bool>,
    os: Os,
    dir: Seq<char>,
    i: int,
    p: Os,
)
    requires
        present.len() == libs.len(),
        0 <= i < libs.len(),
        libs[i].rule == Some(p),
    ensures
        p == os && present[i] ==> spec_present_paths(libs, present, os, dir).contains(
            spec_library_path(dir, libs[i].relative_path@),
        ),
        p == os && !present[i] ==> spec_missing_tasks(libs, present, os, dir).contains(
            (FetchTaskView {
                url: libs[i].url@,
                sha1: libs[i].sha1@,
                destination: spec_library_path(dir, libs[i].relative_path@),
            }),
        ),
        p != os && (forall|j: int|
            0 <= j < libs.len() && j != i ==> libs[j].relative_path@
                != libs[i].relative_path@) ==> {
            &&& !spec_present_paths(libs, present, os, dir).contains(
                spec_library_path(dir, libs[i].relative_path@),
            )
            &&& forall|t: FetchTaskView|
                spec_missing_tasks(libs, present, os, dir).contains(t) ==> t.destination
                    != spec_library_path(dir, libs[i].relative_path@)
        },
{
    if p == os {
        lemma_applicable_entry_planned(libs, present, os, dir, i);
    } else if forall|j: int|
        0 <= j < libs.len() && j != i ==> libs[j].relative_path@ != libs[i].relative_path@ {
        lemma_inapplicable_entry_not_planned(libs, present, os, dir, i);
    }
}

/// The present/missing partition is computed once per path: when the
/// manifest's entries carry pairwise distinct relative paths, the planned
/// fetch tasks carry pairwise distinct destination paths, so no two tasks in
/// one run are ever scheduled to write the same file.
pub proof fn lemma_no_duplicate_destinations(
    libs: Seq<LibraryEntry>,
    present: Seq<bool>,
    os: Os,
    dir: Seq<char>,
)
    requires
        present.len() == libs.len(),
        forall|i: int, j: int|
            0 <= i < j < libs.len() ==> libs[i].relative_path@ != libs[j].relative_path@,
    ensures
        forall|a: int, b: int|
            0 <= a < b < spec_missing_tasks(libs, present, os, dir).len() ==> spec_missing_tasks(
                libs,
                present,
                os,
                dir,
            )[a].destination != spec_missing_tasks(libs, present, os, dir)[b].destination,
    decreases libs.len(),
{
    if libs.len() > 0 {
        let rest_libs = libs.drop_last();
        let rest_present = present.drop_last();
        lemma_no_duplicate_destinations(rest_libs, rest_present, os, dir);
        let rest = spec_missing_tasks(rest_libs, rest_present, os, dir);
        let whole = spec_missing_tasks(libs, present, os, dir);
        let lib = libs.last();
        if rule_applies(lib.rule, os) && !present.last() {
            let path = spec_library_path(dir, lib.relative_path@);
            assert forall|k: int| 0 <= k < rest_libs.len() implies spec_library_path(
                dir,
                rest_libs[k].relative_path@,
            ) != path by {
                assert(rest_libs[k] == libs[k]);
                lemma_concat_injective(
                    dir + "/libraries/"@,
                    rest_libs[k].relative_path@,
                    lib.relative_path@,
                );
            }
            lemma_plan_paths_from_entries(rest_libs, rest_present, os, dir, path);
            assert forall|a: int, b: int|
                0 <= a < b < whole.len() implies whole[a].destination != whole[b].destination by {
                if b < rest.len() {
                    assert(whole[a] == rest[a] && whole[b] == rest[b]);
                } else {
                    assert(whole[b].destination == path);
                    assert(rest.contains(rest[a]));
                }
            }
        } else {
            assert(whole == rest);
        }
    }
}

/// A run against a store that already holds every destination path plans no
/// fetch at all, and its classpath entries are exactly the applicable paths;
/// a fresh run plans a fetch for each of those same paths. The two runs thus
/// materialize the same set of paths, fetching nothing the second time.
pub proof fn lemma_rerun_skips_all_fetches(
    libs: Seq<LibraryEntry>,
    all_present: Seq<bool>,
    none_present: Seq<bool>,
    os: Os,
    dir: Seq<char>,
)
    requires
        all_present.len() == libs.len(),
        none_present.len() == libs.len(),
        forall|i: int| 0 <= i < libs.len() ==> all_present[i],
        forall|i: int| 0 <= i < libs.len() ==> !none_present[i],
    ensures
        spec_missing_tasks(libs, all_present, os, dir) =~= Seq::<FetchTaskView>::empty(),
        spec_present_paths(libs, all_present, os, dir) =~= spec_applicable_paths(libs, os, dir),
        spec_present_paths(libs, none_present, os, dir) =~= Seq::<Seq<char>>::empty(),
        spec_task_destinations(spec_missing_tasks(libs, none_present, os, dir))
            =~= spec_applicable_paths(libs, os, dir),
        spec_present_paths(libs, all_present, os, dir).to_set() == spec_task_destinations(
            spec_missing_tasks(libs, none_present, os, dir),
        ).to_set(),
    decreases libs.len(),
{
    if libs.len() == 0 {
        assert(spec_task_destinations(spec_missing_tasks(libs, none_present, os, dir))
            =~= Seq::<Seq<char>>::empty());
    } else {
        lemma_rerun_skips_all_fetches(
            libs.drop_last(),
            all_present.drop_last(),
            none_present.drop_last(),
            os,
            dir,
        );
        let lib = libs.last();
        if rule_applies(lib.rule, os) {
            let restt = spec_missing_tasks(libs.drop_last(), none_present.drop_last(), os, dir);
            let task = FetchTaskView {
                url: lib.url@,
                sha1: lib.sha1@,
                destination: spec_library_path(dir, lib.relative_path@),
            };
            assert(spec_task_destinations(restt.push(task)) =~= spec_task_destinations(restt).push(
                task.destination,
            ));
        }
        assert(spec_task_destinations(spec_missing_tasks(libs, none_present, os, dir))
            =~= spec_applicable_paths(libs, os, dir));
    }
    assert(spec_present_paths(libs, all_present, os, dir).to_set() =~= spec_task_destinations(
        spec_missing_tasks(libs, none_present, os, dir),
    ).to_set());
}

// ---------------------------------------------------------------------------
// Digest verification of downloaded payloads
// ---------------------------------------------------------------------------

/// Why a pipeline run failed. A transport or filesystem failure is the
/// embedding binary's to report; what can go wrong in the decisions verified
/// here is an integrity failure, named by the artifact it struck.
#[derive(Debug)]
pub enum PipelineError {
    DigestMismatch { url: String, destination: String },
}

impl PipelineError {
    /// A user-facing account of the failure, naming the artifact's source
    /// URL and destination path.
    pub fn describe(&self) -> (msg: String)
        ensures
            self matches PipelineError::DigestMismatch { url, destination } ==> msg@
                == "failed integrity check: "@ + url@ + " -> "@ + destination@,
    {
        match self {
            PipelineError::DigestMismatch { url, destination } => {
                let mut msg = "failed integrity check: ".to_owned();
                msg.append(url.as_str());
                msg.append(" -> ");
                msg.append(destination.as_str());
                msg
            },
        }
    }
}

/// Checks one downloaded payload against its task's expected digest. The
/// payload passes exactly when its digest equals the declared value; a
/// mismatch names the artifact and must abort the pipeline before the
/// payload is written or its path enters the classpath.
pub fn verify_download(task: &FetchTask, bytes: &[u8]) -> (check: Result<(), PipelineError>)
    ensures
        check is Ok <==> sha1_hex_of(bytes@) == task.sha1@,
        check matches Err(e) ==> (e matches PipelineError::DigestMismatch { url, destination }
            && url@ == task.url@ && destination@ == task.destination@),
{
    if digest_matches(bytes, &task.sha1) {
        Ok(())
    } else {
        Err(
            PipelineError::DigestMismatch {
                url: task.url.clone(),
                destination: task.destination.clone(),
            },
        )
    }
}

/// Checks every downloaded payload against its task. All payloads pass
/// exactly when every digest matches; the result then lists every task's
/// destination path, in task order, and nothing else. A mismatch is
/// reported with the artifact it struck, and no path is handed out.
pub fn verify_downloads(tasks: &Vec<FetchTask>, payloads: &Vec<Vec<u8>>) -> (check: Result<
    Vec<String>,
    PipelineError,
>)
    requires
        payloads@.len() == tasks@.len(),
    ensures
        check is Ok <==> (forall|i: int|
            0 <= i < tasks@.len() ==> sha1_hex_of(payloads@[i]@) == tasks@[i].sha1@),
        check matches Ok(paths) ==> paths@.map_values(|p: String| p@) == tasks@.map_values(
            |t: FetchTask| t@.destination,
        ),
        check matches Err(e) ==> (e matches PipelineError::DigestMismatch { url, destination }
            && (exists|i: int|
            0 <= i < tasks@.len() && sha1_hex_of(payloads@[i]@) != tasks@[i].sha1@ && url@
                == tasks@[i].url@ && destination@ == tasks@[i].destination@)),
{
    let mut paths: Vec<String> = Vec::new();
    let n = tasks.len();
    let mut k: usize = 0;
    while k < n
        invariant
            n == tasks@.len(),
            payloads@.len() == tasks@.len(),
            k <= n,
            forall|i: int| 0 <= i < k ==> sha1_hex_of(payloads@[i]@) == tasks@[i].sha1@,
            paths@.len() == k,
            forall|j: int| 0 <= j < k ==> paths@[j]@ == tasks@[j].destination@,
        decreases n - k,
    {
        match verify_download(&tasks[k], payloads[k].as_slice()) {
            Ok(_) => {
                paths.push(tasks[k].destination.clone());
            },
            Err(e) => {
                proof {
                    assert(sha1_hex_of(payloads@[k as int]@) != tasks@[k as int].sha1@);
                }
                return Err(e);
            },
        }
        k = k + 1;
    }
    proof {
        assert(paths@.map_values(|p: String| p@) =~= tasks@.map_values(
            |t: FetchTask| t@.destination,
        ));
    }
    Ok(paths)
}

// ---------------------------------------------------------------------------
// Classpath assembly
// ---------------------------------------------------------------------------

/// The paths joined with the separator between neighbours: empty for no
/// paths, and no separator trails the last entry.
pub open spec fn spec_join(paths: Seq<Seq<char>>, sep: Seq<char>) -> Seq<char>
    decreases paths.len(),
{
    if paths.len() == 0 {
        Seq::empty()
    } else if paths.len() == 1 {
        paths.last()
    } else {
        spec_join(paths.drop_last(), sep) + sep + paths.last()
    }
}

/// Joins destination paths into one separator-delimited string.
pub fn join_paths(paths: &Vec<String>, sep: &str) -> (joined: String)
    ensures
        joined@ == spec_join(paths@.map_values(|p: String| p@), sep@),
{
    let mut joined = String::new();
    let n = paths.len();
    let mut k: usize = 0;
    while k < n
        invariant
            n == paths@.len(),
            k <= n,
            joined@ == spec_join(paths@.take(k as int).map_values(|p: String| p@), sep@),
        decreases n - k,
    {
        proof {
            assert(paths@.take(k + 1).map_values(|p: String| p@).drop_last() =~= paths@.take(
                k as int,
            ).map_values(|p: String| p@));
            assert(paths@.take(k + 1).map_values(|p: String| p@).last() == paths@[k as int]@);
        }
        if k > 0 {
            joined.append(sep);
        }
        joined.append(paths[k].as_str());
        k = k + 1;
    }
    proof {
        assert(paths@.take(n as int) =~= paths@);
    }
    joined
}

/// Assembles the final classpath: the already-present paths (manifest order)
/// first, then the freshly fetched ones in the order their fetches
/// completed, joined with the platform's separator.
pub fn assemble_classpath(present: &Vec<String>, fetched: &Vec<String>, sep: &str) -> (classpath:
    String)
    ensures
        classpath@ == spec_join(
            present@.map_values(|p: String| p@) + fetched@.map_values(|p: String| p@),
            sep@,
        ),
{
    let mut all: Vec<String> = Vec::new();
    let np = present.len();
    let mut k: usize = 0;
    while k < np
        invariant
            np == present@.len(),
            k <= np,
            all@ =~= present@.take(k as int),
        decreases np - k,
    {
        all.push(present[k].clone());
        k = k + 1;
    }
    proof {
        assert(present@.take(np as int) =~= present@);
    }
    let nf = fetched.len();
    let mut j: usize = 0;
    while j < nf
        invariant
            nf == fetched@.len(),
            j <= nf,
            all@ =~= present@ + fetched@.take(j as int),
        decreases nf - j,
    {
        all.push(fetched[j].clone());
        j = j + 1;
    }
    proof {
        assert(fetched@.take(nf as int) =~= fetched@);
        assert(all@.map_values(|p: String| p@) =~= present@.map_values(|p: String| p@)
            + fetched@.map_values(|p: String| p@));
    }
    join_paths(&all, sep)
}

/// Completes a run once every owed payload is in: verifies each payload
/// against its task and assembles the classpath from the already-present
/// paths and the verified destinations, here stabilized to task order. The
/// classpath exists exactly when every payload passed its digest check; a
/// mismatch yields the failing artifact instead, and never a partial
/// classpath.
pub fn finish_install(plan: &InstallPlan, payloads: &Vec<Vec<u8>>, sep: &str) -> (outcome: Result<
    String,
    PipelineError,
>)
    requires
        payloads@.len() == plan.tasks@.len(),
    ensures
        outcome is Ok <==> (forall|i: int|
            0 <= i < plan.tasks@.len() ==> sha1_hex_of(payloads@[i]@) == plan.tasks@[i].sha1@),
        outcome matches Ok(classpath) ==> classpath@ == spec_join(
            plan.present@.map_values(|p: String| p@) + plan.tasks@.map_values(
                |t: FetchTask| t@.destination,
            ),
            sep@,
        ),
        outcome matches Err(e) ==> (e matches PipelineError::DigestMismatch { url, destination }
            && (exists|i: int|
            0 <= i < plan.tasks@.len() && sha1_hex_of(payloads@[i]@) != plan.tasks@[i].sha1@
                && url@ == plan.tasks@[i].url@ && destination@ == plan.tasks@[i].destination@)),
{
    match verify_downloads(&plan.tasks, payloads) {
        Ok(fetched) => Ok(assemble_classpath(&plan.present, &fetched, sep)),
        Err(e) => Err(e),
    }
}

} // verus!
