//! The record persisted across runs: which version ids are already
//! installed, the last assembled classpath, and the last refresh credential.
//! Reading and writing the record's file is the embedding binary's business;
//! the decisions taken over it live here.

use vstd::prelude::*;

verus! {

/// The persisted launcher record.
pub struct InstalledRecord {
    pub versions: Vec<String>,
    pub classpath: Option<String>,
    pub refresh_token: Option<String>,
}

/// Whether `id` is already recorded as fully installed. When it is, the
/// content delivery pipeline is skipped for this run.
pub open spec fn spec_installed(versions: Seq<String>, id: Seq<char>) -> bool {
    exists|i: int| 0 <= i < versions.len() && versions[i]@ == id
}

impl InstalledRecord {
    /// An empty record, for a first run with no persisted state.
    pub fn new() -> (rec: InstalledRecord)
        ensures
            rec.versions@ =~= Seq::<String>::empty(),
            rec.classpath is None,
            rec.refresh_token is None,
    {
        InstalledRecord { versions: Vec::new(), classpath: None, refresh_token: None }
    }

    /// Whether `id` is already recorded as installed.
    pub fn is_installed(&self, id: &String) -> (installed: bool)
        ensures
            installed == spec_installed(self.versions@, id@),
    {
        let n = self.versions.len();
        let mut k: usize = 0;
        while k < n
            invariant
                n == self.versions@.len(),
                k <= n,
                forall|j: int| 0 <= j < k ==> self.versions@[j]@ != id@,
            decreases n - k,
        {
            if self.versions[k] == *id {
                return true;
            }
            k = k + 1;
        }
        false
    }

    /// Records `id` as installed. Callers mark a version only after the
    /// pipeline for it returned successfully; a failed run leaves the record
    /// untouched.
    pub fn mark_installed(&mut self, id: String)
        ensures
            final(self).versions@ == old(self).versions@.push(id),
            final(self).classpath == old(self).classpath,
            final(self).refresh_token == old(self).refresh_token,
            spec_installed(final(self).versions@, id@),
    {
        self.versions.push(id);
        // the pushed entry witnesses the membership
        assert(final(self).versions@[final(self).versions@.len() - 1]@ == id@);
    }

    /// Stores the classpath assembled by a successful pipeline run.
    pub fn set_classpath(&mut self, classpath: String)
        ensures
            final(self).classpath == Some(classpath),
            final(self).versions == old(self).versions,
            final(self).refresh_token == old(self).refresh_token,
    {
        self.classpath = Some(classpath);
    }

    /// Stores the refresh credential the authentication chain returned.
    pub fn set_refresh_token(&mut self, token: String)
        ensures
            final(self).refresh_token == Some(token),
            final(self).versions == old(self).versions,
            final(self).classpath == old(self).classpath,
    {
        self.refresh_token = Some(token);
    }
}

} // verus!
