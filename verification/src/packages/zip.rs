//! The zip adapter: analyzes the members of a zip archive, in index
//! order, under their normalized paths. The surrounding program builds
//! the archive's central-directory index over seekable storage, decodes
//! each member with a traversal-safe name, and hands the members over as
//! plain values; decoding failures surface there as archive errors.

use vstd::prelude::*;

use crate::packages::{
    all_analyses_ok, analyze_archive_entries, analyze_list_err, normalized_entry_views,
    results_of, ArchiveEntry, FileResultMap, PackageAnalyzeError,
};

verus! {

/// The zip adapter: the archive's members, in index order.
pub struct ZipPackage {
    pub entries: Vec<ArchiveEntry>,
}

impl ZipPackage {
    /// Wrap the members read from a zip archive, in index order.
    pub fn from_read(entries: Vec<ArchiveEntry>) -> (r: ZipPackage)
        ensures
            r.entries == entries,
    {
        ZipPackage { entries }
    }

    /// Analyze every member, in index order, keyed by normalized path.
    /// The first member whose analysis fails aborts the whole call with
    /// an error naming that path; no partial mapping is returned.
    pub fn analyze_files(self) -> (r: Result<FileResultMap, PackageAnalyzeError>)
        ensures
            match r {
                Ok(m) => {
                    &&& all_analyses_ok(normalized_entry_views(self.entries@))
                    &&& m.wf()
                    &&& m@ == results_of(normalized_entry_views(self.entries@))
                },
                Err(e) => analyze_list_err(normalized_entry_views(self.entries@), e),
            },
    {
        analyze_archive_entries(self.entries)
    }
}

} // verus!
