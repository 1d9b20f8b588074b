//! The tar adapter: analyzes the members of a gzip-compressed tar
//! archive, in archive order, under their normalized paths. The
//! surrounding program decodes the container (gzip and tar headers) and
//! hands the members over as plain values; decoding failures surface
//! there as archive errors.

use vstd::prelude::*;

use crate::packages::{
    all_analyses_ok, analyze_archive_entries, analyze_list_err, normalized_entry_views,
    results_of, ArchiveEntry, FileResultMap, PackageAnalyzeError,
};

verus! {

/// The tar adapter: the archive's members, in archive order.
pub struct TarPackage {
    pub entries: Vec<ArchiveEntry>,
}

impl TarPackage {
    /// Wrap the members read from a gzip-compressed tar stream, in
    /// archive order.
    pub fn from_read(entries: Vec<ArchiveEntry>) -> (r: TarPackage)
        ensures
            r.entries == entries,
    {
        TarPackage { entries }
    }

    /// Analyze every member, in archive order, keyed by normalized path.
    /// The first member whose analysis fails aborts the whole call with
    /// an error naming that path; no partial mapping is returned.
    pub fn analyze_files(self) -> (r: Result<FileResultMap, PackageAnalyzeError>)
        ensures
            match r {
                Ok(m) => {
                    &&& all_analyses_ok(normalized_entry_views(self.entries@))
                    &&& m.wf()
                    &&& m@ == results_of(normalized_entry_views(self.entries@))
                },
                Err(e) => analyze_list_err(normalized_entry_views(self.entries@), e),
            },
    {
        analyze_archive_entries(self.entries)
    }
}

} // verus!
