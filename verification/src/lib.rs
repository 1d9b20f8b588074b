//! Produces the core of a software bill-of-materials for a released
//! artifact: the same logical file tree, as it appears in a version-control
//! checkout, a tar archive and a zip archive, is analyzed per file through
//! one uniform pipeline, and the three result sets are reconciled into a
//! single document graph of packages, files and "contains" relationships.
//!
//! Obtaining the bytes of each source (network download, git clone, archive
//! decoding) is left to the surrounding program; this crate holds the
//! analysis and reconciliation logic.

use vstd::prelude::*;

use crate::analyzers::{SpdxFileAnalyzeSuccess, SpdxFileAnalyzeSuccessView};
use crate::models::{Checksum, ChecksumView};
use crate::packages::FileResultMap;
use crate::spdx::{
    spdx_ref, FileInformationView, PackageInformationView, RelationshipType, RelationshipView,
    SpdxDocument, SpdxDocumentView,
};

pub mod analyzers;
pub mod models;
pub mod packages;
pub mod spdx;

verus! {

/// One distribution channel of a release.
#[derive(Clone, Copy, Debug, PartialEq, Eq, Structural)]
pub enum Channel {
    Git,
    Zip,
    Tar,
}

/// Why reconciliation failed: the channels disagree about the file
/// inventory or about a file's content.
#[derive(Debug)]
pub enum ReconcileError {
    /// A path of the authoritative set is absent from the named channel.
    PathMissing { channel: Channel, path: String },
    /// A path's digest in the named channel differs from the
    /// authoritative digest.
    ChecksumMismatch { channel: Channel, path: String, expected: Checksum, found: Checksum },
}

/// The mathematical value of a [`ReconcileError`].
#[verifier::ext_equal]
pub enum ReconcileErrorView {
    PathMissing { channel: Channel, path: Seq<char> },
    ChecksumMismatch {
        channel: Channel,
        path: Seq<char>,
        expected: ChecksumView,
        found: ChecksumView,
    },
}

impl View for ReconcileError {
    type V = ReconcileErrorView;

    open spec fn view(&self) -> ReconcileErrorView {
        match self {
            ReconcileError::PathMissing { channel, path } => ReconcileErrorView::PathMissing {
                channel: *channel,
                path: path@,
            },
            ReconcileError::ChecksumMismatch { channel, path, expected, found } =>
                ReconcileErrorView::ChecksumMismatch {
                channel: *channel,
                path: path@,
                expected: expected@,
                found: found@,
            },
        }
    }
}

/// The archive lookup key for a canonical path: a leading `./` is
/// stripped, since the archive sets key their files without it.
pub open spec fn strip_dot_slash(p: Seq<char>) -> Seq<char> {
    if p.len() >= 2 && p[0] == '.' && p[1] == '/' {
        p.subrange(2, p.len() as int)
    } else {
        p
    }
}

/// What reconciliation reached: the first divergence found, if any, and
/// the document state built up to that point. A caller keeps the
/// document only where there is no error.
#[verifier::ext_equal]
pub struct ReconcileOutcome {
    pub error: Option<ReconcileErrorView>,
    pub doc: SpdxDocumentView,
}

/// A document with the next identifier allocated to a new package of the
/// given name.
pub open spec fn with_package(doc: SpdxDocumentView, name: Seq<char>) -> SpdxDocumentView {
    SpdxDocumentView {
        spdx_id: doc.spdx_id + 1,
        document_name: doc.document_name,
        packages: doc.packages.push(
            PackageInformationView {
                package_name: name,
                package_spdx_identifier: spdx_ref(doc.spdx_id + 1),
            },
        ),
        files: doc.files,
        relationships: doc.relationships,
    }
}

/// A document with one more "contains" edge.
pub open spec fn with_contains(
    doc: SpdxDocumentView,
    package_id: Seq<char>,
    file_id: Seq<char>,
) -> SpdxDocumentView {
    SpdxDocumentView {
        spdx_id: doc.spdx_id,
        document_name: doc.document_name,
        packages: doc.packages,
        files: doc.files,
        relationships: doc.relationships.push(
            RelationshipView {
                spdx_element_id: package_id,
                related_spdx_element: file_id,
                relationship_type: RelationshipType::Contains,
            },
        ),
    }
}

/// The file entity created from one authoritative entry: the git
/// checksum attached, and the license information where one was found.
pub open spec fn file_entity(
    path: Seq<char>,
    res: SpdxFileAnalyzeSuccessView,
    id: Seq<char>,
) -> FileInformationView {
    FileInformationView {
        file_name: path,
        file_spdx_identifier: id,
        file_checksum: seq![res.sha1_checksum],
        license_information_in_file: match res.license_information_in_file {
            Some(l) => seq![l],
            None => Seq::<crate::models::SimpleExpressionView>::empty(),
        },
    }
}

/// Verify one authoritative entry against one archive channel: the path
/// must be present with the authoritative checksum, and then the
/// channel's package gains a "contains" edge to the file.
pub open spec fn check_channel(
    doc: SpdxDocumentView,
    channel: Channel,
    package_id: Seq<char>,
    results: Map<Seq<char>, SpdxFileAnalyzeSuccessView>,
    key: Seq<char>,
    git_sum: ChecksumView,
    file_id: Seq<char>,
) -> Result<SpdxDocumentView, ReconcileErrorView> {
    if !results.contains_key(key) {
        Err(ReconcileErrorView::PathMissing { channel, path: key })
    } else if results[key].sha1_checksum != git_sum {
        Err(
            ReconcileErrorView::ChecksumMismatch {
                channel,
                path: key,
                expected: git_sum,
                found: results[key].sha1_checksum,
            },
        )
    } else {
        Ok(with_contains(doc, package_id, file_id))
    }
}

/// Reconcile one authoritative entry: create its file entity with the
/// next identifier, attach the git checksum and license, register the
/// git edge, and then verify the entry against each archive channel
/// present, zip before tar. The first divergence stops the pass.
pub open spec fn reconcile_one(
    doc: SpdxDocumentView,
    git_id: Seq<char>,
    zip: Option<(Seq<char>, Map<Seq<char>, SpdxFileAnalyzeSuccessView>)>,
    tar: Option<(Seq<char>, Map<Seq<char>, SpdxFileAnalyzeSuccessView>)>,
    path: Seq<char>,
    res: SpdxFileAnalyzeSuccessView,
) -> ReconcileOutcome {
    let fid = spdx_ref(doc.spdx_id + 1);
    let doc1 = SpdxDocumentView {
        spdx_id: doc.spdx_id + 1,
        document_name: doc.document_name,
        packages: doc.packages,
        files: doc.files.push(file_entity(path, res, fid)),
        relationships: doc.relationships,
    };
    let doc2 = with_contains(doc1, git_id, fid);
    let key = strip_dot_slash(path);
    let zres = match zip {
        None => Ok(doc2),
        Some((zid, zm)) => check_channel(doc2, Channel::Zip, zid, zm, key, res.sha1_checksum, fid),
    };
    match zres {
        Err(e) => ReconcileOutcome { error: Some(e), doc: doc2 },
        Ok(doc3) => {
            let tres = match tar {
                None => Ok(doc3),
                Some((tid, tm)) => check_channel(
                    doc3,
                    Channel::Tar,
                    tid,
                    tm,
                    key,
                    res.sha1_checksum,
                    fid,
                ),
            };
            match tres {
                Err(e) => ReconcileOutcome { error: Some(e), doc: doc3 },
                Ok(doc4) => ReconcileOutcome { error: None, doc: doc4 },
            }
        },
    }
}

/// Reconcile the authoritative entries in order, stopping at the first
/// divergence.
pub open spec fn reconcile_files(
    doc: SpdxDocumentView,
    git_id: Seq<char>,
    zip: Option<(Seq<char>, Map<Seq<char>, SpdxFileAnalyzeSuccessView>)>,
    tar: Option<(Seq<char>, Map<Seq<char>, SpdxFileAnalyzeSuccessView>)>,
    entries: Seq<(Seq<char>, SpdxFileAnalyzeSuccessView)>,
) -> ReconcileOutcome
    decreases entries.len(),
{
    if entries.len() == 0 {
        ReconcileOutcome { error: None, doc }
    } else {
        let one = reconcile_one(doc, git_id, zip, tar, entries[0].0, entries[0].1);
        if one.error is Some {
            one
        } else {
            reconcile_files(one.doc, git_id, zip, tar, entries.drop_first())
        }
    }
}

/// The key-to-result mapping of an optional result set.
pub open spec fn opt_map(o: Option<FileResultMap>) -> Option<
    Map<Seq<char>, SpdxFileAnalyzeSuccessView>,
> {
    match o {
        Some(m) => Some(m.as_map()),
        None => None,
    }
}

/// The whole reconciliation pass over a document: one package per
/// channel present (git always, then zip, then tar), then the
/// authoritative entries in their fixed order.
pub open spec fn combine_spec(
    doc: SpdxDocumentView,
    git: Seq<(Seq<char>, SpdxFileAnalyzeSuccessView)>,
    zip: Option<Map<Seq<char>, SpdxFileAnalyzeSuccessView>>,
    tar: Option<Map<Seq<char>, SpdxFileAnalyzeSuccessView>>,
) -> ReconcileOutcome {
    let git_id = spdx_ref(doc.spdx_id + 1);
    let doc_git = with_package(doc, "git"@);
    let doc_zip = match zip {
        Some(_) => with_package(doc_git, "zip"@),
        None => doc_git,
    };
    let zipp = match zip {
        Some(m) => Some((spdx_ref(doc_git.spdx_id + 1), m)),
        None => None,
    };
    let doc_tar = match tar {
        Some(_) => with_package(doc_zip, "tar"@),
        None => doc_zip,
    };
    let tarp = match tar {
        Some(m) => Some((spdx_ref(doc_zip.spdx_id + 1), m)),
        None => None,
    };
    reconcile_files(doc_tar, git_id, zipp, tarp, git)
}

/// The repository coordinates a document is produced for.
pub struct DescribeArgs {
    pub owner: String,
    pub repo: String,
    pub tag: String,
}

impl DescribeArgs {
    /// Bundle the owner, repository and tag that name a release.
    pub fn new(owner: String, repo: String, tag: String) -> (r: DescribeArgs)
        ensures
            r.owner == owner,
            r.repo == repo,
            r.tag == tag,
    {
        DescribeArgs { owner, repo, tag }
    }

    pub fn owner(&self) -> (r: &String)
        ensures
            r == self.owner,
    {
        &self.owner
    }

    pub fn repo(&self) -> (r: &String)
        ensures
            r == self.repo,
    {
        &self.repo
    }

    pub fn tag(&self) -> (r: &String)
        ensures
            r == self.tag,
    {
        &self.tag
    }

    /// Merge the three channels' result sets into the document graph:
    /// one package per channel present (git always, then zip, then tar);
    /// then, driven by the authoritative git set alone, one file entity
    /// per git path carrying the git checksum and the license found, a
    /// "contains" edge from the git package, and, per archive channel
    /// present, a verification that the path is there with the same
    /// checksum before that channel's edge is added. The first
    /// divergence aborts the pass with an error naming the channel, the
    /// path and, for a mismatch, both digests; the caller discards the
    /// document unless the pass returns success.
    #[verifier::rlimit(100)]
    #[verifier::loop_isolation(false)]
    pub fn combine_file_analyze_result(
        spdx: &mut SpdxDocument,
        git_files: FileResultMap,
        zip_files: Option<FileResultMap>,
        tar_files: Option<FileResultMap>,
    ) -> (r: Result<(), ReconcileError>)
        requires
            0 <= old(spdx).spdx_id,
            old(spdx).spdx_id + 3 + git_files@.len() <= i32::MAX,
            git_files.wf(),
            zip_files matches Some(z) ==> z.wf(),
            tar_files matches Some(t) ==> t.wf(),
        ensures
            ({
                let out = combine_spec(
                    old(spdx)@,
                    git_files@,
                    opt_map(zip_files),
                    opt_map(tar_files),
                );
                &&& final(spdx)@ == out.doc
                &&& (match r {
                    Ok(_) => out.error is None,
                    Err(e) => out.error == Some(e@),
                })
            }),
    {
        let ghost doc0 = spdx@;
        let ghost gv = git_files@;
        let ghost zm = opt_map(zip_files);
        let ghost tm = opt_map(tar_files);
        let ghost total = combine_spec(doc0, gv, zm, tm);

        let git_package = spdx.new_package("git");
        let git_package_id = git_package.package_spdx_identifier.clone();
        spdx.push_package(git_package);
        let ghost git_idv = spdx_ref(doc0.spdx_id + 1);
        let ghost doc_git = with_package(doc0, "git"@);
        proof {
            assert(spdx@ =~= doc_git);
        }

        let zip_package_id: Option<String> = match &zip_files {
            Some(_) => {
                let p = spdx.new_package("zip");
                let id = p.package_spdx_identifier.clone();
                spdx.push_package(p);
                Some(id)
            },
            None => None,
        };
        let ghost doc_zip = match zm {
            Some(_) => with_package(doc_git, "zip"@),
            None => doc_git,
        };
        let ghost zipp = match zm {
            Some(m) => Some((spdx_ref(doc_git.spdx_id + 1), m)),
            None => None,
        };
        proof {
            assert(spdx@ =~= doc_zip);
        }

        let tar_package_id: Option<String> = match &tar_files {
            Some(_) => {
                let p = spdx.new_package("tar");
                let id = p.package_spdx_identifier.clone();
                spdx.push_package(p);
                Some(id)
            },
            None => None,
        };
        let ghost doc_tar = match tm {
            Some(_) => with_package(doc_zip, "tar"@),
            None => doc_zip,
        };
        let ghost tarp = match tm {
            Some(m) => Some((spdx_ref(doc_zip.spdx_id + 1), m)),
            None => None,
        };
        proof {
            assert(spdx@ =~= doc_tar);
            assert(total == reconcile_files(doc_tar, git_idv, zipp, tarp, gv));
            assert(zip_package_id matches Some(s) ==> zipp matches Some(zp) && s@ == zp.0);
            assert(tar_package_id matches Some(s) ==> tarp matches Some(tp) && s@ == tp.0);
        }

        let n = git_files.entries.len();
        proof {
            assert(n == gv.len());
            assert(gv.skip(0) =~= gv);
        }
        let mut i: usize = 0;
        while i < n
            invariant
                0 <= i <= n,
                0 <= spdx@.spdx_id,
                spdx@.spdx_id + (n - i) <= i32::MAX,
                total == reconcile_files(spdx@, git_idv, zipp, tarp, gv.skip(i as int)),
            decreases n - i,
        {
            let path: &String = &git_files.entries[i].0;
            let analyzed: &SpdxFileAnalyzeSuccess = &git_files.entries[i].1;
            let ghost pathv = path@;
            let ghost resv = analyzed@;
            let ghost cur = spdx@;
            let ghost one = reconcile_one(cur, git_idv, zipp, tarp, pathv, resv);
            let ghost fidv = spdx_ref(cur.spdx_id + 1);
            proof {
                assert(gv[i as int] == (pathv, resv));
                assert(gv.skip(i as int)[0] == gv[i as int]);
                assert(gv.skip(i as int).drop_first() =~= gv.skip(i + 1));
            }

            let sum_in_git: &Checksum = analyzed.sha1_checksum();
            let mut file_info = spdx.new_file(path.as_str());
            file_info.file_checksum.push(sum_in_git.duplicate());
            match analyzed.license_information_in_file() {
                Some(license) => {
                    file_info.license_information_in_file.push(license.duplicate());
                },
                None => {},
            }
            let file_id = file_info.file_spdx_identifier.clone();
            let ghost fiv = file_info@;
            proof {
                assert(fiv.file_checksum =~= seq![resv.sha1_checksum]);
                assert(fiv.license_information_in_file =~= match resv.license_information_in_file {
                    Some(l) => seq![l],
                    None => Seq::<crate::models::SimpleExpressionView>::empty(),
                });
                assert(fiv =~= file_entity(pathv, resv, fidv));
            }
            spdx.push_file(file_info);
            spdx.push_contains(git_package_id.as_str(), file_id.as_str());
            let ghost doc2 = with_contains(
                SpdxDocumentView {
                    spdx_id: cur.spdx_id + 1,
                    document_name: cur.document_name,
                    packages: cur.packages,
                    files: cur.files.push(file_entity(pathv, resv, fidv)),
                    relationships: cur.relationships,
                },
                git_idv,
                fidv,
            );
            proof {
                assert(spdx@ =~= doc2);
            }
            let lookup_key = strip_dot_slash_exec(path);
            match &zip_files {
                Some(z) => {
                    let zid: &String = match &zip_package_id {
                        Some(s) => s,
                        None => {
                            proof {
                                assert(false);
                            }
                            unreached()
                        },
                    };
                    match z.get(lookup_key.as_str()) {
                        Some(zip_analyzed) => {
                            let found = zip_analyzed.sha1_checksum();
                            if !(*sum_in_git == *found) {
                                let e = ReconcileError::ChecksumMismatch {
                                    channel: Channel::Zip,
                                    path: lookup_key,
                                    expected: sum_in_git.duplicate(),
                                    found: found.duplicate(),
                                };
                                proof {
                                    assert(one.error == Some(e@) && one.doc == doc2);
                                    assert(total == one);
                                }
                                return Err(e);
                            }
                        },
                        None => {
                            let e = ReconcileError::PathMissing {
                                channel: Channel::Zip,
                                path: lookup_key,
                            };
                            proof {
                                assert(one.error == Some(e@) && one.doc == doc2);
                                assert(total == one);
                            }
                            return Err(e);
                        },
                    }
                    spdx.push_contains(zid.as_str(), file_id.as_str());
                },
                None => {},
            }
            let ghost doc3 = match zipp {
                None => doc2,
                Some(zp) => with_contains(doc2, zp.0, fidv),
            };
            proof {
                assert(spdx@ =~= doc3);
            }
            match &tar_files {
                Some(t) => {
                    let tid: &String = match &tar_package_id {
                        Some(s) => s,
                        None => {
                            proof {
                                assert(false);
                            }
                            unreached()
                        },
                    };
                    match t.get(lookup_key.as_str()) {
                        Some(tar_analyzed) => {
                            let found = tar_analyzed.sha1_checksum();
                            if !(*sum_in_git == *found) {
                                let e = ReconcileError::ChecksumMismatch {
                                    channel: Channel::Tar,
                                    path: lookup_key,
                                    expected: sum_in_git.duplicate(),
                                    found: found.duplicate(),
                                };
                                proof {
                                    assert(one.error == Some(e@) && one.doc == doc3);
                                    assert(total == one);
                                }
                                return Err(e);
                            }
                        },
                        None => {
                            let e = ReconcileError::PathMissing {
                                channel: Channel::Tar,
                                path: lookup_key,
                            };
                            proof {
                                assert(one.error == Some(e@) && one.doc == doc3);
                                assert(total == one);
                            }
                            return Err(e);
                        },
                    }
                    spdx.push_contains(tid.as_str(), file_id.as_str());
                },
                None => {},
            }
            proof {
                assert(one.error is None);
                assert(spdx@ =~= one.doc);
                assert(total == reconcile_files(spdx@, git_idv, zipp, tarp, gv.skip(i + 1)));
            }
            i = i + 1;
        }
        proof {
            assert(gv.skip(n as int) =~= Seq::<(Seq<char>, SpdxFileAnalyzeSuccessView)>::empty());
        }
        Ok(())
    }
}

/// Every identifier in the document was allocated from a counter value
/// between one and the document's current counter, and no identifier
/// stands twice, neither among the packages, nor among the files, nor
/// between a package and a file.
pub open spec fn ids_ok(doc: SpdxDocumentView) -> bool {
    &&& (forall|i: int|
        0 <= i < doc.packages.len() ==> exists|k: int|
            1 <= k <= doc.spdx_id && (#[trigger] doc.packages[i]).package_spdx_identifier
                == spdx_ref(k))
    &&& (forall|i: int|
        0 <= i < doc.files.len() ==> exists|k: int|
            1 <= k <= doc.spdx_id && (#[trigger] doc.files[i]).file_spdx_identifier == spdx_ref(
                k,
            ))
    &&& (forall|i: int, j: int|
        0 <= i < j < doc.packages.len() ==> (#[trigger] doc.packages[i]).package_spdx_identifier
            != (#[trigger] doc.packages[j]).package_spdx_identifier)
    &&& (forall|i: int, j: int|
        0 <= i < j < doc.files.len() ==> (#[trigger] doc.files[i]).file_spdx_identifier != (
        #[trigger] doc.files[j]).file_spdx_identifier)
    &&& (forall|i: int, j: int|
        0 <= i < doc.packages.len() && 0 <= j < doc.files.len() ==> (
        #[trigger] doc.packages[i]).package_spdx_identifier != (
        #[trigger] doc.files[j]).file_spdx_identifier)
}

/// Allocating a package keeps the identifiers distinct and allocated.
proof fn lemma_ids_ok_with_package(doc: SpdxDocumentView, name: Seq<char>)
    requires
        ids_ok(doc),
        doc.spdx_id >= 0,
    ensures
        ids_ok(with_package(doc, name)),
{
    let d2 = with_package(doc, name);
    let fresh = spdx_ref(doc.spdx_id + 1);
    assert forall|i: int|
        0 <= i < d2.packages.len() implies exists|k: int|
        1 <= k <= d2.spdx_id && (#[trigger] d2.packages[i]).package_spdx_identifier == spdx_ref(
            k,
        ) by {
        if i < doc.packages.len() {
            let k = choose|k: int|
                1 <= k <= doc.spdx_id && doc.packages[i].package_spdx_identifier == spdx_ref(k);
            assert(1 <= k <= d2.spdx_id && d2.packages[i].package_spdx_identifier == spdx_ref(k));
        } else {
            assert(d2.packages[i].package_spdx_identifier == spdx_ref(doc.spdx_id + 1));
        }
    }
    assert forall|i: int, j: int|
        0 <= i < j < d2.packages.len() implies (#[trigger] d2.packages[i]).package_spdx_identifier
        != (#[trigger] d2.packages[j]).package_spdx_identifier by {
        if j < doc.packages.len() {
            assert(doc.packages[i].package_spdx_identifier
                != doc.packages[j].package_spdx_identifier);
        } else {
            let k = choose|k: int|
                1 <= k <= doc.spdx_id && doc.packages[i].package_spdx_identifier == spdx_ref(k);
            crate::spdx::lemma_spdx_ref_injective(k, doc.spdx_id + 1);
        }
    }
    assert forall|i: int, j: int|
        0 <= i < d2.packages.len() && 0 <= j < d2.files.len() implies (
    #[trigger] d2.packages[i]).package_spdx_identifier != (
    #[trigger] d2.files[j]).file_spdx_identifier by {
        let kf = choose|k: int|
            1 <= k <= doc.spdx_id && doc.files[j].file_spdx_identifier == spdx_ref(k);
        if i < doc.packages.len() {
            assert(doc.packages[i].package_spdx_identifier != doc.files[j].file_spdx_identifier);
        } else {
            crate::spdx::lemma_spdx_ref_injective(doc.spdx_id + 1, kf);
        }
    }
}

/// Reconciling one authoritative entry keeps the identifiers distinct
/// and allocated, whichever way its channel checks come out.
proof fn lemma_ids_ok_reconcile_one(
    doc: SpdxDocumentView,
    git_id: Seq<char>,
    zip: Option<(Seq<char>, Map<Seq<char>, SpdxFileAnalyzeSuccessView>)>,
    tar: Option<(Seq<char>, Map<Seq<char>, SpdxFileAnalyzeSuccessView>)>,
    path: Seq<char>,
    res: SpdxFileAnalyzeSuccessView,
)
    requires
        ids_ok(doc),
        doc.spdx_id >= 0,
    ensures
        ids_ok(reconcile_one(doc, git_id, zip, tar, path, res).doc),
        reconcile_one(doc, git_id, zip, tar, path, res).doc.spdx_id == doc.spdx_id + 1,
{
    let fid = spdx_ref(doc.spdx_id + 1);
    let doc1 = SpdxDocumentView {
        spdx_id: doc.spdx_id + 1,
        document_name: doc.document_name,
        packages: doc.packages,
        files: doc.files.push(file_entity(path, res, fid)),
        relationships: doc.relationships,
    };
    assert forall|i: int|
        0 <= i < doc1.files.len() implies exists|k: int|
        1 <= k <= doc1.spdx_id && (#[trigger] doc1.files[i]).file_spdx_identifier == spdx_ref(
            k,
        ) by {
        if i < doc.files.len() {
            let k = choose|k: int|
                1 <= k <= doc.spdx_id && doc.files[i].file_spdx_identifier == spdx_ref(k);
            assert(1 <= k <= doc1.spdx_id && doc1.files[i].file_spdx_identifier == spdx_ref(k));
        } else {
            assert(doc1.files[i].file_spdx_identifier == spdx_ref(doc.spdx_id + 1));
        }
    }
    assert forall|i: int, j: int|
        0 <= i < j < doc1.files.len() implies (#[trigger] doc1.files[i]).file_spdx_identifier != (
    #[trigger] doc1.files[j]).file_spdx_identifier by {
        if j < doc.files.len() {
            assert(doc.files[i].file_spdx_identifier != doc.files[j].file_spdx_identifier);
        } else {
            let k = choose|k: int|
                1 <= k <= doc.spdx_id && doc.files[i].file_spdx_identifier == spdx_ref(k);
            crate::spdx::lemma_spdx_ref_injective(k, doc.spdx_id + 1);
        }
    }
    assert forall|i: int, j: int|
        0 <= i < doc1.packages.len() && 0 <= j < doc1.files.len() implies (
    #[trigger] doc1.packages[i]).package_spdx_identifier != (
    #[trigger] doc1.files[j]).file_spdx_identifier by {
        let kp = choose|k: int|
            1 <= k <= doc.spdx_id && doc.packages[i].package_spdx_identifier == spdx_ref(k);
        if j < doc.files.len() {
            assert(doc.packages[i].package_spdx_identifier != doc.files[j].file_spdx_identifier);
        } else {
            crate::spdx::lemma_spdx_ref_injective(kp, doc.spdx_id + 1);
        }
    }
    assert(ids_ok(doc1));
    let doc2 = with_contains(doc1, git_id, fid);
    assert(ids_ok(doc2));
}

/// Reconciling the authoritative entries keeps the identifiers distinct
/// and allocated, wherever the pass stops.
proof fn lemma_ids_ok_reconcile_files(
    doc: SpdxDocumentView,
    git_id: Seq<char>,
    zip: Option<(Seq<char>, Map<Seq<char>, SpdxFileAnalyzeSuccessView>)>,
    tar: Option<(Seq<char>, Map<Seq<char>, SpdxFileAnalyzeSuccessView>)>,
    entries: Seq<(Seq<char>, SpdxFileAnalyzeSuccessView)>,
)
    requires
        ids_ok(doc),
        doc.spdx_id >= 0,
    ensures
        ids_ok(reconcile_files(doc, git_id, zip, tar, entries).doc),
    decreases entries.len(),
{
    if entries.len() > 0 {
        lemma_ids_ok_reconcile_one(doc, git_id, zip, tar, entries[0].0, entries[0].1);
        let one = reconcile_one(doc, git_id, zip, tar, entries[0].0, entries[0].1);
        if one.error is None {
            lemma_ids_ok_reconcile_files(one.doc, git_id, zip, tar, entries.drop_first());
        }
    }
}

/// No identifier is emitted twice within one document: reconciliation of
/// a fresh document yields packages and files whose identifiers are
/// pairwise distinct, each allocated from its own counter value. This
/// holds of the document reached at a divergence as well.
pub proof fn lemma_document_identifiers_unique(
    doc: SpdxDocumentView,
    git: Seq<(Seq<char>, SpdxFileAnalyzeSuccessView)>,
    zip: Option<Map<Seq<char>, SpdxFileAnalyzeSuccessView>>,
    tar: Option<Map<Seq<char>, SpdxFileAnalyzeSuccessView>>,
)
    requires
        doc.spdx_id >= 0,
        doc.packages.len() == 0,
        doc.files.len() == 0,
    ensures
        ids_ok(combine_spec(doc, git, zip, tar).doc),
{
    let doc_git = with_package(doc, "git"@);
    lemma_ids_ok_with_package(doc, "git"@);
    let doc_zip = match zip {
        Some(_) => with_package(doc_git, "zip"@),
        None => doc_git,
    };
    if zip is Some {
        lemma_ids_ok_with_package(doc_git, "zip"@);
    }
    let doc_tar = match tar {
        Some(_) => with_package(doc_zip, "tar"@),
        None => doc_zip,
    };
    if tar is Some {
        lemma_ids_ok_with_package(doc_zip, "tar"@);
    }
    let git_id = spdx_ref(doc.spdx_id + 1);
    let zipp = match zip {
        Some(m) => Some((spdx_ref(doc_git.spdx_id + 1), m)),
        None => None,
    };
    let tarp = match tar {
        Some(m) => Some((spdx_ref(doc_zip.spdx_id + 1), m)),
        None => None,
    };
    lemma_ids_ok_reconcile_files(doc_tar, git_id, zipp, tarp, git);
}

/// The document graph produced by reconciliation does not depend on the
/// entry order of the optional archive result sets, only on the
/// path-to-result mappings they hold; the order of file creation is
/// fixed by the authoritative set's own entry order alone.
pub proof fn lemma_reconcile_archive_order_independent(
    doc: SpdxDocumentView,
    git: Seq<(Seq<char>, SpdxFileAnalyzeSuccessView)>,
    zip_a: Option<FileResultMap>,
    zip_b: Option<FileResultMap>,
    tar_a: Option<FileResultMap>,
    tar_b: Option<FileResultMap>,
)
    requires
        opt_map(zip_a) == opt_map(zip_b),
        opt_map(tar_a) == opt_map(tar_b),
    ensures
        combine_spec(doc, git, opt_map(zip_a), opt_map(tar_a)) == combine_spec(
            doc,
            git,
            opt_map(zip_b),
            opt_map(tar_b),
        ),
{
}

/// Strip a leading `./` from a canonical path, giving the key the
/// archive sets use.
fn strip_dot_slash_exec(p: &String) -> (r: String)
    ensures
        r@ == strip_dot_slash(p@),
{
    let s = p.as_str();
    let n = s.unicode_len();
    if n >= 2 {
        if s.get_char(0) == '.' && s.get_char(1) == '/' {
            return s.substring_char(2, n).to_owned();
        }
    }
    p.clone()
}

} // verus!
