//! Tests of the document graph and the reconciliation engine: package
//! and file creation, identifier allocation, the cross-channel checks,
//! and order independence of the archive sets.

use sbom_ghr::analyzers::SpdxFileAnalyzeSuccess;
use sbom_ghr::models::{Algorithm, Checksum, SimpleExpression};
use sbom_ghr::packages::FileResultMap;
use sbom_ghr::spdx::{format_checksum, validate_id_string, wrap_text, wrap_text_opt, SpdxDocument};
use sbom_ghr::{Channel, DescribeArgs, ReconcileError};

fn success(sum: &str) -> SpdxFileAnalyzeSuccess {
    SpdxFileAnalyzeSuccess {
        license_information_in_file: None,
        sha1_checksum: Checksum::new(Algorithm::SHA1, sum),
    }
}

fn success_with_license(sum: &str, identifier: &str) -> SpdxFileAnalyzeSuccess {
    SpdxFileAnalyzeSuccess {
        license_information_in_file: Some(SimpleExpression {
            identifier: identifier.to_string(),
            document_ref: None,
            license_ref: false,
        }),
        sha1_checksum: Checksum::new(Algorithm::SHA1, sum),
    }
}

#[test]
fn it_works() {
    let result = 2 + 2;
    assert_eq!(result, 4);
}

#[test]
fn document_allocates_increasing_identifiers() {
    let mut doc = SpdxDocument::new("doc");
    let git_package = doc.new_package("git");
    assert_eq!(git_package.package_spdx_identifier.as_str(), "SPDXRef-1");
    assert_eq!(git_package.package_name.as_str(), "git");
    doc.push_package(git_package);
    let f = doc.new_file("./a.txt");
    assert_eq!(f.file_spdx_identifier.as_str(), "SPDXRef-2");
    doc.push_file(f);
    let tar_package = doc.new_package("tar");
    assert_eq!(tar_package.package_spdx_identifier.as_str(), "SPDXRef-3");
}

#[test]
fn document_records_contains_edges() {
    let mut doc = SpdxDocument::new("doc");
    doc.push_contains("SPDXRef-1", "SPDXRef-2");
    assert_eq!(doc.relationships.len(), 1);
    assert_eq!(doc.relationships[0].spdx_element_id.as_str(), "SPDXRef-1");
    assert_eq!(doc.relationships[0].related_spdx_element.as_str(), "SPDXRef-2");
}

#[test]
fn apply_to_file_info_pushes_checksum_and_license() {
    let mut doc = SpdxDocument::new("doc");
    let mut info = doc.new_file("./a.txt");
    let analyzed = success_with_license("1234", "MIT");
    analyzed.apply_to_file_info(&mut info).unwrap();
    assert_eq!(info.file_checksum.len(), 1);
    assert_eq!(info.file_checksum[0].value.as_str(), "1234");
    assert_eq!(info.license_information_in_file.len(), 1);
    assert_eq!(info.license_information_in_file[0].identifier.as_str(), "MIT");
}

#[test]
fn reconcile_git_and_tar_agreeing() {
    // Matching git and tar sets: two packages, one file, two contains
    // edges.
    let mut doc = SpdxDocument::new("doc");
    let mut git = FileResultMap::new();
    git.insert("./a.txt".to_string(), success("aaaa"));
    let mut tar = FileResultMap::new();
    tar.insert("a.txt".to_string(), success("aaaa"));

    let r = DescribeArgs::combine_file_analyze_result(&mut doc, git, None, Some(tar));
    assert!(r.is_ok());
    assert_eq!(doc.packages.len(), 2);
    assert_eq!(doc.packages[0].package_name.as_str(), "git");
    assert_eq!(doc.packages[1].package_name.as_str(), "tar");
    assert_eq!(doc.files.len(), 1);
    assert_eq!(doc.files[0].file_name.as_str(), "./a.txt");
    assert_eq!(doc.relationships.len(), 2);
    assert_eq!(doc.relationships[0].spdx_element_id.as_str(), "SPDXRef-1");
    assert_eq!(doc.relationships[1].spdx_element_id.as_str(), "SPDXRef-2");
    assert_eq!(doc.relationships[0].related_spdx_element.as_str(), "SPDXRef-3");
}

#[test]
fn reconcile_zip_checksum_mismatch_fails() {
    // A zip digest that differs from the authoritative digest is a hard
    // failure naming the channel, the path, and both digests.
    let mut doc = SpdxDocument::new("doc");
    let mut git = FileResultMap::new();
    git.insert("./a.txt".to_string(), success("aaaa"));
    let mut zip = FileResultMap::new();
    zip.insert("a.txt".to_string(), success("bbbb"));

    let r = DescribeArgs::combine_file_analyze_result(&mut doc, git, Some(zip), None);
    match r {
        Err(ReconcileError::ChecksumMismatch { channel, path, expected, found }) => {
            assert_eq!(channel, Channel::Zip);
            assert_eq!(path.as_str(), "a.txt");
            assert_eq!(expected.value.as_str(), "aaaa");
            assert_eq!(found.value.as_str(), "bbbb");
        },
        _ => panic!("expected a checksum mismatch"),
    }
}

#[test]
fn reconcile_tar_missing_path_fails() {
    // A path present in git but absent from tar is a hard failure naming
    // the tar channel and the path.
    let mut doc = SpdxDocument::new("doc");
    let mut git = FileResultMap::new();
    git.insert("./a.txt".to_string(), success("aaaa"));
    let tar = FileResultMap::new();

    let r = DescribeArgs::combine_file_analyze_result(&mut doc, git, None, Some(tar));
    match r {
        Err(ReconcileError::PathMissing { channel, path }) => {
            assert_eq!(channel, Channel::Tar);
            assert_eq!(path.as_str(), "a.txt");
        },
        _ => panic!("expected a path-missing failure"),
    }
}

#[test]
fn reconcile_git_only() {
    let mut doc = SpdxDocument::new("doc");
    let mut git = FileResultMap::new();
    git.insert("./a.txt".to_string(), success_with_license("aaaa", "MIT"));
    git.insert("./b.txt".to_string(), success("bbbb"));

    let r = DescribeArgs::combine_file_analyze_result(&mut doc, git, None, None);
    assert!(r.is_ok());
    assert_eq!(doc.packages.len(), 1);
    assert_eq!(doc.files.len(), 2);
    assert_eq!(doc.relationships.len(), 2);
    assert_eq!(doc.files[0].license_information_in_file[0].identifier.as_str(), "MIT");
    assert_eq!(doc.files[1].license_information_in_file.len(), 0);
}

#[test]
fn reconcile_ignores_archive_only_files() {
    // Files only in an archive set are silently excluded: the git set
    // alone drives the file inventory.
    let mut doc = SpdxDocument::new("doc");
    let mut git = FileResultMap::new();
    git.insert("./a.txt".to_string(), success("aaaa"));
    let mut zip = FileResultMap::new();
    zip.insert("a.txt".to_string(), success("aaaa"));
    zip.insert("extra.txt".to_string(), success("cccc"));

    let r = DescribeArgs::combine_file_analyze_result(&mut doc, git, Some(zip), None);
    assert!(r.is_ok());
    assert_eq!(doc.files.len(), 1);
    assert_eq!(doc.files[0].file_name.as_str(), "./a.txt");
}

#[test]
fn reconcile_does_not_depend_on_archive_entry_order() {
    // The same archive mapping inserted in two different orders produces
    // the same document.
    let build = |zip: FileResultMap| {
        let mut doc = SpdxDocument::new("doc");
        let mut git = FileResultMap::new();
        git.insert("./a.txt".to_string(), success("aaaa"));
        git.insert("./b.txt".to_string(), success("bbbb"));
        DescribeArgs::combine_file_analyze_result(&mut doc, git, Some(zip), None).unwrap();
        doc
    };

    let mut zip_one = FileResultMap::new();
    zip_one.insert("a.txt".to_string(), success("aaaa"));
    zip_one.insert("b.txt".to_string(), success("bbbb"));
    let mut zip_two = FileResultMap::new();
    zip_two.insert("b.txt".to_string(), success("bbbb"));
    zip_two.insert("a.txt".to_string(), success("aaaa"));

    let doc_one = build(zip_one);
    let doc_two = build(zip_two);

    assert_eq!(doc_one.packages.len(), doc_two.packages.len());
    assert_eq!(doc_one.files.len(), doc_two.files.len());
    assert_eq!(doc_one.relationships.len(), doc_two.relationships.len());
    for (a, b) in doc_one.files.iter().zip(doc_two.files.iter()) {
        assert_eq!(a.file_name, b.file_name);
        assert_eq!(a.file_spdx_identifier, b.file_spdx_identifier);
    }
    for (a, b) in doc_one.relationships.iter().zip(doc_two.relationships.iter()) {
        assert_eq!(a.spdx_element_id, b.spdx_element_id);
        assert_eq!(a.related_spdx_element, b.related_spdx_element);
    }
}

#[test]
fn describe_args_carries_coordinates() {
    let args = DescribeArgs::new("owner".to_string(), "repo".to_string(), "v1.0".to_string());
    assert_eq!(args.owner().as_str(), "owner");
    assert_eq!(args.repo().as_str(), "repo");
    assert_eq!(args.tag().as_str(), "v1.0");
}

#[test]
fn checksum_equality_compares_algorithm_and_value() {
    let a = Checksum::new(Algorithm::SHA1, "abcd");
    let b = Checksum::new(Algorithm::SHA1, "abcd");
    let c = Checksum::new(Algorithm::SHA1, "abce");
    let d = Checksum::new(Algorithm::MD5, "abcd");
    assert!(a == b);
    assert!(a != c);
    assert!(a != d);
}

#[test]
fn validate_id_string_accepts_identifier_characters() {
    assert!(validate_id_string("SPDXRef-1.2-a+B"));
    assert!(validate_id_string(""));
    assert!(!validate_id_string("has space"));
    assert!(!validate_id_string("under_score"));
    assert!(!validate_id_string("colon:"));
}

#[test]
fn wrap_text_adds_markers() {
    assert_eq!(wrap_text("document comment").as_str(), "<text>document comment</text>");
}

#[test]
fn wrap_text_opt_keeps_absence() {
    assert_eq!(
        wrap_text_opt(&Some("note".to_string())),
        Some("<text>note</text>".to_string())
    );
    assert_eq!(wrap_text_opt(&None), None);
}

#[test]
fn format_checksum_labels_the_algorithm() {
    let c = Checksum::new(Algorithm::SHA1, "a9993e364706816aba3e25717850c26c9cd0d89d");
    assert_eq!(
        format_checksum(&c).as_str(),
        "SHA1: a9993e364706816aba3e25717850c26c9cd0d89d"
    );
    let m = Checksum::new(Algorithm::MD5, "1234");
    assert_eq!(format_checksum(&m).as_str(), "MD5: 1234");
}
