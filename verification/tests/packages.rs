//! Tests of the source adapters: the filesystem-tree walk with its
//! ignore set, the archive adapters' path normalization, and the result
//! mapping.

use sbom_ghr::models::{Algorithm, Checksum};
use sbom_ghr::packages::{
    ArchiveEntry, FileResultMap, FsEntry, FsNode, PackageAnalyzeError, PathPackage, TarPackage,
    ZipPackage,
};
use sbom_ghr::analyzers::SpdxFileAnalyzeSuccess;

fn file(name: &str, content: &[u8]) -> FsEntry {
    FsEntry { name: name.to_string(), node: FsNode::File(content.to_vec()) }
}

fn dir(name: &str, entries: Vec<FsEntry>) -> FsEntry {
    FsEntry { name: name.to_string(), node: FsNode::Dir(entries) }
}

fn success(sum: &str) -> SpdxFileAnalyzeSuccess {
    SpdxFileAnalyzeSuccess {
        license_information_in_file: None,
        sha1_checksum: Checksum::new(Algorithm::SHA1, sum),
    }
}

#[test]
fn filesystem_walk_keys_are_dot_prefixed() {
    let root = FsNode::Dir(vec![
        file("a.txt", b"hello"),
        dir("src", vec![file("lib.rs", b"fn lib() {}\n")]),
    ]);
    let package = PathPackage::new(root);
    let results = package.analyze_files().unwrap();
    assert_eq!(results.len(), 2);
    assert!(results.get("./a.txt").is_some());
    assert!(results.get("./src/lib.rs").is_some());
    assert!(results.get("a.txt").is_none());
}

#[test]
fn filesystem_walk_computes_checksums() {
    let root = FsNode::Dir(vec![file("a.txt", b"hello")]);
    let results = PathPackage::new(root).analyze_files().unwrap();
    let analyzed = results.get("./a.txt").unwrap();
    assert_eq!(
        analyzed.sha1_checksum().value.as_str(),
        "aaf4c61ddcc5e8a2dabede0f3b482cd9aea9434d"
    );
}

#[test]
fn filesystem_walk_finds_licenses() {
    let root = FsNode::Dir(vec![file(
        "license.rs",
        b"// SPDX-License-Identifier: MIT\nfn f() {}\n",
    )]);
    let results = PathPackage::new(root).analyze_files().unwrap();
    let analyzed = results.get("./license.rs").unwrap();
    let exp = analyzed.license_information_in_file().as_ref().unwrap();
    assert_eq!(exp.identifier.as_str(), "MIT");
}

#[test]
fn filesystem_ignore_set_prunes_subtrees() {
    // An ignore set holding "build" keeps everything under the build
    // directory out of the result mapping; sibling files stay in.
    let root = FsNode::Dir(vec![
        dir("build", vec![file("artifact.bin", b"binary"), file("log.txt", b"log")]),
        file("a.txt", b"hello"),
    ]);
    let mut package = PathPackage::new(root);
    package.append_ignore("build");
    let results = package.analyze_files().unwrap();
    assert_eq!(results.len(), 1);
    assert!(results.get("./a.txt").is_some());
    assert!(results.get("./build/artifact.bin").is_none());
    assert!(results.get("./build/log.txt").is_none());
}

#[test]
fn filesystem_ignore_matches_exact_relative_path() {
    let root = FsNode::Dir(vec![
        dir("src", vec![file("a.txt", b"one")]),
        file("a.txt", b"two"),
    ]);
    let mut package = PathPackage::new(root);
    package.append_ignore("src/a.txt");
    let results = package.analyze_files().unwrap();
    assert_eq!(results.len(), 1);
    assert!(results.get("./a.txt").is_some());
    assert!(results.get("./src/a.txt").is_none());
}

#[test]
fn filesystem_root_must_be_a_directory() {
    let package = PathPackage::new(FsNode::File(b"bytes".to_vec()));
    match package.analyze_files() {
        Err(PackageAnalyzeError::Io(_)) => {},
        _ => panic!("expected an io error for a file root"),
    }
}

#[test]
fn filesystem_license_failure_aborts_with_path_context() {
    let root = FsNode::Dir(vec![
        file("ok.txt", b"no marker"),
        file("bad.rs", b"// SPDX-License-Identifier: MIT OR ISC\n"),
    ]);
    match PathPackage::new(root).analyze_files() {
        Err(PackageAnalyzeError::Context(message, inner)) => {
            assert_eq!(message.as_str(), "analyzing file ./bad.rs");
            assert!(matches!(*inner, PackageAnalyzeError::FileAnalyze(_)));
        },
        _ => panic!("expected a contextualized analyzer error"),
    }
}

#[test]
fn tar_adapter_strips_leading_component() {
    let entries = vec![
        ArchiveEntry { path: "pkg-1.0/a.txt".to_string(), data: b"hello".to_vec() },
        ArchiveEntry { path: "pkg-1.0/src/lib.rs".to_string(), data: b"lib".to_vec() },
    ];
    let results = TarPackage::from_read(entries).analyze_files().unwrap();
    assert_eq!(results.len(), 2);
    assert!(results.get("a.txt").is_some());
    assert!(results.get("src/lib.rs").is_some());
    assert!(results.get("pkg-1.0/a.txt").is_none());
}

#[test]
fn zip_adapter_strips_leading_component() {
    let entries = vec![ArchiveEntry { path: "pkg-1.0/a.txt".to_string(), data: b"hello".to_vec() }];
    let results = ZipPackage::from_read(entries).analyze_files().unwrap();
    assert!(results.get("a.txt").is_some());
    assert_eq!(
        results.get("a.txt").unwrap().sha1_checksum().value.as_str(),
        "aaf4c61ddcc5e8a2dabede0f3b482cd9aea9434d"
    );
}

#[test]
fn archive_path_without_slash_is_kept() {
    let entries = vec![ArchiveEntry { path: "README".to_string(), data: b"read me".to_vec() }];
    let results = TarPackage::from_read(entries).analyze_files().unwrap();
    assert!(results.get("README").is_some());
}

#[test]
fn archive_license_failure_aborts_with_path_context() {
    let entries = vec![ArchiveEntry {
        path: "pkg/bad.rs".to_string(),
        data: b"// SPDX-License-Identifier: ???\n".to_vec(),
    }];
    match ZipPackage::from_read(entries).analyze_files() {
        Err(PackageAnalyzeError::Context(message, _)) => {
            assert_eq!(message.as_str(), "analyzing file bad.rs");
        },
        _ => panic!("expected a contextualized analyzer error"),
    }
}

#[test]
fn result_map_insert_and_get() {
    let mut map = FileResultMap::new();
    map.insert("./a.txt".to_string(), success("1111"));
    map.insert("./b.txt".to_string(), success("2222"));
    assert_eq!(map.len(), 2);
    assert_eq!(map.get("./a.txt").unwrap().sha1_checksum().value.as_str(), "1111");
    assert_eq!(map.get("./b.txt").unwrap().sha1_checksum().value.as_str(), "2222");
    assert!(map.get("./c.txt").is_none());
}

#[test]
fn result_map_insert_replaces_existing_key() {
    let mut map = FileResultMap::new();
    map.insert("./a.txt".to_string(), success("1111"));
    map.insert("./a.txt".to_string(), success("2222"));
    assert_eq!(map.len(), 1);
    assert_eq!(map.get("./a.txt").unwrap().sha1_checksum().value.as_str(), "2222");
}

#[test]
fn is_ignore_matches_only_listed_paths() {
    let mut package = PathPackage::new(FsNode::Dir(Vec::new()));
    package.append_ignore("target");
    package.append_ignore(".git");
    assert!(package.is_ignore(&"target".to_string()));
    assert!(package.is_ignore(&".git".to_string()));
    assert!(!package.is_ignore(&"src".to_string()));
    assert!(!package.is_ignore(&"target/debug".to_string()));
}

#[test]
fn with_context_wraps_and_keeps_the_cause() {
    let inner = PackageAnalyzeError::Io("read failed".to_string());
    match PackageAnalyzeError::with_context("while scanning", inner) {
        PackageAnalyzeError::Context(message, cause) => {
            assert_eq!(message.as_str(), "while scanning");
            assert!(matches!(*cause, PackageAnalyzeError::Io(_)));
        },
        _ => panic!("expected a context error"),
    }
}
