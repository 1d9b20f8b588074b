//! Tests of the per-file analysis pipeline: the license-tag scanner, the
//! SHA-1 checksum analyzer, and the composite analyzer.

use sbom_ghr::analyzers::license::SourceLicenceAnalyzer;
use sbom_ghr::analyzers::sha1::Sha1Writer;
use sbom_ghr::analyzers::{FileAnalyzer, SpdxFileAnalyzeError, SpdxFileAnalyzer};
use sbom_ghr::models::Algorithm;

#[test]
fn test_find_license_identifier() {
    let mut analyzer = SourceLicenceAnalyzer::new();
    analyzer.write(b"// SPDX-License-Identifier: GPL-3\n");
    analyzer.write(b"// more comment here");
    analyzer.flush();
    let result = analyzer.finish();
    let result = result.unwrap(); // unwrap Ok
    let result = result.unwrap(); // unwrap Option
    assert_eq!(result.document_ref, None);
    assert_eq!(result.identifier.as_str(), "GPL-3");
}

#[test]
fn license_absent_without_marker() {
    let mut analyzer = SourceLicenceAnalyzer::new();
    analyzer.write(b"fn main() {}\n// just a comment\n");
    let result = analyzer.finish().unwrap();
    assert!(result.is_none());
}

#[test]
fn license_absent_in_empty_file() {
    let analyzer = SourceLicenceAnalyzer::new();
    let result = analyzer.finish().unwrap();
    assert!(result.is_none());
}

#[test]
fn license_found_with_following_content() {
    // A marker line followed by other content: the license is the parse
    // of the trailing text, and no document reference is present.
    let mut analyzer = SpdxFileAnalyzer::new();
    analyzer.write(b"// SPDX-License-Identifier: MIT\n");
    analyzer.write(b"fn main() {}\n");
    let success = analyzer.finish().unwrap();
    let license = success.license_information_in_file().as_ref().unwrap();
    assert_eq!(license.identifier.as_str(), "MIT");
    assert_eq!(license.document_ref, None);
    assert!(!license.license_ref);
}

#[test]
fn license_only_first_marker_line_counts() {
    let mut analyzer = SourceLicenceAnalyzer::new();
    analyzer.write(b"// SPDX-License-Identifier: MIT\n");
    analyzer.write(b"// SPDX-License-Identifier: GPL-3\n");
    let result = analyzer.finish().unwrap().unwrap();
    assert_eq!(result.identifier.as_str(), "MIT");
}

#[test]
fn license_marker_with_tabs_and_spaces() {
    let mut analyzer = SourceLicenceAnalyzer::new();
    analyzer.write(b"# SPDX-License-Identifier: \t  Apache-2.0\n");
    let result = analyzer.finish().unwrap().unwrap();
    assert_eq!(result.identifier.as_str(), "Apache-2.0");
}

#[test]
fn license_marker_line_with_crlf() {
    let mut analyzer = SourceLicenceAnalyzer::new();
    analyzer.write(b"// SPDX-License-Identifier: MIT\r\n");
    analyzer.write(b"more\n");
    let result = analyzer.finish().unwrap().unwrap();
    assert_eq!(result.identifier.as_str(), "MIT");
}

#[test]
fn license_marker_on_last_line_without_newline() {
    let mut analyzer = SourceLicenceAnalyzer::new();
    analyzer.write(b"code\n// SPDX-License-Identifier: ISC");
    let result = analyzer.finish().unwrap().unwrap();
    assert_eq!(result.identifier.as_str(), "ISC");
}

#[test]
fn license_parse_failure_is_an_error() {
    // A marker line whose trailing text is not a simple expression is a
    // hard error for the file, not treated as absence.
    let mut analyzer = SourceLicenceAnalyzer::new();
    analyzer.write(b"// SPDX-License-Identifier: MIT OR ISC\n");
    let result = analyzer.finish();
    assert!(matches!(result, Err(SpdxFileAnalyzeError::LicenseParseError)));
}

#[test]
fn license_empty_tail_is_an_error() {
    let mut analyzer = SourceLicenceAnalyzer::new();
    analyzer.write(b"// SPDX-License-Identifier:\n");
    let result = analyzer.finish();
    assert!(matches!(result, Err(SpdxFileAnalyzeError::LicenseParseError)));
}

#[test]
fn license_document_ref_is_parsed() {
    let mut analyzer = SourceLicenceAnalyzer::new();
    analyzer.write(b"// SPDX-License-Identifier: DocumentRef-Spdx:LicenseRef-Custom\n");
    let result = analyzer.finish().unwrap().unwrap();
    assert_eq!(result.document_ref.as_deref(), Some("Spdx"));
    assert!(result.license_ref);
}

#[test]
fn sha1_known_answer() {
    let mut analyzer = Sha1Writer::new();
    analyzer.write(b"abc");
    let checksum = analyzer.finish();
    assert_eq!(checksum.algorithm, Algorithm::SHA1);
    assert_eq!(checksum.value.as_str(), "a9993e364706816aba3e25717850c26c9cd0d89d");
}

#[test]
fn sha1_of_empty_content() {
    let analyzer = Sha1Writer::new();
    let checksum = analyzer.finish();
    assert_eq!(checksum.value.as_str(), "da39a3ee5e6b4b0d3255bfef95601890afd80709");
}

#[test]
fn sha1_incremental_matches_whole() {
    // Chunking invariance: the checksum depends only on the
    // concatenated content.
    let mut one = Sha1Writer::new();
    one.write(b"hello world");
    let whole = one.finish();
    let mut other = Sha1Writer::new();
    other.write(b"hello");
    other.write(b" ");
    other.write(b"world");
    let chunked = other.finish();
    assert_eq!(whole.value, chunked.value);
}

#[test]
fn analysis_chunking_invariance() {
    // The composite analysis also depends only on the concatenation,
    // byte-by-byte feeding included.
    let content: &[u8] = b"// SPDX-License-Identifier: MIT\nfn main() {}\n";
    let mut whole = SpdxFileAnalyzer::new();
    whole.write(content);
    let whole_result = whole.finish().unwrap();

    let mut bytewise = SpdxFileAnalyzer::new();
    for b in content {
        bytewise.write(&[*b]);
    }
    let byte_result = bytewise.finish().unwrap();

    assert_eq!(whole_result.sha1_checksum().value, byte_result.sha1_checksum().value);
    let la = whole_result.license_information_in_file().as_ref().unwrap();
    let lb = byte_result.license_information_in_file().as_ref().unwrap();
    assert_eq!(la.identifier, lb.identifier);
}

#[test]
fn checksum_deterministic_and_sensitive() {
    // Two analyses of identical bytes agree; a single-byte mutation
    // gives a different digest.
    let mut a = SpdxFileAnalyzer::new();
    a.write(b"same content");
    let ra = a.finish().unwrap();
    let mut b = SpdxFileAnalyzer::new();
    b.write(b"same content");
    let rb = b.finish().unwrap();
    assert_eq!(ra.sha1_checksum().value, rb.sha1_checksum().value);

    let mut c = SpdxFileAnalyzer::new();
    c.write(b"same Content");
    let rc = c.finish().unwrap();
    assert_ne!(ra.sha1_checksum().value, rc.sha1_checksum().value);
}

#[test]
fn composite_forwards_to_both_analyzers() {
    let mut analyzer = SpdxFileAnalyzer::new();
    analyzer.write(b"// SPDX-License-Identifier: MIT\n");
    analyzer.flush();
    let success = analyzer.finish().unwrap();
    assert!(success.license_information_in_file().is_some());
    // SHA-1 of the exact marker line content.
    assert_eq!(success.sha1_checksum().value.len(), 40);
    assert!(success.sha1_checksum().value.chars().all(|c| c.is_ascii_hexdigit()));
}

#[test]
fn composite_error_message() {
    let mut analyzer = SpdxFileAnalyzer::new();
    analyzer.write(b"// SPDX-License-Identifier: not a license!!\n");
    match analyzer.finish() {
        Err(e) => assert_eq!(e.message(), "parse license failed"),
        Ok(_) => panic!("expected a license parse error"),
    }
}
