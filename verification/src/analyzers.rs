//! The per-file analysis pipeline: a common capability for stateful byte
//! sinks, the two concrete analyzers (content checksum and license-tag
//! scan), and the composite analyzer that fans one stream out to both.

use vstd::prelude::*;

use crate::models::{Checksum, ChecksumView, SimpleExpression, SimpleExpressionView};

pub mod license;
pub mod sha1;

verus! {

/// A stateful analyzer of one file's byte stream: bytes are appended in
/// arrival order, and `finish` consumes the analyzer and yields its
/// terminal output.
pub trait FileAnalyzer: Sized {
    type Output;

    /// The bytes fed to this analyzer so far, in order.
    spec fn fed(&self) -> Seq<u8>;

    /// The analyzer's internal state is consistent.
    spec fn wf(&self) -> bool;

    /// What `finish` returns, as a function of the bytes fed.
    spec fn finish_post(&self, r: &Self::Output) -> bool;

    fn write(&mut self, buf: &[u8])
        requires
            old(self).wf(),
        ensures
            final(self).wf(),
            final(self).fed() == old(self).fed() + buf@,
    ;

    fn flush(&mut self)
        requires
            old(self).wf(),
        ensures
            final(self).wf(),
            final(self).fed() == old(self).fed(),
    ;

    fn finish(self) -> (r: Self::Output)
        requires
            self.wf(),
        ensures
            self.finish_post(&r),
    ;
}

/// Why analyzing one file failed.
#[derive(Debug)]
pub enum SpdxFileAnalyzeError {
    /// A compliance marker line was found but its trailing text did not
    /// parse as a license expression.
    LicenseParseError,
    /// Reading the file's bytes failed; carries a description of the
    /// failure. Raised by the surrounding program, never by the analyzers
    /// themselves.
    IoError(String),
}

impl SpdxFileAnalyzeError {
    /// A human-readable description of the failure.
    pub fn message(&self) -> (r: String)
        ensures
            match self {
                SpdxFileAnalyzeError::LicenseParseError => r@ == "parse license failed"@,
                SpdxFileAnalyzeError::IoError(m) => r@ == m@,
            },
    {
        match self {
            SpdxFileAnalyzeError::LicenseParseError => "parse license failed".to_owned(),
            SpdxFileAnalyzeError::IoError(m) => m.clone(),
        }
    }
}

/// One file's completed analysis: the content checksum, and the license
/// information found in the file, if any.
pub struct SpdxFileAnalyzeSuccess {
    pub license_information_in_file: Option<SimpleExpression>,
    pub sha1_checksum: Checksum,
}

/// The mathematical value of a [`SpdxFileAnalyzeSuccess`].
#[verifier::ext_equal]
pub struct SpdxFileAnalyzeSuccessView {
    pub license_information_in_file: Option<SimpleExpressionView>,
    pub sha1_checksum: ChecksumView,
}

impl View for SpdxFileAnalyzeSuccess {
    type V = SpdxFileAnalyzeSuccessView;

    open spec fn view(&self) -> SpdxFileAnalyzeSuccessView {
        SpdxFileAnalyzeSuccessView {
            license_information_in_file: match self.license_information_in_file {
                Some(l) => Some(l@),
                None => None,
            },
            sha1_checksum: self.sha1_checksum@,
        }
    }
}

impl SpdxFileAnalyzeSuccess {
    /// The content checksum of the analyzed file.
    pub fn sha1_checksum(&self) -> (r: &Checksum)
        ensures
            *r == self.sha1_checksum,
    {
        &self.sha1_checksum
    }

    /// The license information found in the analyzed file, if any.
    pub fn license_information_in_file(&self) -> (r: &Option<SimpleExpression>)
        ensures
            *r == self.license_information_in_file,
    {
        &self.license_information_in_file
    }
}

/// The analysis result for a complete byte content: the checksum of the
/// bytes, and the file's license scan. An error means the license scan
/// failed; there is no error path for the checksum.
pub open spec fn analyze_spec(bytes: Seq<u8>) -> Result<SpdxFileAnalyzeSuccessView, ()> {
    match license::license_scan_spec(bytes) {
        Ok(l) => Ok(
            SpdxFileAnalyzeSuccessView {
                license_information_in_file: l,
                sha1_checksum: sha1::sha1_checksum_of(bytes),
            },
        ),
        Err(_) => Err(()),
    }
}

/// A file with no compliance marker line analyzes successfully with no
/// license information: absence of the marker is never an error.
pub proof fn lemma_license_absent_without_marker(bytes: Seq<u8>)
    requires
        forall|p: int| !license::is_marker_at(bytes, p),
    ensures
        analyze_spec(bytes) matches Ok(s) && s.license_information_in_file is None,
{
    license::lemma_find_marker_none(bytes, 0);
}

/// A file whose first compliance marker line carries a trailing text
/// that parses analyzes successfully, and its license information is
/// exactly that parse.
pub proof fn lemma_license_from_marker_tail(bytes: Seq<u8>)
    requires
        license::marker_tail(bytes) is Some,
        license::license_parse_spec(license::marker_tail(bytes)->Some_0) is Some,
    ensures
        analyze_spec(bytes) matches Ok(s) && s.license_information_in_file
            == license::license_parse_spec(license::marker_tail(bytes)->Some_0),
{
}

/// The analysis of a file depends only on the concatenation of the byte
/// chunks written to the analyzer, never on how the content was split
/// into chunks.
pub proof fn lemma_analysis_chunking_invariant(chunks_a: Seq<Seq<u8>>, chunks_b: Seq<Seq<u8>>)
    requires
        chunks_a.flatten() == chunks_b.flatten(),
    ensures
        analyze_spec(chunks_a.flatten()) == analyze_spec(chunks_b.flatten()),
{
}

/// Analyzing equal byte contents yields equal checksums: the checksum is
/// a function of the content alone.
pub proof fn lemma_checksum_deterministic(bytes_a: Seq<u8>, bytes_b: Seq<u8>)
    requires
        bytes_a == bytes_b,
    ensures
        sha1::sha1_checksum_of(bytes_a) == sha1::sha1_checksum_of(bytes_b),
{
}

/// Fans one byte stream out to the license scanner and the checksum
/// analyzer, in that fixed order, and aggregates their outputs.
pub struct SpdxFileAnalyzer {
    pub license_analyzer: license::SourceLicenceAnalyzer,
    pub sha1_analyzer: sha1::Sha1Writer,
}

impl SpdxFileAnalyzer {
    /// A fresh composite analyzer with nothing written.
    pub fn new() -> (r: SpdxFileAnalyzer)
        ensures
            r.wf(),
            r.fed() == Seq::<u8>::empty(),
    {
        SpdxFileAnalyzer {
            license_analyzer: license::SourceLicenceAnalyzer::new(),
            sha1_analyzer: sha1::Sha1Writer::new(),
        }
    }
}

impl FileAnalyzer for SpdxFileAnalyzer {
    type Output = Result<SpdxFileAnalyzeSuccess, SpdxFileAnalyzeError>;

    open spec fn fed(&self) -> Seq<u8> {
        self.license_analyzer.fed()
    }

    open spec fn wf(&self) -> bool {
        &&& self.license_analyzer.wf()
        &&& self.sha1_analyzer.wf()
        &&& self.license_analyzer.fed() == self.sha1_analyzer.fed()
    }

    open spec fn finish_post(&self, r: &Self::Output) -> bool {
        match r {
            Ok(s) => analyze_spec(self.fed()) == Ok::<SpdxFileAnalyzeSuccessView, ()>(s@),
            Err(e) => analyze_spec(self.fed()) is Err && e is LicenseParseError,
        }
    }

    fn write(&mut self, buf: &[u8]) {
        self.license_analyzer.write(buf);
        self.sha1_analyzer.write(buf);
    }

    fn flush(&mut self) {
        self.license_analyzer.flush();
        self.sha1_analyzer.flush();
    }

    fn finish(self) -> (r: Self::Output) {
        let license_information_in_file = match self.license_analyzer.finish() {
            Ok(l) => l,
            Err(e) => {
                return Err(e);
            },
        };
        let sha1_checksum = self.sha1_analyzer.finish();
        Ok(SpdxFileAnalyzeSuccess { license_information_in_file, sha1_checksum })
    }
}

} // verus!
