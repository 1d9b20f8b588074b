//! The document graph: packages, files and "contains" relationships,
//! with a monotonically increasing identifier allocator owned by the
//! document. Only the reconciliation pass mutates a document; the
//! surrounding program serializes it. Small text helpers of the
//! serialization (identifier validation, text wrapping, checksum
//! formatting) are verified here as well.

use vstd::prelude::*;

use crate::analyzers::{SpdxFileAnalyzeError, SpdxFileAnalyzeSuccess};
use crate::models::{Algorithm, Checksum, ChecksumView, SimpleExpression, SimpleExpressionView};

verus! {

/// The decimal digit character for a value below ten.
pub open spec fn digit_char(d: int) -> char {
    if d == 0 { '0' }
    else if d == 1 { '1' }
    else if d == 2 { '2' }
    else if d == 3 { '3' }
    else if d == 4 { '4' }
    else if d == 5 { '5' }
    else if d == 6 { '6' }
    else if d == 7 { '7' }
    else if d == 8 { '8' }
    else { '9' }
}

/// The decimal digits of a nonnegative number, most significant first.
pub open spec fn dec_digits(n: int) -> Seq<char>
    recommends
        n >= 0,
    decreases n,
{
    if n < 10 {
        seq![digit_char(n)]
    } else {
        dec_digits(n / 10) + seq![digit_char(n % 10)]
    }
}

/// The SPDX identifier allocated for a counter value.
pub open spec fn spdx_ref(n: int) -> Seq<char>
    recommends
        n >= 0,
{
    "SPDXRef-"@ + dec_digits(n)
}

/// A decimal rendering holds at least one digit.
proof fn lemma_dec_digits_len(n: int)
    requires
        n >= 0,
    ensures
        dec_digits(n).len() >= 1,
    decreases n,
{
    if n >= 10 {
        lemma_dec_digits_len(n / 10);
    }
}

/// Distinct nonnegative numbers render to distinct decimal digit
/// sequences.
proof fn lemma_dec_digits_injective(a: int, b: int)
    requires
        a >= 0,
        b >= 0,
        dec_digits(a) == dec_digits(b),
    ensures
        a == b,
    decreases a,
{
    lemma_dec_digits_len(a);
    lemma_dec_digits_len(b);
    if a < 10 && b < 10 {
        assert(dec_digits(a)[0] == digit_char(a));
        assert(dec_digits(b)[0] == digit_char(b));
    } else if a >= 10 && b >= 10 {
        assert(dec_digits(a).last() == digit_char(a % 10));
        assert(dec_digits(b).last() == digit_char(b % 10));
        assert(dec_digits(a).drop_last() =~= dec_digits(a / 10));
        assert(dec_digits(b).drop_last() =~= dec_digits(b / 10));
        lemma_dec_digits_injective(a / 10, b / 10);
    } else if a < 10 {
        assert(dec_digits(b).len() == dec_digits(b / 10).len() + 1);
        lemma_dec_digits_len(b / 10);
        assert(false);
    } else {
        assert(dec_digits(a).len() == dec_digits(a / 10).len() + 1);
        lemma_dec_digits_len(a / 10);
        assert(false);
    }
}

/// The identifier allocator never emits one identifier twice: distinct
/// counter values give distinct SPDX identifiers, and every allocation
/// uses a fresh counter value.
pub proof fn lemma_spdx_ref_injective(a: int, b: int)
    requires
        a >= 0,
        b >= 0,
        a != b,
    ensures
        spdx_ref(a) != spdx_ref(b),
{
    if spdx_ref(a) == spdx_ref(b) {
        let p = "SPDXRef-"@;
        assert(spdx_ref(a) == p + dec_digits(a));
        assert(spdx_ref(b) == p + dec_digits(b));
        assert((p + dec_digits(a)).len() == p.len() + dec_digits(a).len());
        assert((p + dec_digits(b)).len() == p.len() + dec_digits(b).len());
        assert(dec_digits(a).len() == dec_digits(b).len());
        assert forall|k: int| 0 <= k < dec_digits(a).len() implies dec_digits(a)[k] == dec_digits(
            b,
        )[k] by {
            assert(spdx_ref(a)[p.len() + k] == dec_digits(a)[k]);
            assert(spdx_ref(b)[p.len() + k] == dec_digits(b)[k]);
        }
        assert(dec_digits(a) =~= dec_digits(b));
        lemma_dec_digits_injective(a, b);
    }
}

/// The decimal digit string for a value below ten.
fn digit_str(d: i32) -> (r: &'static str)
    requires
        0 <= d < 10,
    ensures
        r@ == seq![digit_char(d as int)],
{
    proof {
        reveal_strlit("0");
        reveal_strlit("1");
        reveal_strlit("2");
        reveal_strlit("3");
        reveal_strlit("4");
        reveal_strlit("5");
        reveal_strlit("6");
        reveal_strlit("7");
        reveal_strlit("8");
        reveal_strlit("9");
        assert("0"@ =~= seq!['0']);
        assert("1"@ =~= seq!['1']);
        assert("2"@ =~= seq!['2']);
        assert("3"@ =~= seq!['3']);
        assert("4"@ =~= seq!['4']);
        assert("5"@ =~= seq!['5']);
        assert("6"@ =~= seq!['6']);
        assert("7"@ =~= seq!['7']);
        assert("8"@ =~= seq!['8']);
        assert("9"@ =~= seq!['9']);
    }
    match d {
        0 => "0",
        1 => "1",
        2 => "2",
        3 => "3",
        4 => "4",
        5 => "5",
        6 => "6",
        7 => "7",
        8 => "8",
        _ => "9",
    }
}

/// Format a nonnegative number in decimal.
fn dec_string(n: i32) -> (r: String)
    requires
        n >= 0,
    ensures
        r@ == dec_digits(n as int),
    decreases n,
{
    if n < 10 {
        digit_str(n).to_owned()
    } else {
        let mut s = dec_string(n / 10);
        s.append(digit_str(n % 10));
        s
    }
}

/// Format the SPDX identifier for a counter value.
fn spdx_ref_exec(n: i32) -> (r: String)
    requires
        n >= 0,
    ensures
        r@ == spdx_ref(n as int),
{
    let mut s: String = "SPDXRef-".to_owned();
    s.append(dec_string(n).as_str());
    s
}

/// One distribution channel of the release, as a package entity.
pub struct PackageInformation {
    pub package_name: String,
    pub package_spdx_identifier: String,
}

/// The mathematical value of a [`PackageInformation`].
#[verifier::ext_equal]
pub struct PackageInformationView {
    pub package_name: Seq<char>,
    pub package_spdx_identifier: Seq<char>,
}

impl View for PackageInformation {
    type V = PackageInformationView;

    open spec fn view(&self) -> PackageInformationView {
        PackageInformationView {
            package_name: self.package_name@,
            package_spdx_identifier: self.package_spdx_identifier@,
        }
    }
}

/// One logical file of the release, correlated across channels: its
/// name, its identifier, one checksum per channel it was verified
/// against, and the license information found in it.
pub struct FileInformation {
    pub file_name: String,
    pub file_spdx_identifier: String,
    pub file_checksum: Vec<Checksum>,
    pub license_information_in_file: Vec<SimpleExpression>,
}

/// The mathematical value of a [`FileInformation`].
#[verifier::ext_equal]
pub struct FileInformationView {
    pub file_name: Seq<char>,
    pub file_spdx_identifier: Seq<char>,
    pub file_checksum: Seq<ChecksumView>,
    pub license_information_in_file: Seq<SimpleExpressionView>,
}

impl View for FileInformation {
    type V = FileInformationView;

    open spec fn view(&self) -> FileInformationView {
        FileInformationView {
            file_name: self.file_name@,
            file_spdx_identifier: self.file_spdx_identifier@,
            file_checksum: self.file_checksum@.map_values(|c: Checksum| c@),
            license_information_in_file: self.license_information_in_file@.map_values(
                |l: SimpleExpression| l@,
            ),
        }
    }
}

/// The kinds of relationship the document records.
#[derive(Clone, Copy, Debug, PartialEq, Eq, Structural)]
pub enum RelationshipType {
    Contains,
}

/// One graph edge: the element on the left stands in the given
/// relationship to the element on the right.
pub struct Relationship {
    pub spdx_element_id: String,
    pub related_spdx_element: String,
    pub relationship_type: RelationshipType,
}

/// The mathematical value of a [`Relationship`].
#[verifier::ext_equal]
pub struct RelationshipView {
    pub spdx_element_id: Seq<char>,
    pub related_spdx_element: Seq<char>,
    pub relationship_type: RelationshipType,
}

impl View for Relationship {
    type V = RelationshipView;

    open spec fn view(&self) -> RelationshipView {
        RelationshipView {
            spdx_element_id: self.spdx_element_id@,
            related_spdx_element: self.related_spdx_element@,
            relationship_type: self.relationship_type,
        }
    }
}

/// The document graph under construction: a name, the identifier
/// allocator, and the entity lists.
pub struct SpdxDocument {
    pub spdx_id: i32,
    pub document_name: String,
    pub packages: Vec<PackageInformation>,
    pub files: Vec<FileInformation>,
    pub relationships: Vec<Relationship>,
}

/// The mathematical value of a [`SpdxDocument`].
#[verifier::ext_equal]
pub struct SpdxDocumentView {
    pub spdx_id: int,
    pub document_name: Seq<char>,
    pub packages: Seq<PackageInformationView>,
    pub files: Seq<FileInformationView>,
    pub relationships: Seq<RelationshipView>,
}

impl View for SpdxDocument {
    type V = SpdxDocumentView;

    open spec fn view(&self) -> SpdxDocumentView {
        SpdxDocumentView {
            spdx_id: self.spdx_id as int,
            document_name: self.document_name@,
            packages: self.packages@.map_values(|p: PackageInformation| p@),
            files: self.files@.map_values(|f: FileInformation| f@),
            relationships: self.relationships@.map_values(|r: Relationship| r@),
        }
    }
}

impl SpdxDocument {
    /// An empty document with the given name; no identifier is allocated
    /// yet.
    pub fn new(name: &str) -> (r: SpdxDocument)
        ensures
            r@.spdx_id == 0,
            r@.document_name == name@,
            r@.packages == Seq::<PackageInformationView>::empty(),
            r@.files == Seq::<FileInformationView>::empty(),
            r@.relationships == Seq::<RelationshipView>::empty(),
    {
        let r = SpdxDocument {
            spdx_id: 0,
            document_name: name.to_owned(),
            packages: Vec::new(),
            files: Vec::new(),
            relationships: Vec::new(),
        };
        proof {
            assert(r@.packages =~= Seq::<PackageInformationView>::empty());
            assert(r@.files =~= Seq::<FileInformationView>::empty());
            assert(r@.relationships =~= Seq::<RelationshipView>::empty());
        }
        r
    }

    /// Allocate the next identifier and build a package entity under it.
    /// The package is registered only by a later `push_package`.
    pub fn new_package(&mut self, name: &str) -> (r: PackageInformation)
        requires
            0 <= old(self).spdx_id < i32::MAX,
        ensures
            final(self).spdx_id == old(self).spdx_id + 1,
            final(self).document_name == old(self).document_name,
            final(self).packages == old(self).packages,
            final(self).files == old(self).files,
            final(self).relationships == old(self).relationships,
            r@.package_name == name@,
            r@.package_spdx_identifier == spdx_ref(old(self).spdx_id + 1),
    {
        self.spdx_id = self.spdx_id + 1;
        PackageInformation {
            package_name: name.to_owned(),
            package_spdx_identifier: spdx_ref_exec(self.spdx_id),
        }
    }

    /// Register a package entity in the document.
    pub fn push_package(&mut self, package: PackageInformation)
        ensures
            final(self).spdx_id == old(self).spdx_id,
            final(self).document_name == old(self).document_name,
            final(self)@.packages == old(self)@.packages.push(package@),
            final(self).files == old(self).files,
            final(self).relationships == old(self).relationships,
    {
        let ghost pv = package@;
        self.packages.push(package);
        proof {
            assert(self@.packages =~= old(self)@.packages.push(pv));
        }
    }

    /// Allocate the next identifier and build a file entity under it,
    /// with no checksums and no license information yet. The file is
    /// registered only by a later `push_file`.
    pub fn new_file(&mut self, name: &str) -> (r: FileInformation)
        requires
            0 <= old(self).spdx_id < i32::MAX,
        ensures
            final(self).spdx_id == old(self).spdx_id + 1,
            final(self).document_name == old(self).document_name,
            final(self).packages == old(self).packages,
            final(self).files == old(self).files,
            final(self).relationships == old(self).relationships,
            r@.file_name == name@,
            r@.file_spdx_identifier == spdx_ref(old(self).spdx_id + 1),
            r@.file_checksum == Seq::<ChecksumView>::empty(),
            r@.license_information_in_file == Seq::<SimpleExpressionView>::empty(),
    {
        self.spdx_id = self.spdx_id + 1;
        let r = FileInformation {
            file_name: name.to_owned(),
            file_spdx_identifier: spdx_ref_exec(self.spdx_id),
            file_checksum: Vec::new(),
            license_information_in_file: Vec::new(),
        };
        proof {
            assert(r@.file_checksum =~= Seq::<ChecksumView>::empty());
            assert(r@.license_information_in_file =~= Seq::<SimpleExpressionView>::empty());
        }
        r
    }

    /// Register a file entity in the document.
    pub fn push_file(&mut self, file: FileInformation)
        ensures
            final(self).spdx_id == old(self).spdx_id,
            final(self).document_name == old(self).document_name,
            final(self).packages == old(self).packages,
            final(self)@.files == old(self)@.files.push(file@),
            final(self).relationships == old(self).relationships,
    {
        let ghost fv = file@;
        self.files.push(file);
        proof {
            assert(self@.files =~= old(self)@.files.push(fv));
        }
    }

    /// Register a "contains" edge from a package to a file.
    pub fn push_contains(&mut self, package_id: &str, file_id: &str)
        ensures
            final(self).spdx_id == old(self).spdx_id,
            final(self).document_name == old(self).document_name,
            final(self).packages == old(self).packages,
            final(self).files == old(self).files,
            final(self)@.relationships == old(self)@.relationships.push(
                RelationshipView {
                    spdx_element_id: package_id@,
                    related_spdx_element: file_id@,
                    relationship_type: RelationshipType::Contains,
                },
            ),
    {
        let relation = Relationship {
            spdx_element_id: package_id.to_owned(),
            related_spdx_element: file_id.to_owned(),
            relationship_type: RelationshipType::Contains,
        };
        let ghost rv = relation@;
        self.relationships.push(relation);
        proof {
            assert(self@.relationships =~= old(self)@.relationships.push(rv));
        }
    }
}

impl SpdxFileAnalyzeSuccess {
    /// Record this analysis on a file entity: the license information, if
    /// any was found, and then the checksum are appended.
    pub fn apply_to_file_info(self, file_info: &mut FileInformation) -> (r: Result<
        (),
        SpdxFileAnalyzeError,
    >)
        ensures
            r is Ok,
            final(file_info).file_name == old(file_info).file_name,
            final(file_info).file_spdx_identifier == old(file_info).file_spdx_identifier,
            final(file_info)@.file_checksum == old(file_info)@.file_checksum.push(
                self@.sha1_checksum,
            ),
            final(file_info)@.license_information_in_file == match self@
                .license_information_in_file {
                Some(l) => old(file_info)@.license_information_in_file.push(l),
                None => old(file_info)@.license_information_in_file,
            },
    {
        let ghost sv = self@;
        match self.license_information_in_file {
            Some(license_expression) => {
                file_info.license_information_in_file.push(license_expression);
            },
            None => {},
        }
        file_info.file_checksum.push(self.sha1_checksum);
        proof {
            assert(file_info@.file_checksum =~= old(file_info)@.file_checksum.push(
                sv.sha1_checksum,
            ));
            assert(file_info@.license_information_in_file =~= match sv
                .license_information_in_file {
                Some(l) => old(file_info)@.license_information_in_file.push(l),
                None => old(file_info)@.license_information_in_file,
            });
        }
        Ok(())
    }
}

/// Whether a character may stand in an SPDX identifier string: ASCII
/// letters and digits, `.`, `-` and `+`.
pub open spec fn valid_id_char(c: char) -> bool {
    ||| ('0' <= c && c <= '9')
    ||| ('a' <= c && c <= 'z')
    ||| ('A' <= c && c <= 'Z')
    ||| c == '.'
    ||| c == '-'
    ||| c == '+'
}

/// Whether every character of an identifier string is allowed.
pub open spec fn valid_id_string(s: Seq<char>) -> bool {
    forall|i: int| 0 <= i < s.len() ==> valid_id_char(s[i])
}

/// Check an identifier string: every character must be an ASCII letter
/// or digit, `.`, `-` or `+`.
pub fn validate_id_string(id_string: &str) -> (r: bool)
    ensures
        r == valid_id_string(id_string@),
{
    let n = id_string.unicode_len();
    let mut i: usize = 0;
    while i < n
        invariant
            n == id_string@.len(),
            0 <= i <= n,
            forall|j: int| 0 <= j < i ==> valid_id_char(id_string@[j]),
        decreases n - i,
    {
        let c = id_string.get_char(i);
        let ok = ('0' <= c && c <= '9') || ('a' <= c && c <= 'z') || ('A' <= c && c <= 'Z') || c
            == '.' || c == '-' || c == '+';
        if !ok {
            return false;
        }
        i = i + 1;
    }
    true
}

/// Wrap a value in the serializer's multi-line text markers.
pub fn wrap_text(wrapping: &str) -> (r: String)
    ensures
        r@ == "<text>"@ + wrapping@ + "</text>"@,
{
    let mut r: String = "<text>".to_owned();
    r.append(wrapping);
    r.append("</text>");
    r
}

/// Wrap an optional value in the serializer's multi-line text markers.
pub fn wrap_text_opt(wrapping: &Option<String>) -> (r: Option<String>)
    ensures
        match wrapping {
            Some(s) => r matches Some(w) && w@ == "<text>"@ + s@ + "</text>"@,
            None => r is None,
        },
{
    match wrapping {
        Some(s) => Some(wrap_text(s.as_str())),
        None => None,
    }
}

/// The serializer's label for a checksum algorithm.
pub open spec fn algorithm_label(a: Algorithm) -> Seq<char> {
    match a {
        Algorithm::SHA1 => "SHA1"@,
        Algorithm::SHA224 => "SHA224"@,
        Algorithm::SHA256 => "SHA256"@,
        Algorithm::SHA384 => "SHA384"@,
        Algorithm::SHA512 => "SHA512"@,
        Algorithm::MD2 => "MD2"@,
        Algorithm::MD4 => "MD4"@,
        Algorithm::MD5 => "MD5"@,
        Algorithm::MD6 => "MD6"@,
    }
}

/// Format a checksum as the serializer writes it: the algorithm's label,
/// a colon and a space, and the hex value.
pub fn format_checksum(checksum: &Checksum) -> (r: String)
    ensures
        r@ == algorithm_label(checksum.algorithm) + ": "@ + checksum.value@,
{
    let label: &str = match checksum.algorithm {
        Algorithm::SHA1 => "SHA1",
        Algorithm::SHA224 => "SHA224",
        Algorithm::SHA256 => "SHA256",
        Algorithm::SHA384 => "SHA384",
        Algorithm::SHA512 => "SHA512",
        Algorithm::MD2 => "MD2",
        Algorithm::MD4 => "MD4",
        Algorithm::MD5 => "MD5",
        Algorithm::MD6 => "MD6",
    };
    let mut r: String = label.to_owned();
    r.append(": ");
    r.append(checksum.value.as_str());
    r
}

} // verus!
