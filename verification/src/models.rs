//! The data model shared by the analyzers and the document graph: checksum
//! algorithms, digests, and parsed simple license expressions.

use vstd::prelude::*;

verus! {

/// The checksum algorithms a digest can be tagged with.
#[derive(Clone, Copy, Debug, PartialEq, Eq, Structural)]
pub enum Algorithm {
    SHA1,
    SHA224,
    SHA256,
    SHA384,
    SHA512,
    MD2,
    MD4,
    MD5,
    MD6,
}

/// A named-algorithm content digest: an algorithm tag and a lower-case hex
/// value.
#[derive(Clone, Debug)]
pub struct Checksum {
    pub algorithm: Algorithm,
    pub value: String,
}

/// The mathematical value of a [`Checksum`].
#[verifier::ext_equal]
pub struct ChecksumView {
    pub algorithm: Algorithm,
    pub value: Seq<char>,
}

impl View for Checksum {
    type V = ChecksumView;

    open spec fn view(&self) -> ChecksumView {
        ChecksumView { algorithm: self.algorithm, value: self.value@ }
    }
}

impl Checksum {
    /// Tag a digest value with its algorithm.
    pub fn new(algorithm: Algorithm, value: &str) -> (r: Checksum)
        ensures
            r@ == (ChecksumView { algorithm, value: value@ }),
    {
        Checksum { algorithm, value: value.to_owned() }
    }
}

impl Checksum {
    /// An equal checksum value. Verified code copies checksums through
    /// this method, whose contract states that the copy is equal.
    pub fn duplicate(&self) -> (r: Checksum)
        ensures
            r == *self,
    {
        Checksum { algorithm: self.algorithm, value: self.value.clone() }
    }
}

impl PartialEq for Checksum {
    fn eq(&self, other: &Checksum) -> (r: bool) {
        self.algorithm == other.algorithm && self.value == other.value
    }
}

impl vstd::std_specs::cmp::PartialEqSpecImpl for Checksum {
    open spec fn obeys_eq_spec() -> bool {
        true
    }

    open spec fn eq_spec(&self, other: &Checksum) -> bool {
        self@ == other@
    }
}

/// A parsed simple SPDX license expression: a license identifier, an
/// optional document reference, and whether the identifier is a user
/// defined license reference.
#[derive(Clone, Debug, PartialEq, Eq)]
pub struct SimpleExpression {
    pub identifier: String,
    pub document_ref: Option<String>,
    pub license_ref: bool,
}

impl SimpleExpression {
    /// An equal expression value. Verified code copies expressions
    /// through this method, whose contract states that the copy is equal.
    pub fn duplicate(&self) -> (r: SimpleExpression)
        ensures
            r == *self,
    {
        SimpleExpression {
            identifier: self.identifier.clone(),
            document_ref: match &self.document_ref {
                Some(d) => Some(d.clone()),
                None => None,
            },
            license_ref: self.license_ref,
        }
    }
}

/// The mathematical value of a [`SimpleExpression`].
#[verifier::ext_equal]
pub struct SimpleExpressionView {
    pub identifier: Seq<char>,
    pub document_ref: Option<Seq<char>>,
    pub license_ref: bool,
}

impl View for SimpleExpression {
    type V = SimpleExpressionView;

    open spec fn view(&self) -> SimpleExpressionView {
        SimpleExpressionView {
            identifier: self.identifier@,
            document_ref: match self.document_ref {
                Some(d) => Some(d@),
                None => None,
            },
            license_ref: self.license_ref,
        }
    }
}

} // verus!
