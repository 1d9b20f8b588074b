//! The license-tag scanner: buffers a file's byte stream and, on
//! `finish`, scans it for the first compliance marker line
//! (`SPDX-License-Identifier:`), strips the marker and the leading
//! spaces/tabs, and parses the rest of the line as a simple license
//! expression. A file without a marker line yields no license
//! information; a marker line whose trailing text does not parse is an
//! error for the whole file.

use vstd::prelude::*;
use vstd::slice::slice_subrange;

use crate::analyzers::{FileAnalyzer, SpdxFileAnalyzeError};
use crate::models::{SimpleExpression, SimpleExpressionView};

verus! {

/// The compliance marker, as bytes: `SPDX-License-Identifier:`.
pub open spec fn marker() -> Seq<u8> {
    seq![
        83u8, 80u8, 68u8, 88u8, 45u8, 76u8, 105u8, 99u8, 101u8, 110u8, 115u8, 101u8, 45u8, 73u8,
        100u8, 101u8, 110u8, 116u8, 105u8, 102u8, 105u8, 101u8, 114u8, 58u8,
    ]
}

/// The first position at or after `from` where the marker occurs in `c`.
pub open spec fn find_marker_from(c: Seq<u8>, from: int) -> Option<int>
    decreases c.len() - from,
{
    if from < 0 || from + marker().len() > c.len() {
        None
    } else if c.subrange(from, from + marker().len() as int) == marker() {
        Some(from)
    } else {
        find_marker_from(c, from + 1)
    }
}

/// The first position at or after `from` holding byte `b`.
pub open spec fn find_byte_from(c: Seq<u8>, from: int, b: u8) -> Option<int>
    decreases c.len() - from,
{
    if from < 0 || from >= c.len() {
        None
    } else if c[from] == b {
        Some(from)
    } else {
        find_byte_from(c, from + 1, b)
    }
}

/// The whitespace classes skipped between the marker and the expression:
/// space and horizontal tab, no others.
pub open spec fn is_space_or_tab(b: u8) -> bool {
    b == 32u8 || b == 9u8
}

/// The first position at or after `from` holding a byte that is not a
/// space or tab.
pub open spec fn skip_ws_from(c: Seq<u8>, from: int) -> int
    decreases c.len() - from,
{
    if 0 <= from < c.len() && is_space_or_tab(c[from]) {
        skip_ws_from(c, from + 1)
    } else {
        from
    }
}

/// Whether the marker stands at position `p` of `c`.
pub open spec fn is_marker_at(c: Seq<u8>, p: int) -> bool {
    &&& 0 <= p
    &&& p + marker().len() <= c.len()
    &&& c.subrange(p, p + marker().len() as int) == marker()
}

/// A content in which the marker stands nowhere at or after `from` has
/// no marker found from there.
pub proof fn lemma_find_marker_none(c: Seq<u8>, from: int)
    requires
        0 <= from,
        forall|p: int| !is_marker_at(c, p),
    ensures
        find_marker_from(c, from) is None,
    decreases c.len() - from,
{
    if !(from + marker().len() > c.len()) {
        assert(!is_marker_at(c, from));
        lemma_find_marker_none(c, from + 1);
    }
}

/// The trailing license text of the first compliance marker line: the
/// bytes after the marker with leading spaces/tabs skipped, up to the end
/// of that line, with a carriage return before the line feed stripped.
/// `None` where no marker occurs in the content.
pub open spec fn marker_tail(c: Seq<u8>) -> Option<Seq<u8>> {
    match find_marker_from(c, 0) {
        None => None,
        Some(p) => {
            let start0 = p + marker().len() as int;
            let start = skip_ws_from(c, start0);
            let end = match find_byte_from(c, start0, 10u8) {
                Some(e) => if e > start && c[e - 1] == 13u8 { e - 1 } else { e },
                None => c.len() as int,
            };
            Some(c.subrange(start, end))
        },
    }
}

/// What the license-expression parser returns for a given trailing text,
/// a function of that text alone.
pub uninterp spec fn license_parse_spec(tail: Seq<u8>) -> Option<SimpleExpressionView>;

/// Relies on `spdx_rs::models::SimpleExpression::parse`: the parse of the
/// trailing text, determined by that text alone. Trailing text that is
/// not valid UTF-8 does not parse.
#[verifier::external_body]
fn parse_license_expression(tail: &[u8]) -> (r: Option<SimpleExpression>)
    ensures
        match r {
            Some(l) => license_parse_spec(tail@) == Some(l@),
            None => license_parse_spec(tail@) is None,
        },
{
    let text = match core::str::from_utf8(tail) {
        Ok(t) => t,
        Err(_) => return None,
    };
    match spdx_rs::models::SimpleExpression::parse(text) {
        Ok(e) => Some(SimpleExpression {
            identifier: e.identifier,
            document_ref: e.document_ref,
            license_ref: e.license_ref,
        }),
        Err(_) => None,
    }
}

/// The license information the scanner yields for a complete file
/// content: no marker line gives `Ok(None)`; a marker line whose trailing
/// text parses gives that parse; a marker line whose trailing text does
/// not parse is an error.
pub open spec fn license_scan_spec(c: Seq<u8>) -> Result<Option<SimpleExpressionView>, ()> {
    match marker_tail(c) {
        None => Ok(None),
        Some(tail) => match license_parse_spec(tail) {
            Some(l) => Ok(Some(l)),
            None => Err(()),
        },
    }
}

/// Every position skipped by `skip_ws_from` holds a space or tab, and the
/// result stays between `from` and the length of `c`.
proof fn lemma_skip_ws_from(c: Seq<u8>, from: int)
    requires
        0 <= from <= c.len(),
    ensures
        from <= skip_ws_from(c, from) <= c.len(),
        forall|j: int| from <= j < skip_ws_from(c, from) ==> is_space_or_tab(c[j]),
    decreases c.len() - from,
{
    if 0 <= from < c.len() && is_space_or_tab(c[from]) {
        lemma_skip_ws_from(c, from + 1);
    }
}

/// What a successful byte search means: the byte is there, and nowhere
/// earlier in the searched range.
proof fn lemma_find_byte_from(c: Seq<u8>, from: int, b: u8)
    requires
        0 <= from,
    ensures
        match find_byte_from(c, from, b) {
            Some(e) => from <= e < c.len() && c[e] == b && forall|j: int|
                from <= j < e ==> c[j] != b,
            None => forall|j: int| from <= j < c.len() ==> c[j] != b,
        },
    decreases c.len() - from,
{
    if from < c.len() && c[from] != b {
        lemma_find_byte_from(c, from + 1, b);
    }
}

/// What a successful marker search means: the marker stands there, inside
/// the content.
proof fn lemma_find_marker_from(c: Seq<u8>, from: int)
    requires
        0 <= from,
    ensures
        match find_marker_from(c, from) {
            Some(p) => from <= p && p + marker().len() <= c.len() && c.subrange(
                p,
                p + marker().len() as int,
            ) == marker(),
            None => true,
        },
    decreases c.len() - from,
{
    if !(from + marker().len() > c.len()) && c.subrange(from, from + marker().len() as int)
        != marker() {
        lemma_find_marker_from(c, from + 1);
    }
}

/// Build the marker as a byte vector.
fn make_marker() -> (v: Vec<u8>)
    ensures
        v@ == marker(),
{
    let mut v: Vec<u8> = Vec::new();
    v.push(83u8);
    v.push(80u8);
    v.push(68u8);
    v.push(88u8);
    v.push(45u8);
    v.push(76u8);
    v.push(105u8);
    v.push(99u8);
    v.push(101u8);
    v.push(110u8);
    v.push(115u8);
    v.push(101u8);
    v.push(45u8);
    v.push(73u8);
    v.push(100u8);
    v.push(101u8);
    v.push(110u8);
    v.push(116u8);
    v.push(105u8);
    v.push(102u8);
    v.push(105u8);
    v.push(101u8);
    v.push(114u8);
    v.push(58u8);
    proof {
        assert(v@ =~= marker());
    }
    v
}

/// Whether the byte at `index` of `line` is a space or tab.
fn is_whitespace(line: &[u8], index: usize) -> (r: bool)
    requires
        index < line@.len(),
    ensures
        r == is_space_or_tab(line@[index as int]),
{
    match line[index] {
        32u8 | 9u8 => true,
        _ => false,
    }
}

/// Whether the marker stands at position `i` of `c`.
fn marker_matches_at(c: &[u8], m: &Vec<u8>, i: usize) -> (r: bool)
    requires
        m@ == marker(),
        i + m@.len() <= c@.len(),
    ensures
        r == (c@.subrange(i as int, i + marker().len()) == marker()),
{
    let clen = c.len();
    let n = m.len();
    let mut j: usize = 0;
    while j < n
        invariant
            m@ == marker(),
            n == m@.len(),
            clen == c@.len(),
            i + n <= clen,
            0 <= j <= n,
            forall|k: int| 0 <= k < j ==> c@[i + k] == m@[k],
        decreases n - j,
    {
        if c[i + j] != m[j] {
            proof {
                assert(c@.subrange(i as int, i + marker().len())[j as int] != marker()[j as int]);
            }
            return false;
        }
        j = j + 1;
    }
    proof {
        assert(c@.subrange(i as int, i + marker().len()) =~= marker());
    }
    true
}

/// Find the first occurrence of the marker in `c`.
fn find_marker(c: &[u8], m: &Vec<u8>) -> (r: Option<usize>)
    requires
        m@ == marker(),
    ensures
        match r {
            Some(p) => find_marker_from(c@, 0) == Some(p as int),
            None => find_marker_from(c@, 0) is None,
        },
{
    let n = c.len();
    if n < 24 {
        return None;
    }
    let mut i: usize = 0;
    while i <= n - 24
        invariant
            m@ == marker(),
            n == c@.len(),
            24 <= n,
            0 <= i,
            i <= n - 24 + 1,
            find_marker_from(c@, 0) == find_marker_from(c@, i as int),
        decreases n - i,
    {
        if marker_matches_at(c, m, i) {
            return Some(i);
        }
        i = i + 1;
    }
    None
}

/// Find the first occurrence of byte `b` at or after `from` in `c`.
fn find_byte(c: &[u8], from: usize, b: u8) -> (r: Option<usize>)
    requires
        from <= c@.len(),
    ensures
        match r {
            Some(e) => find_byte_from(c@, from as int, b) == Some(e as int),
            None => find_byte_from(c@, from as int, b) is None,
        },
{
    let n = c.len();
    let mut i: usize = from;
    while i < n
        invariant
            n == c@.len(),
            from <= i <= n,
            find_byte_from(c@, from as int, b) == find_byte_from(c@, i as int, b),
        decreases n - i,
    {
        if c[i] == b {
            return Some(i);
        }
        i = i + 1;
    }
    None
}

/// Skip spaces and tabs at or after `from` in `c`.
fn skip_whitespace(c: &[u8], from: usize) -> (r: usize)
    requires
        from <= c@.len(),
    ensures
        r == skip_ws_from(c@, from as int),
{
    let n = c.len();
    let mut i: usize = from;
    while i < n && is_whitespace(c, i)
        invariant
            n == c@.len(),
            from <= i <= n,
            skip_ws_from(c@, from as int) == skip_ws_from(c@, i as int),
        decreases n - i,
    {
        i = i + 1;
    }
    i
}

/// Scan a complete file content for the trailing license text of its
/// first compliance marker line.
fn scan_marker_tail<'a>(c: &'a [u8]) -> (r: Option<&'a [u8]>)
    ensures
        match r {
            Some(tail) => marker_tail(c@) == Some(tail@),
            None => marker_tail(c@) is None,
        },
{
    let clen = c.len();
    let m = make_marker();
    let p = match find_marker(c, &m) {
        Some(p) => p,
        None => {
            return None;
        },
    };
    proof {
        lemma_find_marker_from(c@, 0);
        assert(p + 24 <= clen);
    }
    let start0 = p + 24;
    let start = skip_whitespace(c, start0);
    proof {
        lemma_skip_ws_from(c@, start0 as int);
        lemma_find_byte_from(c@, start0 as int, 10u8);
    }
    let end = match find_byte(c, start0, 10u8) {
        Some(e) => {
            if e > start && c[e - 1] == 13u8 {
                e - 1
            } else {
                e
            }
        },
        None => c.len(),
    };
    Some(slice_subrange(c, start, end))
}

/// Buffers a file's byte stream and scans it for license information on
/// `finish`.
pub struct SourceLicenceAnalyzer {
    pub buffer: Vec<u8>,
}

impl SourceLicenceAnalyzer {
    /// A fresh scanner with nothing written.
    pub fn new() -> (r: SourceLicenceAnalyzer)
        ensures
            r.wf(),
            r.fed() == Seq::<u8>::empty(),
    {
        SourceLicenceAnalyzer { buffer: Vec::new() }
    }
}

impl FileAnalyzer for SourceLicenceAnalyzer {
    type Output = Result<Option<SimpleExpression>, SpdxFileAnalyzeError>;

    open spec fn fed(&self) -> Seq<u8> {
        self.buffer@
    }

    open spec fn wf(&self) -> bool {
        true
    }

    open spec fn finish_post(&self, r: &Self::Output) -> bool {
        match r {
            Ok(Some(l)) => license_scan_spec(self.fed()) == Ok::<Option<SimpleExpressionView>, ()>(
                Some(l@),
            ),
            Ok(None) => license_scan_spec(self.fed()) == Ok::<Option<SimpleExpressionView>, ()>(
                None,
            ),
            Err(e) => license_scan_spec(self.fed()) is Err && e is LicenseParseError,
        }
    }

    fn write(&mut self, buf: &[u8]) {
        let n = buf.len();
        let mut i: usize = 0;
        while i < n
            invariant
                n == buf@.len(),
                0 <= i <= n,
                self.buffer@ == old(self).buffer@ + buf@.take(i as int),
            decreases n - i,
        {
            self.buffer.push(buf[i]);
            proof {
                assert(old(self).buffer@ + buf@.take(i as int) + seq![buf@[i as int]]
                    =~= old(self).buffer@ + buf@.take(i + 1));
            }
            i = i + 1;
        }
        proof {
            assert(buf@.take(n as int) =~= buf@);
        }
    }

    fn flush(&mut self) {
    }

    fn finish(self) -> (r: Self::Output) {
        let tail = match scan_marker_tail(self.buffer.as_slice()) {
            Some(t) => t,
            None => {
                return Ok(None);
            },
        };
        match parse_license_expression(tail) {
            Some(l) => Ok(Some(l)),
            None => Err(SpdxFileAnalyzeError::LicenseParseError),
        }
    }
}

} // verus!
