//! The source adapters and what they share: the adapter error type, the
//! path-keyed result mapping each adapter produces, and the pipeline that
//! analyzes an enumerated list of files through the composite analyzer.

use vstd::prelude::*;

use crate::analyzers::{
    analyze_spec, FileAnalyzer, SpdxFileAnalyzeError, SpdxFileAnalyzeSuccess,
    SpdxFileAnalyzeSuccessView, SpdxFileAnalyzer,
};

pub mod file_system;
pub mod tar;
pub mod zip;

pub use file_system::{FsEntry, FsNode, PathPackage};
pub use tar::TarPackage;
pub use zip::ZipPackage;

verus! {

/// Why a source adapter invocation failed.
#[derive(Debug)]
pub enum PackageAnalyzeError {
    /// Reading a source's bytes failed; carries a description. Raised by
    /// the surrounding program that provides the bytes, or where a
    /// source's root is not a directory.
    Io(String),
    /// Analyzing one file failed.
    FileAnalyze(SpdxFileAnalyzeError),
    /// The archive container itself was malformed; carries a description.
    /// Raised by the surrounding program that decodes the archive.
    Archive(String),
    /// A lower-level failure wrapped with a description of where it
    /// occurred; the underlying cause stays inspectable.
    Context(String, Box<PackageAnalyzeError>),
}

impl PackageAnalyzeError {
    /// Wrap a lower-level failure with a description of where it occurred.
    pub fn with_context(message: &str, inner: PackageAnalyzeError) -> (r: PackageAnalyzeError)
        ensures
            match r {
                PackageAnalyzeError::Context(m, b) => m@ == message@ && *b == inner,
                _ => false,
            },
    {
        PackageAnalyzeError::Context(message.to_owned(), Box::new(inner))
    }
}

/// The views of a result mapping's entries, in insertion order.
pub open spec fn entry_views(s: Seq<(String, SpdxFileAnalyzeSuccess)>) -> Seq<
    (Seq<char>, SpdxFileAnalyzeSuccessView),
> {
    s.map_values(|e: (String, SpdxFileAnalyzeSuccess)| (e.0@, e.1@))
}

/// No two entries share a key.
pub open spec fn unique_keys(s: Seq<(Seq<char>, SpdxFileAnalyzeSuccessView)>) -> bool {
    forall|i: int, j: int| 0 <= i < j < s.len() ==> s[i].0 != s[j].0
}

/// The first position holding the key, if any.
pub open spec fn index_of_key(
    s: Seq<(Seq<char>, SpdxFileAnalyzeSuccessView)>,
    k: Seq<char>,
) -> Option<int>
    decreases s.len(),
{
    if s.len() == 0 {
        None
    } else if s[0].0 == k {
        Some(0)
    } else {
        match index_of_key(s.drop_first(), k) {
            Some(i) => Some(i + 1),
            None => None,
        }
    }
}

/// Entry insertion with replacement: an existing key keeps its position
/// and takes the new value; a new key is appended.
pub open spec fn upsert(
    s: Seq<(Seq<char>, SpdxFileAnalyzeSuccessView)>,
    k: Seq<char>,
    v: SpdxFileAnalyzeSuccessView,
) -> Seq<(Seq<char>, SpdxFileAnalyzeSuccessView)> {
    match index_of_key(s, k) {
        Some(i) => s.update(i, (k, v)),
        None => s.push((k, v)),
    }
}

/// The key-to-value mapping the entry sequence holds.
pub open spec fn map_of(s: Seq<(Seq<char>, SpdxFileAnalyzeSuccessView)>) -> Map<
    Seq<char>,
    SpdxFileAnalyzeSuccessView,
>
    decreases s.len(),
{
    if s.len() == 0 {
        Map::empty()
    } else {
        map_of(s.drop_last()).insert(s.last().0, s.last().1)
    }
}

/// What a key search means for the mapping: a key occurs in the sequence
/// exactly when the mapping contains it, and with unique keys any entry
/// holding the key gives the mapping's value.
pub proof fn lemma_map_of_index(s: Seq<(Seq<char>, SpdxFileAnalyzeSuccessView)>, k: Seq<char>)
    ensures
        map_of(s).contains_key(k) <==> exists|i: int| 0 <= i < s.len() && s[i].0 == k,
        unique_keys(s) ==> forall|i: int|
            0 <= i < s.len() && s[i].0 == k ==> map_of(s).contains_key(k) && map_of(s)[k]
                == s[i].1,
    decreases s.len(),
{
    if s.len() > 0 {
        let d = s.drop_last();
        lemma_map_of_index(d, k);
        assert(unique_keys(s) ==> unique_keys(d)) by {
            if unique_keys(s) {
                assert forall|i: int, j: int| 0 <= i < j < d.len() implies d[i].0 != d[j].0 by {
                    assert(s[i].0 != s[j].0);
                }
            }
        }
        if s.last().0 == k {
            assert(s[s.len() - 1].0 == k);
        } else {
            if map_of(s).contains_key(k) {
                let i = choose|i: int| 0 <= i < d.len() && d[i].0 == k;
                assert(s[i].0 == k);
            }
            if exists|i: int| 0 <= i < s.len() && s[i].0 == k {
                let i = choose|i: int| 0 <= i < s.len() && s[i].0 == k;
                assert(i < s.len() - 1);
                assert(d[i].0 == k);
            }
        }
        if unique_keys(s) {
            assert forall|i: int|
                0 <= i < s.len() && s[i].0 == k implies map_of(s).contains_key(k) && map_of(s)[k]
                == s[i].1 by {
                if i < s.len() - 1 {
                    assert(d[i].0 == k);
                    assert(s.last().0 != k);
                    assert(map_of(s)[k] == map_of(d)[k]);
                }
            }
        }
    }
}

/// An update at one position with unique keys keeps the keys unique.
pub proof fn lemma_upsert_unique(
    s: Seq<(Seq<char>, SpdxFileAnalyzeSuccessView)>,
    k: Seq<char>,
    v: SpdxFileAnalyzeSuccessView,
)
    requires
        unique_keys(s),
    ensures
        unique_keys(upsert(s, k, v)),
        map_of(upsert(s, k, v)) == map_of(s).insert(k, v),
    decreases s.len(),
{
    lemma_index_of_key(s, k);
    lemma_map_of_index(s, k);
    match index_of_key(s, k) {
        Some(i) => {
            let t = s.update(i, (k, v));
            assert forall|a: int, b: int| 0 <= a < b < t.len() implies t[a].0 != t[b].0 by {
                assert(s[a].0 != s[b].0);
            }
            lemma_map_of_update(s, i, k, v);
        },
        None => {
            let t = s.push((k, v));
            assert forall|a: int, b: int| 0 <= a < b < t.len() implies t[a].0 != t[b].0 by {
                if b < s.len() {
                    assert(s[a].0 != s[b].0);
                } else {
                    assert(t[b].0 == k);
                    assert(s[a].0 != k);
                }
            }
            assert(t.drop_last() =~= s);
        },
    }
}

/// What a found index means: it holds the key, and no earlier entry does.
pub proof fn lemma_index_of_key(s: Seq<(Seq<char>, SpdxFileAnalyzeSuccessView)>, k: Seq<char>)
    ensures
        match index_of_key(s, k) {
            Some(i) => 0 <= i < s.len() && s[i].0 == k && forall|j: int|
                0 <= j < i ==> s[j].0 != k,
            None => forall|j: int| 0 <= j < s.len() ==> s[j].0 != k,
        },
    decreases s.len(),
{
    if s.len() > 0 && s[0].0 != k {
        let d = s.drop_first();
        lemma_index_of_key(d, k);
        assert(forall|j: int| 0 <= j < d.len() ==> d[j] == s[j + 1]);
        match index_of_key(d, k) {
            Some(i) => {
                assert(s[i + 1].0 == d[i].0);
                assert forall|j: int| 0 <= j < i + 1 implies s[j].0 != k by {
                    if j > 0 {
                        assert(d[j - 1].0 != k);
                    }
                }
            },
            None => {
                assert forall|j: int| 0 <= j < s.len() implies s[j].0 != k by {
                    if j > 0 {
                        assert(d[j - 1].0 != k);
                    }
                }
            },
        }
    }
}

/// Updating the entry at a key's position replaces exactly that key's
/// value in the mapping.
proof fn lemma_map_of_update(
    s: Seq<(Seq<char>, SpdxFileAnalyzeSuccessView)>,
    i: int,
    k: Seq<char>,
    v: SpdxFileAnalyzeSuccessView,
)
    requires
        unique_keys(s),
        0 <= i < s.len(),
        s[i].0 == k,
    ensures
        map_of(s.update(i, (k, v))) == map_of(s).insert(k, v),
    decreases s.len(),
{
    let t = s.update(i, (k, v));
    if i == s.len() - 1 {
        assert(t.drop_last() =~= s.drop_last());
        assert(map_of(t) =~= map_of(s).insert(k, v));
    } else {
        assert(unique_keys(s.drop_last())) by {
            assert forall|a: int, b: int|
                0 <= a < b < s.drop_last().len() implies s.drop_last()[a].0
                != s.drop_last()[b].0 by {
                assert(s[a].0 != s[b].0);
            }
        }
        lemma_map_of_update(s.drop_last(), i, k, v);
        assert(t.drop_last() =~= s.drop_last().update(i, (k, v)));
        assert(s.last().0 != k);
        assert(map_of(t) == map_of(s.drop_last()).insert(k, v).insert(s.last().0, s.last().1));
        assert(map_of(t) =~= map_of(s).insert(k, v));
    }
}

/// A result mapping from normalized paths to per-file analysis results,
/// with unique keys, kept in insertion order.
pub struct FileResultMap {
    pub entries: Vec<(String, SpdxFileAnalyzeSuccess)>,
}

impl View for FileResultMap {
    type V = Seq<(Seq<char>, SpdxFileAnalyzeSuccessView)>;

    open spec fn view(&self) -> Seq<(Seq<char>, SpdxFileAnalyzeSuccessView)> {
        entry_views(self.entries@)
    }
}

impl FileResultMap {
    /// Keys are unique.
    pub open spec fn wf(&self) -> bool {
        unique_keys(self@)
    }

    /// The key-to-value mapping held.
    pub open spec fn as_map(&self) -> Map<Seq<char>, SpdxFileAnalyzeSuccessView> {
        map_of(self@)
    }

    /// An empty mapping.
    pub fn new() -> (r: FileResultMap)
        ensures
            r.wf(),
            r@ == Seq::<(Seq<char>, SpdxFileAnalyzeSuccessView)>::empty(),
    {
        FileResultMap { entries: Vec::new() }
    }

    /// How many files are mapped.
    pub fn len(&self) -> (r: usize)
        ensures
            r == self@.len(),
    {
        self.entries.len()
    }

    /// Insert a result: an existing path keeps its position and takes the
    /// new result, a new path is appended.
    pub fn insert(&mut self, key: String, value: SpdxFileAnalyzeSuccess)
        requires
            old(self).wf(),
        ensures
            final(self).wf(),
            final(self)@ == upsert(old(self)@, key@, value@),
            final(self).as_map() == old(self).as_map().insert(key@, value@),
    {
        proof {
            lemma_upsert_unique(self@, key@, value@);
        }
        let ghost kv = key@;
        let ghost vv = value@;
        let ghost s0 = self.entries@;
        let n = self.entries.len();
        let mut i: usize = 0;
        while i < n
            invariant
                self.entries@ == s0,
                s0 == old(self).entries@,
                unique_keys(entry_views(s0)),
                kv == key@,
                vv == value@,
                n == s0.len(),
                0 <= i <= n,
                forall|j: int| 0 <= j < i ==> entry_views(s0)[j].0 != kv,
            decreases n - i,
        {
            if self.entries[i].0 == key {
                proof {
                    assert(entry_views(s0)[i as int].0 == kv);
                    assert(index_of_key(entry_views(s0), kv) == Some(i as int)) by {
                        lemma_index_of_key(entry_views(s0), kv);
                    }
                    lemma_upsert_unique(entry_views(s0), kv, vv);
                }
                let ghost epair: (String, SpdxFileAnalyzeSuccess) = (key, value);
                self.entries.remove(i);
                let ghost smid = self.entries@;
                self.entries.insert(i, (key, value));
                proof {
                    s0.remove_ensures(i as int);
                    smid.insert_ensures(i as int, epair);
                    assert(self.entries@ == smid.insert(i as int, epair));
                    assert(self.entries@.len() == s0.len());
                    assert forall|j: int|
                        0 <= j < self.entries@.len() && j != i implies self.entries@[j]
                        == s0[j] by {
                        if j < i {
                            assert(self.entries@[j] == smid[j]);
                            assert(smid[j] == s0[j]);
                        } else {
                            assert(self.entries@[j] == smid[j - 1]);
                            assert(smid[j - 1] == s0[j]);
                        }
                    }
                    assert(self.entries@[i as int] == epair);
                    assert(self@ =~= upsert(entry_views(s0), kv, vv));
                }
                return ;
            }
            i = i + 1;
            proof {
                assert(entry_views(s0)[i - 1].0 == s0[i - 1].0@);
            }
        }
        proof {
            assert(index_of_key(entry_views(s0), kv) is None) by {
                lemma_index_of_key(entry_views(s0), kv);
            }
        }
        self.entries.push((key, value));
        proof {
            assert(self@ =~= upsert(old(self)@, kv, vv));
        }
    }

    /// Insert under the key the analysis of the given content.
    pub fn insert_analyzed(&mut self, key: String, data: &Vec<u8>) -> (r: Result<
        (),
        SpdxFileAnalyzeError,
    >)
        requires
            old(self).wf(),
        ensures
            match r {
                Ok(_) => {
                    &&& analyze_spec(data@) is Ok
                    &&& final(self).wf()
                    &&& final(self)@ == upsert(old(self)@, key@, analyze_spec(data@)->Ok_0)
                    &&& final(self).as_map() == old(self).as_map().insert(
                        key@,
                        analyze_spec(data@)->Ok_0,
                    )
                },
                Err(e) => {
                    &&& analyze_spec(data@) is Err
                    &&& e is LicenseParseError
                    &&& *final(self) == *old(self)
                },
            },
    {
        let mut analyzer = SpdxFileAnalyzer::new();
        analyzer.write(data.as_slice());
        proof {
            assert(analyzer.fed() =~= data@);
        }
        match analyzer.finish() {
            Ok(success) => {
                self.insert(key, success);
                Ok(())
            },
            Err(e) => Err(e),
        }
    }

    /// Look a path up.
    pub fn get(&self, key: &str) -> (r: Option<&SpdxFileAnalyzeSuccess>)
        requires
            self.wf(),
        ensures
            match r {
                Some(v) => self.as_map().contains_key(key@) && v@ == self.as_map()[key@],
                None => !self.as_map().contains_key(key@),
            },
    {
        proof {
            lemma_map_of_index(self@, key@);
        }
        let owned: String = key.to_owned();
        let n = self.entries.len();
        let mut i: usize = 0;
        while i < n
            invariant
                self.wf(),
                owned@ == key@,
                n == self.entries@.len(),
                0 <= i <= n,
                forall|j: int| 0 <= j < i ==> entry_views(self.entries@)[j].0 != key@,
            decreases n - i,
        {
            if self.entries[i].0 == owned {
                proof {
                    lemma_map_of_index(self@, key@);
                    assert(self@[i as int].0 == key@);
                }
                return Some(&self.entries[i].1);
            }
            i = i + 1;
            proof {
                assert(entry_views(self.entries@)[i - 1].0 == self.entries@[i - 1].0@);
            }
        }
        None
    }
}

/// The views of an enumerated file list: normalized path and content.
pub open spec fn file_entry_views(s: Seq<(String, Vec<u8>)>) -> Seq<(Seq<char>, Seq<u8>)> {
    s.map_values(|e: (String, Vec<u8>)| (e.0@, e.1@))
}

/// Every file of the enumeration analyzes without error.
pub open spec fn all_analyses_ok(files: Seq<(Seq<char>, Seq<u8>)>) -> bool {
    forall|i: int| 0 <= i < files.len() ==> analyze_spec(#[trigger] files[i].1) is Ok
}

/// The result mapping that analyzing the enumerated files yields: each
/// file's analysis is inserted under its path, in enumeration order.
pub open spec fn results_of(files: Seq<(Seq<char>, Seq<u8>)>) -> Seq<
    (Seq<char>, SpdxFileAnalyzeSuccessView),
>
    decreases files.len(),
{
    if files.len() == 0 {
        Seq::<(Seq<char>, SpdxFileAnalyzeSuccessView)>::empty()
    } else {
        upsert(
            results_of(files.drop_last()),
            files.last().0,
            analyze_spec(files.last().1)->Ok_0,
        )
    }
}

/// What an adapter's error says of the enumerated files it was analyzing:
/// some file's analysis failed, and the error wraps the license parse
/// failure of the first such file with a description naming its path.
pub open spec fn analyze_list_err(files: Seq<(Seq<char>, Seq<u8>)>, e: PackageAnalyzeError) -> bool {
    &&& !all_analyses_ok(files)
    &&& match e {
        PackageAnalyzeError::Context(msg, inner) => exists|fi: int|
            {
                &&& 0 <= fi < files.len()
                &&& (forall|j: int|
                    0 <= j < fi ==> analyze_spec(#[trigger] files[j].1) is Ok)
                &&& analyze_spec(#[trigger] files[fi].1) is Err
                &&& msg@ == "analyzing file "@ + files[fi].0
                &&& (*inner) matches PackageAnalyzeError::FileAnalyze(fe) && fe
                    is LicenseParseError
            },
        _ => false,
    }
}

/// One archive member, as the surrounding program decoded it: the
/// member's path in the archive's own convention, and its content.
pub struct ArchiveEntry {
    pub path: String,
    pub data: Vec<u8>,
}

/// The first position at or after `from` holding the character.
pub open spec fn find_char_from(s: Seq<char>, from: int, c: char) -> Option<int>
    decreases s.len() - from,
{
    if from < 0 || from >= s.len() {
        None
    } else if s[from] == c {
        Some(from)
    } else {
        find_char_from(s, from + 1, c)
    }
}

/// An archive path normalized into the common path space: archives nest
/// the tree one directory level deeper than a checkout, so the leading
/// path component, up to and including the first slash, is stripped. A
/// path without a slash is kept whole.
pub open spec fn strip_first_component(p: Seq<char>) -> Seq<char> {
    match find_char_from(p, 0, '/') {
        Some(i) => p.subrange(i + 1, p.len() as int),
        None => p,
    }
}

/// The views of an archive's members under their normalized paths, in
/// archive order.
pub open spec fn normalized_entry_views(s: Seq<ArchiveEntry>) -> Seq<(Seq<char>, Seq<u8>)> {
    s.map_values(|e: ArchiveEntry| (strip_first_component(e.path@), e.data@))
}

/// Strip an archive path's leading component.
fn strip_first_component_exec(p: &String) -> (r: String)
    ensures
        r@ == strip_first_component(p@),
{
    let s = p.as_str();
    let n = s.unicode_len();
    let mut i: usize = 0;
    while i < n
        invariant
            s@ == p@,
            n == s@.len(),
            0 <= i <= n,
            find_char_from(s@, 0, '/') == find_char_from(s@, i as int, '/'),
        decreases n - i,
    {
        if s.get_char(i) == '/' {
            return s.substring_char(i + 1, n).to_owned();
        }
        i = i + 1;
    }
    p.clone()
}

/// Analyze an archive's members through the composite analyzer, in
/// archive order, each under its normalized path. The first member whose
/// analysis fails aborts the whole call with an error naming that path;
/// no partial mapping is returned.
pub(crate) fn analyze_archive_entries(entries: Vec<ArchiveEntry>) -> (r: Result<
    FileResultMap,
    PackageAnalyzeError,
>)
    ensures
        match r {
            Ok(m) => {
                &&& all_analyses_ok(normalized_entry_views(entries@))
                &&& m.wf()
                &&& m@ == results_of(normalized_entry_views(entries@))
            },
            Err(e) => analyze_list_err(normalized_entry_views(entries@), e),
        },
{
    let ghost entries0 = entries@;
    let mut remaining = entries;
    let mut files: Vec<(String, Vec<u8>)> = Vec::new();
    let n = remaining.len();
    let mut i: usize = 0;
    while i < n
        invariant
            n == entries0.len(),
            0 <= i <= n,
            remaining@ == entries0.skip(i as int),
            file_entry_views(files@) == normalized_entry_views(entries0.take(i as int)),
        decreases n - i,
    {
        let e = remaining.remove(0);
        let ghost ev = e;
        proof {
            assert(entries0.skip(i as int)[0] == entries0[i as int]);
            assert(ev == entries0[i as int]);
            assert(remaining@ =~= entries0.skip(i + 1));
        }
        let key = strip_first_component_exec(&e.path);
        let ghost files_pre = files@;
        files.push((key, e.data));
        proof {
            assert(file_entry_views(files_pre).len() == files_pre.len());
            assert(normalized_entry_views(entries0.take(i as int)).len() == i);
            assert(files_pre.len() == i);
            assert(files@.last().0@ == strip_first_component(ev.path@));
            assert(files@.last().1@ == ev.data@);
            assert forall|j: int|
                0 <= j < i + 1 implies file_entry_views(files@)[j] == normalized_entry_views(
                entries0.take(i + 1),
            )[j] by {
                if j < i {
                    assert(files@[j] == files_pre[j]);
                    assert(file_entry_views(files_pre)[j] == normalized_entry_views(
                        entries0.take(i as int),
                    )[j]);
                    assert(entries0.take(i + 1)[j] == entries0.take(i as int)[j]);
                } else {
                    assert(files@[j] == files@.last());
                    assert(entries0.take(i + 1)[j] == entries0[i as int]);
                }
            }
            assert(file_entry_views(files@) =~= normalized_entry_views(entries0.take(i + 1)));
        }
        i = i + 1;
    }
    proof {
        assert(entries0.take(n as int) =~= entries0);
    }
    analyze_file_list(files)
}

/// Analyze an enumerated list of files through the composite analyzer, in
/// enumeration order, inserting each result under its path. The first
/// file whose analysis fails aborts the whole call with an error naming
/// that path; no partial mapping is returned.
#[verifier::rlimit(50)]
#[verifier::loop_isolation(false)]
pub fn analyze_file_list(files: Vec<(String, Vec<u8>)>) -> (r: Result<
    FileResultMap,
    PackageAnalyzeError,
>)
    ensures
        match r {
            Ok(m) => {
                &&& all_analyses_ok(file_entry_views(files@))
                &&& m.wf()
                &&& m@ == results_of(file_entry_views(files@))
            },
            Err(e) => analyze_list_err(file_entry_views(files@), e),
        },
{
    let ghost files0 = files@;
    let ghost fv = file_entry_views(files0);
    let mut files = files;
    let mut map = FileResultMap::new();
    let n = files.len();
    let mut i: usize = 0;
    while i < n
        invariant
            fv == file_entry_views(files0),
            n == files0.len(),
            0 <= i <= n,
            files@ == files0.skip(i as int),
            map.wf(),
            map@ == results_of(fv.take(i as int)),
            forall|j: int| 0 <= j < i ==> analyze_spec(#[trigger] fv[j].1) is Ok,
        decreases n - i,
    {
        let (path, data) = files.remove(0);
        proof {
            assert(files0.skip(i as int)[0] == files0[i as int]);
            assert(files@ =~= files0.skip(i + 1));
            assert(fv[i as int] == (files0[i as int].0@, files0[i as int].1@));
        }
        let ghost pathv = path@;
        let path_in_message: String = path.clone();
        match map.insert_analyzed(path, &data) {
            Ok(_) => {},
            Err(e) => {
                let mut msg: String = "analyzing file ".to_owned();
                msg.append(path_in_message.as_str());
                proof {
                    assert(0 <= i < fv.len());
                    assert(forall|j: int| 0 <= j < i ==> analyze_spec(#[trigger] fv[j].1) is Ok);
                    assert(analyze_spec(fv[i as int].1) is Err);
                    assert(!all_analyses_ok(fv));
                    assert(msg@ == "analyzing file "@ + fv[i as int].0);
                }
                return Err(PackageAnalyzeError::with_context(
                    msg.as_str(),
                    PackageAnalyzeError::FileAnalyze(e),
                ));
            },
        }
        proof {
            assert(fv.take(i + 1).drop_last() =~= fv.take(i as int));
            assert(fv.take(i + 1).last() == fv[i as int]);
        }
        i = i + 1;
    }
    proof {
        assert(fv.take(n as int) =~= fv);
    }
    Ok(map)
}

} // verus!
