//! The filesystem-tree adapter: an iterative, explicit-stack, depth-first
//! traversal of an in-memory directory tree, with a caller-supplied ignore
//! set checked on every relative path before a file is analyzed or a
//! directory is descended into. The surrounding program reads the tree
//! from disk (or from a fresh checkout) and hands it over as plain values.

use vstd::prelude::*;

use crate::packages::{
    all_analyses_ok, analyze_file_list, analyze_list_err, file_entry_views, results_of,
    FileResultMap, PackageAnalyzeError,
};

verus! {

/// One directory entry: a name, and the file or directory it names.
pub struct FsEntry {
    pub name: String,
    pub node: FsNode,
}

/// A file with its content, or a directory with its entries in
/// enumeration order.
pub enum FsNode {
    File(Vec<u8>),
    Dir(Vec<FsEntry>),
}

/// The relative path of an entry: the entry's name under its parent's
/// relative path.
pub open spec fn child_path(prefix: Seq<char>, name: Seq<char>) -> Seq<char> {
    if prefix.len() == 0 {
        name
    } else {
        prefix + seq!['/'] + name
    }
}

/// A relative path in the canonical version-control path space, prefixed
/// with `./`.
pub open spec fn dotted(path: Seq<char>) -> Seq<char> {
    seq!['.', '/'] + path
}

/// The views of the ignore set's paths.
pub open spec fn ignore_views(ignores: Seq<String>) -> Seq<Seq<char>> {
    ignores.map_values(|s: String| s@)
}

/// Whether a relative path is in the ignore set (exact string match).
pub open spec fn is_ignored(ignores: Seq<Seq<char>>, path: Seq<char>) -> bool {
    exists|i: int| 0 <= i < ignores.len() && ignores[i] == path
}

/// The files a tree node yields, in traversal order: a file yields itself
/// under its `./`-prefixed relative path; a directory yields what its
/// entries yield.
pub open spec fn walk_node(prefix: Seq<char>, node: FsNode, ignores: Seq<Seq<char>>) -> Seq<
    (Seq<char>, Seq<u8>),
>
    decreases node, 0int,
{
    match node {
        FsNode::File(data) => seq![(dotted(prefix), data@)],
        FsNode::Dir(entries) => walk_entries(prefix, entries@, ignores),
    }
}

/// The files a directory's entries yield, in order: each entry whose
/// relative path is not ignored contributes its subtree's files.
pub open spec fn walk_entries(
    prefix: Seq<char>,
    entries: Seq<FsEntry>,
    ignores: Seq<Seq<char>>,
) -> Seq<(Seq<char>, Seq<u8>)>
    decreases entries, 1int,
{
    if entries.len() == 0 {
        Seq::<(Seq<char>, Seq<u8>)>::empty()
    } else {
        let rel = child_path(prefix, entries[0].name@);
        let head = if is_ignored(ignores, rel) {
            Seq::<(Seq<char>, Seq<u8>)>::empty()
        } else {
            walk_node(rel, entries[0].node, ignores)
        };
        head + walk_entries(prefix, entries.drop_first(), ignores)
    }
}

/// The number of nodes in a tree node, counting itself.
pub open spec fn size_node(node: FsNode) -> nat
    decreases node, 0int,
{
    match node {
        FsNode::File(_) => 1,
        FsNode::Dir(entries) => 1 + size_entries(entries@),
    }
}

/// The number of nodes under a directory's entries.
pub open spec fn size_entries(entries: Seq<FsEntry>) -> nat
    decreases entries, 1int,
{
    if entries.len() == 0 {
        0
    } else {
        1 + size_node(entries[0].node) + size_entries(entries.drop_first())
    }
}

/// The views of the traversal stack's frames: each frame is a relative
/// path and the entries of that directory not yet visited.
pub open spec fn frames_view(stack: Seq<(String, Vec<FsEntry>)>) -> Seq<
    (Seq<char>, Seq<FsEntry>),
> {
    stack.map_values(|f: (String, Vec<FsEntry>)| (f.0@, f.1@))
}

/// The files the traversal stack still yields, top frame first.
pub open spec fn walk_stack(
    stack: Seq<(Seq<char>, Seq<FsEntry>)>,
    ignores: Seq<Seq<char>>,
) -> Seq<(Seq<char>, Seq<u8>)>
    decreases stack.len(),
{
    if stack.len() == 0 {
        Seq::<(Seq<char>, Seq<u8>)>::empty()
    } else {
        walk_entries(stack.last().0, stack.last().1, ignores) + walk_stack(
            stack.drop_last(),
            ignores,
        )
    }
}

/// The number of nodes the traversal stack still holds.
pub open spec fn size_frames(stack: Seq<(Seq<char>, Seq<FsEntry>)>) -> nat
    decreases stack.len(),
{
    if stack.len() == 0 {
        0
    } else {
        size_entries(stack.last().1) + size_frames(stack.drop_last())
    }
}

/// Whether the string is in the list (exact match).
fn string_in(list: &Vec<String>, s: &String) -> (r: bool)
    ensures
        r == is_ignored(ignore_views(list@), s@),
{
    let n = list.len();
    let mut i: usize = 0;
    while i < n
        invariant
            n == list@.len(),
            0 <= i <= n,
            forall|j: int| 0 <= j < i ==> ignore_views(list@)[j] != s@,
        decreases n - i,
    {
        if list[i] == *s {
            proof {
                assert(ignore_views(list@)[i as int] == s@);
            }
            return true;
        }
        i = i + 1;
        proof {
            assert(ignore_views(list@)[i - 1] == list@[i - 1]@);
        }
    }
    false
}

/// Build the relative path of an entry under its parent's relative path.
fn child_path_exec(prefix: &String, name: &String) -> (r: String)
    ensures
        r@ == child_path(prefix@, name@),
{
    if prefix.as_str().is_empty() {
        name.clone()
    } else {
        let mut r = prefix.clone();
        r.append("/");
        r.append(name.as_str());
        proof {
            reveal_strlit("/");
            assert("/"@ =~= seq!['/']);
        }
        r
    }
}

/// Prefix a relative path with `./`.
fn dotted_exec(rel: &String) -> (r: String)
    ensures
        r@ == dotted(rel@),
{
    let mut r: String = "./".to_owned();
    r.append(rel.as_str());
    proof {
        reveal_strlit("./");
        assert("./"@ =~= seq!['.', '/']);
    }
    r
}

/// Collect the files of a directory tree, in traversal order, by an
/// iterative depth-first walk with an explicit stack: each popped frame's
/// next entry is visited, files are emitted under their `./`-prefixed
/// relative paths, directories are pushed to be descended into, and
/// ignored paths are neither emitted nor descended into.
#[verifier::rlimit(50)]
#[verifier::loop_isolation(false)]
fn collect_tree_files(root_entries: Vec<FsEntry>, ignores: &Vec<String>) -> (out: Vec<
    (String, Vec<u8>),
>)
    ensures
        file_entry_views(out@) == walk_entries(
            Seq::<char>::empty(),
            root_entries@,
            ignore_views(ignores@),
        ),
{
    let ghost ig = ignore_views(ignores@);
    let ghost total = walk_entries(Seq::<char>::empty(), root_entries@, ig);
    let mut out: Vec<(String, Vec<u8>)> = Vec::new();
    let mut stack: Vec<(String, Vec<FsEntry>)> = Vec::new();
    let root_prefix = String::new();
    stack.push((root_prefix, root_entries));
    proof {
        assert(frames_view(stack@).drop_last() =~= Seq::<(Seq<char>, Seq<FsEntry>)>::empty());
        assert(frames_view(stack@).last() == (Seq::<char>::empty(), root_entries@));
        assert(walk_stack(frames_view(stack@).drop_last(), ig) =~= Seq::<
            (Seq<char>, Seq<u8>),
        >::empty());
        assert(walk_stack(frames_view(stack@), ig) =~= total);
        assert(file_entry_views(out@) + walk_stack(frames_view(stack@), ig) =~= total);
    }
    while stack.len() > 0
        invariant
            file_entry_views(out@) + walk_stack(frames_view(stack@), ig) == total,
        decreases size_frames(frames_view(stack@)) + stack@.len(),
    {
        let ghost st_pre = frames_view(stack@);
        let frame = match stack.pop() {
            Some(f) => f,
            None => {
                proof {
                    assert(false);
                }
                unreached()
            },
        };
        let (prefix, mut entries) = frame;
        let ghost pfxv = prefix@;
        let ghost entv = entries@;
        proof {
            assert(st_pre.last() == (pfxv, entv));
            assert(frames_view(stack@) =~= st_pre.drop_last());
            assert(size_frames(st_pre) == size_entries(entv) + size_frames(st_pre.drop_last()));
        }
        if entries.len() == 0 {
            proof {
                assert(walk_entries(pfxv, entv, ig) =~= Seq::<(Seq<char>, Seq<u8>)>::empty());
                assert(walk_stack(st_pre, ig) =~= walk_stack(st_pre.drop_last(), ig));
                assert(file_entry_views(out@) + walk_stack(frames_view(stack@), ig) =~= total);
                assert(size_entries(entv) == 0);
            }
        } else {
            let e = entries.remove(0);
            let ghost restv = entries@;
            proof {
                assert(restv =~= entv.drop_first());
                assert(entv[0] == e);
            }
            let rel = child_path_exec(&prefix, &e.name);
            let ghost relv = rel@;
            stack.push((prefix, entries));
            proof {
                assert(frames_view(stack@) =~= st_pre.drop_last().push((pfxv, restv)));
                assert(frames_view(stack@).drop_last() =~= st_pre.drop_last());
                assert(frames_view(stack@).last() == (pfxv, restv));
                assert(walk_stack(frames_view(stack@), ig) == walk_entries(pfxv, restv, ig)
                    + walk_stack(st_pre.drop_last(), ig));
                assert(size_entries(entv) == 1 + size_node(entv[0].node) + size_entries(restv));
                assert(size_node(entv[0].node) >= 1);
                assert(size_frames(frames_view(stack@)) == size_entries(restv) + size_frames(
                    st_pre.drop_last(),
                ));
            }
            let ignored = string_in(ignores, &rel);
            if ignored {
                proof {
                    assert(walk_entries(pfxv, entv, ig) =~= walk_entries(pfxv, restv, ig));
                    assert(file_entry_views(out@) + walk_stack(frames_view(stack@), ig)
                        =~= total);
                }
            } else {
                match e.node {
                    FsNode::File(data) => {
                        let ghost datav = data@;
                        let key = dotted_exec(&rel);
                        let ghost out_pre = file_entry_views(out@);
                        out.push((key, data));
                        proof {
                            assert(file_entry_views(out@) =~= out_pre.push(
                                (dotted(relv), datav),
                            ));
                            assert(walk_node(relv, entv[0].node, ig) =~= seq![
                                (dotted(relv), datav),
                            ]);
                            assert(walk_entries(pfxv, entv, ig) =~= seq![(dotted(relv), datav)]
                                + walk_entries(pfxv, restv, ig));
                            assert(file_entry_views(out@) + walk_stack(frames_view(stack@), ig)
                                =~= total);
                        }
                    },
                    FsNode::Dir(children) => {
                        let ghost childrenv = children@;
                        let ghost st_mid = frames_view(stack@);
                        stack.push((rel, children));
                        proof {
                            assert(frames_view(stack@) =~= st_mid.push((relv, childrenv)));
                            assert(frames_view(stack@).drop_last() =~= st_mid);
                            assert(frames_view(stack@).last() == (relv, childrenv));
                            assert(size_node(entv[0].node) == 1 + size_entries(childrenv));
                            assert(size_frames(frames_view(stack@)) == size_entries(childrenv)
                                + size_frames(st_mid));
                            assert(walk_stack(frames_view(stack@), ig) == walk_entries(
                                relv,
                                childrenv,
                                ig,
                            ) + walk_stack(st_mid, ig));
                            assert(walk_node(relv, entv[0].node, ig) == walk_entries(
                                relv,
                                childrenv,
                                ig,
                            ));
                            assert(walk_entries(pfxv, entv, ig) =~= walk_entries(
                                relv,
                                childrenv,
                                ig,
                            ) + walk_entries(pfxv, restv, ig));
                            assert(file_entry_views(out@) + walk_stack(frames_view(stack@), ig)
                                =~= total);
                        }
                    },
                }
            }
        }
    }
    proof {
        assert(frames_view(stack@) =~= Seq::<(Seq<char>, Seq<FsEntry>)>::empty());
        assert(file_entry_views(out@) =~= total);
    }
    out
}

/// The filesystem-tree adapter: a root directory tree and an ignore set
/// of relative paths.
pub struct PathPackage {
    pub root: FsNode,
    pub ignores: Vec<String>,
}

impl PathPackage {
    /// An adapter for the given tree, with an empty ignore set.
    pub fn new(root: FsNode) -> (r: PathPackage)
        ensures
            r.root == root,
            r.ignores@ == Seq::<String>::empty(),
    {
        PathPackage { root, ignores: Vec::new() }
    }

    /// Add one relative path to the ignore set.
    pub fn append_ignore(&mut self, path: &str)
        ensures
            final(self).root == old(self).root,
            final(self).ignores@.len() == old(self).ignores@.len() + 1,
            ignore_views(final(self).ignores@) == ignore_views(old(self).ignores@).push(path@),
    {
        self.ignores.push(path.to_owned());
        proof {
            assert(ignore_views(self.ignores@) =~= ignore_views(old(self).ignores@).push(path@));
        }
    }

    /// Whether a relative path is in the ignore set.
    pub fn is_ignore(&self, path: &String) -> (r: bool)
        ensures
            r == is_ignored(ignore_views(self.ignores@), path@),
    {
        string_in(&self.ignores, path)
    }

    /// Analyze every non-ignored file under the root, in traversal order,
    /// keyed by `./`-prefixed relative path. Fails where the root is not
    /// a directory, or where any file's analysis fails; no partial
    /// mapping is returned.
    pub fn analyze_files(self) -> (r: Result<FileResultMap, PackageAnalyzeError>)
        ensures
            match self.root {
                FsNode::Dir(entries) => {
                    let walked = walk_entries(
                        Seq::<char>::empty(),
                        entries@,
                        ignore_views(self.ignores@),
                    );
                    match r {
                        Ok(m) => all_analyses_ok(walked) && m.wf() && m@ == results_of(walked),
                        Err(e) => analyze_list_err(walked, e),
                    }
                },
                FsNode::File(_) => r matches Err(e) && e is Io,
            },
    {
        match self.root {
            FsNode::Dir(entries) => {
                let files = collect_tree_files(entries, &self.ignores);
                analyze_file_list(files)
            },
            FsNode::File(_) => Err(
                PackageAnalyzeError::Io("the package root is not a directory".to_owned()),
            ),
        }
    }
}

} // verus!
