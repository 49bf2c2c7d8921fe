//! The file listing of a repository: the nodes as the host reports them, and the
//! entries that the analysis works on.

use vstd::prelude::*;
use crate::text::{same_text, text_of};

verus! {

/// One node of a tree listing, as the host reports it. `node_type` is `"blob"` for a
/// file and `"tree"` for a directory.
#[derive(Debug, Clone)]
pub struct TreeNode {
    pub path: String,
    pub mode: String,
    pub node_type: String,
    pub sha: String,
    pub size: Option<u64>,
    pub url: Option<String>,
}

/// The recursive tree listing of a repository.
#[derive(Debug, Clone)]
pub struct GitTree {
    pub sha: String,
    pub url: String,
    pub tree: Vec<TreeNode>,
}

/// The two kinds of entry of a tree.
#[derive(Debug, Clone, Copy, PartialEq, Eq, Structural)]
pub enum EntryKind {
    File,
    Directory,
}

/// One entry of a tree: a file, with the handle under which its content can be had where
/// there is one, or a directory, which has none.
#[derive(Debug)]
pub struct TreeEntry {
    path: String,
    kind: EntryKind,
    content_ref: Option<String>,
}

/// A tree entry as a plain value.
pub struct EntryView {
    pub path: Seq<char>,
    pub kind: EntryKind,
    pub content_ref: Option<Seq<char>>,
}

impl View for TreeEntry {
    type V = EntryView;

    closed spec fn view(&self) -> EntryView {
        EntryView { path: self.path@, kind: self.kind, content_ref: text_of(self.content_ref) }
    }
}

/// The entry that a node of the listing stands for: a file for a blob, with the node's
/// address as the handle of its content; a directory for a tree; nothing for a node of
/// another type.
pub open spec fn entry_of(node: TreeNode) -> Option<EntryView> {
    if node.node_type@ == "blob"@ {
        Some(EntryView { path: node.path@, kind: EntryKind::File, content_ref: text_of(node.url) })
    } else if node.node_type@ == "tree"@ {
        Some(EntryView { path: node.path@, kind: EntryKind::Directory, content_ref: None })
    } else {
        None
    }
}

/// The entries that the nodes of a listing stand for, in the order of the listing.
pub open spec fn entries_of(nodes: Seq<TreeNode>) -> Seq<EntryView>
    decreases nodes.len(),
{
    if nodes.len() == 0 {
        Seq::empty()
    } else {
        match entry_of(nodes.last()) {
            Some(entry) => entries_of(nodes.drop_last()).push(entry),
            None => entries_of(nodes.drop_last()),
        }
    }
}

/// The plain values of a list of entries.
pub open spec fn entry_views(entries: Seq<TreeEntry>) -> Seq<EntryView> {
    entries.map_values(|e: TreeEntry| e@)
}

impl TreeEntry {
    #[verifier::type_invariant]
    spec fn valid(&self) -> bool {
        self.kind == EntryKind::Directory ==> self.content_ref is None
    }

    /// The file at `path`, with the handle of its content if it has one.
    pub fn file(path: String, content_ref: Option<String>) -> (entry: Self)
        ensures
            entry@ == (EntryView {
                path: path@,
                kind: EntryKind::File,
                content_ref: text_of(content_ref),
            }),
    {
        TreeEntry { path, kind: EntryKind::File, content_ref }
    }

    /// The directory at `path`.
    pub fn directory(path: String) -> (entry: Self)
        ensures
            entry@ == (EntryView { path: path@, kind: EntryKind::Directory, content_ref: None }),
    {
        TreeEntry { path, kind: EntryKind::Directory, content_ref: None }
    }

    /// The path of the entry, from the root of the repository.
    pub fn path(&self) -> (path: &String)
        ensures
            path@ == self@.path,
    {
        &self.path
    }

    /// Whether the entry is a file or a directory.
    pub fn kind(&self) -> (kind: EntryKind)
        ensures
            kind == self@.kind,
    {
        self.kind
    }

    /// The handle under which the content of the entry can be had.
    pub fn content_ref(&self) -> (handle: &Option<String>)
        ensures
            text_of(*handle) == self@.content_ref,
            self@.kind == EntryKind::Directory ==> handle is None,
    {
        proof {
            use_type_invariant(self);
        }
        &self.content_ref
    }
}

impl TreeNode {
    /// The entry that this node stands for.
    pub fn entry(&self) -> (entry: Option<TreeEntry>)
        ensures
            match entry {
                Some(e) => entry_of(*self) == Some(e@),
                None => entry_of(*self) is None,
            },
    {
        if same_text(self.node_type.as_str(), "blob") {
            Some(TreeEntry::file(self.path.clone(), self.url.clone()))
        } else if same_text(self.node_type.as_str(), "tree") {
            Some(TreeEntry::directory(self.path.clone()))
        } else {
            None
        }
    }
}

impl GitTree {
    /// The entries of the tree, in the order of the listing.
    pub fn entries(&self) -> (entries: Vec<TreeEntry>)
        ensures
            entry_views(entries@) == entries_of(self.tree@),
    {
        let mut entries: Vec<TreeEntry> = Vec::new();
        let mut i: usize = 0;
        assert(self.tree@.take(0) == Seq::<TreeNode>::empty());
        assert(entry_views(entries@) =~= Seq::<EntryView>::empty());
        while i < self.tree.len()
            invariant
                i <= self.tree.len(),
                entry_views(entries@) == entries_of(self.tree@.take(i as int)),
            decreases self.tree.len() - i,
        {
            proof {
                let next = self.tree@.take(i as int + 1);
                assert(next.drop_last() == self.tree@.take(i as int));
                assert(next.last() == self.tree@[i as int]);
            }
            match self.tree[i].entry() {
                Some(entry) => {
                    let ghost before = entry_views(entries@);
                    entries.push(entry);
                    assert(entry_views(entries@) =~= before.push(entry@));
                },
                None => {},
            }
            i += 1;
        }
        assert(self.tree@.take(i as int) == self.tree@);
        entries
    }
}

} // verus!
