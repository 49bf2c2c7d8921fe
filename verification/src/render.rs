//! The lines in which a tree is shown: one for each entry, indented by how deep the
//! entry lies.

use vstd::prelude::*;
use crate::text::views;
use crate::tree::{entry_views, EntryKind, EntryView, TreeEntry};

verus! {

/// How deep `path` lies below the root: the number of `/` in it.
pub open spec fn depth(path: Seq<char>) -> nat
    decreases path.len(),
{
    if path.len() == 0 {
        0
    } else {
        depth(path.drop_last()) + if path.last() == '/' {
            1nat
        } else {
            0nat
        }
    }
}

/// The indentation of `level` steps, two spaces a step.
pub open spec fn indent(level: nat) -> Seq<char>
    decreases level,
{
    if level == 0 {
        Seq::empty()
    } else {
        indent((level - 1) as nat) + "  "@
    }
}

/// The line for `entry` in a tree that is shown from `level` on: the path, indented by
/// the level and the depth of the path, with a `/` behind a directory.
pub open spec fn line_of(entry: EntryView, level: nat) -> Seq<char> {
    indent(level + depth(entry.path)) + entry.path + if entry.kind == EntryKind::Directory {
        "/"@
    } else {
        Seq::empty()
    }
}

/// The lines for `entries`, in the order of the entries.
pub open spec fn lines_of(entries: Seq<EntryView>, level: nat) -> Seq<Seq<char>> {
    entries.map_values(|e: EntryView| line_of(e, level))
}

/// The line for `entry`.
pub fn render_entry(entry: &TreeEntry, level: usize) -> (line: String)
    ensures
        line@ == line_of(entry@, level as nat),
{
    let path = entry.path();
    let mut line = String::new();
    let mut step: usize = 0;
    while step < level
        invariant
            step <= level,
            line@ == indent(step as nat),
        decreases level - step,
    {
        line.append("  ");
        step += 1;
    }
    let ghost all = path@;
    assert(all.take(0) == Seq::<char>::empty());
    for c in it: path.as_str().chars()
        invariant
            it.seq() == all,
            line@ == indent(level as nat + depth(all.take(it.index()))),
    {
        proof {
            let next = all.take(it.index() + 1);
            assert(next.drop_last() == all.take(it.index()));
            assert(next.last() == c);
        }
        if c == '/' {
            line.append("  ");
        }
    }
    assert(all.take(all.len() as int) == all);
    line.append(path.as_str());
    match entry.kind() {
        EntryKind::Directory => {
            line.append("/");
        },
        EntryKind::File => {
            assert(line@ + Seq::<char>::empty() == line@);
        },
    }
    line
}

/// The lines in which the tree of `entries` is shown from `level` on.
pub fn render_tree(entries: &[TreeEntry], level: usize) -> (lines: Vec<String>)
    ensures
        views(lines@) == lines_of(entry_views(entries@), level as nat),
{
    let mut lines: Vec<String> = Vec::new();
    let mut i: usize = 0;
    while i < entries.len()
        invariant
            i <= entries.len(),
            lines@.len() == i,
            forall|k: int| 0 <= k < i ==> lines@[k]@ == line_of(entries@[k]@, level as nat),
        decreases entries.len() - i,
    {
        lines.push(render_entry(&entries[i], level));
        i += 1;
    }
    assert(views(lines@) =~= lines_of(entry_views(entries@), level as nat));
    lines
}

} // verus!
