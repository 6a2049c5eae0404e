//! Path sanitization: rewriting every path of a snapshot from absolute to
//! root-relative form, by removing one leading occurrence of the configured
//! root path (with its trailing separator) from each path string.

use vstd::prelude::*;

use crate::models::Directory;
use crate::models::DirectoryEntry;
use crate::strutil::starts_with;
use crate::strutil::strip_prefix;
use crate::strutil::strip_prefix_string;

verus! {

/// `new` is `old` with every path in the tree stripped of one leading
/// occurrence of `pre`; names and tree shape are unchanged.
pub open spec fn dir_sanitized(new: Directory, old: Directory, pre: Seq<char>) -> bool
    decreases old,
{
    &&& new.name@ == old.name@
    &&& new.path@ == strip_prefix(old.path@, pre)
    &&& new.entries.len() == old.entries.len()
    &&& forall|i: int|
        0 <= i < old.entries.len() ==> entry_sanitized(
            #[trigger] new.entries[i],
            old.entries[i],
            pre,
        )
}

/// One entry of a sanitized tree, related to the entry it came from.
pub open spec fn entry_sanitized(new: DirectoryEntry, old: DirectoryEntry, pre: Seq<char>) -> bool
    decreases old,
{
    match old {
        DirectoryEntry::Directory(od) => {
            new matches DirectoryEntry::Directory(nd) && dir_sanitized(nd, od, pre)
        },
        DirectoryEntry::File { name: oname, path: opath } => {
            new matches DirectoryEntry::File { name: nname, path: npath } && nname@ == oname@
                && npath@ == strip_prefix(opath@, pre)
        },
    }
}

/// Rebuilds a directory tree with every path stripped of `pre`.
fn sanitize_dir(d: &Directory, pre: &str) -> (r: Directory)
    ensures
        dir_sanitized(r, *d, pre@),
    decreases *d,
{
    let new_name = d.name.clone();
    let new_path = strip_prefix_string(&d.path, pre);
    let mut new_entries: Vec<DirectoryEntry> = Vec::new();
    let n = d.entries.len();
    let mut i: usize = 0;
    while i < n
        invariant
            i <= n == d.entries.len(),
            new_entries.len() == i,
            forall|j: int|
                0 <= j < i ==> entry_sanitized(#[trigger] new_entries[j], d.entries[j], pre@),
        decreases n - i,
    {
        let e = &d.entries[i];
        proof {
            vstd::std_specs::vec::axiom_vec_index_decreases(d.entries, i as int);
            assert(decreases_to!(d.entries => d.entries[i as int]));
            assert(decreases_to!(*d => d.entries));
        }
        let ne = sanitize_entry(e, pre);
        new_entries.push(ne);
        i += 1;
    }
    Directory { name: new_name, entries: new_entries, path: new_path }
}

/// Rebuilds one entry with every path under it stripped of `pre`.
fn sanitize_entry(e: &DirectoryEntry, pre: &str) -> (r: DirectoryEntry)
    ensures
        entry_sanitized(r, *e, pre@),
    decreases *e,
{
    match e {
        DirectoryEntry::Directory(d) => DirectoryEntry::Directory(sanitize_dir(d, pre)),
        DirectoryEntry::File { name, path } => {
            let new_name = name.clone();
            let new_path = strip_prefix_string(path, pre);
            DirectoryEntry::File { name: new_name, path: new_path }
        },
    }
}

impl Directory {
    /// Rewrites every path of the tree (the root node's own path and every
    /// descendant's) by removing one leading occurrence of the base path
    /// followed by a separator; a path without that prefix stays unchanged.
    pub fn sanitize_path(&mut self, base_path: &str)
        ensures
            dir_sanitized(*final(self), *old(self), base_path@.push('/')),
    {
        let mut pre = base_path.to_owned();
        pre.append("/");
        proof {
            reveal_strlit("/");
            assert(pre@ =~= base_path@.push('/'));
        }
        Self::remove_base_path(self, pre.as_str());
    }

    /// Strips one leading occurrence of `base_path` from every path of the
    /// tree, depth first, in place.
    pub fn remove_base_path(root: &mut Directory, base_path: &str)
        ensures
            dir_sanitized(*final(root), *old(root), base_path@),
    {
        let sanitized = sanitize_dir(root, base_path);
        *root = sanitized;
    }
}

/// A target path as a request hands it over, with one leading separator
/// removed: queries that do not point at the base directory itself arrive
/// with a spurious leading `/` before the relative path.
pub fn normalize_query_path(path: &str) -> (r: String)
    ensures
        path@.len() > 0 && path@[0] == '/' ==> r@ == path@.drop_first(),
        !(path@.len() > 0 && path@[0] == '/') ==> r@ == path@,
{
    let n = path.unicode_len();
    if n > 0 && path.get_char(0) == '/' {
        let rest = path.substring_char(1, n);
        proof {
            assert(rest@ =~= path@.drop_first());
        }
        rest.to_owned()
    } else {
        path.to_owned()
    }
}

/// Every path of every entry of the tree (the root node's own path excluded)
/// starts with `root` plus a separator, and what follows that prefix does not
/// itself start with `root`. Trees built by walking a real directory under
/// `root` have the first part by construction; the second excludes paths in
/// which the root path occurs twice in a row.
pub open spec fn entry_paths_strippable(d: Directory, root: Seq<char>) -> bool
    decreases d,
{
    forall|i: int|
        0 <= i < d.entries.len() ==> entry_path_strippable(#[trigger] d.entries[i], root)
}

/// The condition of [`entry_paths_strippable`] for one entry and its subtree.
pub open spec fn entry_path_strippable(e: DirectoryEntry, root: Seq<char>) -> bool
    decreases e,
{
    match e {
        DirectoryEntry::Directory(d) => {
            &&& starts_with(d.path@, root.push('/'))
            &&& !starts_with(d.path@.skip(root.len() as int + 1), root)
            &&& entry_paths_strippable(d, root)
        },
        DirectoryEntry::File { name: _, path } => {
            &&& starts_with(path@, root.push('/'))
            &&& !starts_with(path@.skip(root.len() as int + 1), root)
        },
    }
}

/// No path of any entry of the tree is prefixed by `root`.
pub open spec fn no_entry_path_prefixed(d: Directory, root: Seq<char>) -> bool
    decreases d,
{
    forall|i: int|
        0 <= i < d.entries.len() ==> no_entry_path_prefixed_entry(#[trigger] d.entries[i], root)
}

/// The condition of [`no_entry_path_prefixed`] for one entry and its subtree.
pub open spec fn no_entry_path_prefixed_entry(e: DirectoryEntry, root: Seq<char>) -> bool
    decreases e,
{
    match e {
        DirectoryEntry::Directory(d) => {
            !starts_with(d.path@, root) && no_entry_path_prefixed(d, root)
        },
        DirectoryEntry::File { name: _, path } => !starts_with(path@, root),
    }
}

/// After sanitization against a root path, no entry's path is prefixed by
/// that root path: stripping `root + '/'` from a path that began with it and
/// whose remainder does not begin with `root` leaves a path free of the
/// prefix.
pub proof fn lemma_sanitize_removes_root_prefix(new: Directory, old: Directory, root: Seq<char>)
    requires
        dir_sanitized(new, old, root.push('/')),
        entry_paths_strippable(old, root),
    ensures
        no_entry_path_prefixed(new, root),
    decreases old,
{
    let pre = root.push('/');
    assert forall|i: int|
        0 <= i < new.entries.len() implies no_entry_path_prefixed_entry(
        #[trigger] new.entries[i],
        root,
    ) by {
        assert(entry_sanitized(new.entries[i], old.entries[i], pre));
        assert(entry_path_strippable(old.entries[i], root));
        lemma_sanitize_removes_root_prefix_entry(new.entries[i], old.entries[i], root);
    }
}

/// The statement of [`lemma_sanitize_removes_root_prefix`] for one entry.
pub proof fn lemma_sanitize_removes_root_prefix_entry(
    new: DirectoryEntry,
    old: DirectoryEntry,
    root: Seq<char>,
)
    requires
        entry_sanitized(new, old, root.push('/')),
        entry_path_strippable(old, root),
    ensures
        no_entry_path_prefixed_entry(new, root),
    decreases old,
{
    let pre = root.push('/');
    match old {
        DirectoryEntry::Directory(od) => {
            let nd = new->Directory_0;
            lemma_strip_leaves_no_prefix(od.path@, root);
            lemma_sanitize_removes_root_prefix(nd, od, root);
        },
        DirectoryEntry::File { name: _, path } => {
            lemma_strip_leaves_no_prefix(path@, root);
        },
    }
}

/// For one path: stripping `root + '/'` from a path that begins with it and
/// whose remainder does not begin with `root` leaves a path that `root` does
/// not prefix.
pub proof fn lemma_strip_leaves_no_prefix(p: Seq<char>, root: Seq<char>)
    requires
        starts_with(p, root.push('/')),
        !starts_with(p.skip(root.len() as int + 1), root),
    ensures
        !starts_with(strip_prefix(p, root.push('/')), root),
{
    let pre = root.push('/');
    assert(strip_prefix(p, pre) =~= p.skip(root.len() as int + 1));
}

} // verus!
