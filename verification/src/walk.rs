//! The tree walker: materializing a directory snapshot, shallow or recursive,
//! from the raw listings the filesystem reports.
//!
//! A walk works against a set of raw listings, one per readable directory,
//! keyed by path. A directory whose listing is absent (it could not be read)
//! becomes a node with no children; only the top-level directory's missing
//! listing is an error. A recursive walk keeps the set of paths already on
//! its descent chain and does not descend into a path twice, so a cycle the
//! filesystem smuggles in (for example through symlinks) cannot recurse
//! without bound.

use vstd::prelude::*;

use crate::models::Directory;
use crate::models::DirectoryEntry;
use crate::models::DirListing;
use crate::models::RawEntry;
use crate::models::ServeError;

verus! {

/// The index of the first listing whose path is `path`, if any.
pub open spec fn lookup_listing(snap: Seq<DirListing>, path: Seq<char>) -> Option<int>
    decreases snap.len(),
{
    if snap.len() == 0 {
        None
    } else if snap[0].path@ == path {
        Some(0)
    } else {
        match lookup_listing(snap.drop_first(), path) {
            Some(i) => Some(i + 1),
            None => None,
        }
    }
}

/// What [`lookup_listing`] returns: the first matching index, or `None` when
/// no listing matches.
pub proof fn lemma_lookup_listing(snap: Seq<DirListing>, path: Seq<char>)
    ensures
        match lookup_listing(snap, path) {
            Some(i) => 0 <= i < snap.len() && snap[i].path@ == path && (forall|j: int|
                0 <= j < i ==> snap[j].path@ != path),
            None => forall|j: int| 0 <= j < snap.len() ==> snap[j].path@ != path,
        },
    decreases snap.len(),
{
    if snap.len() > 0 && snap[0].path@ != path {
        let rest = snap.drop_first();
        lemma_lookup_listing(rest, path);
        assert(forall|j: int| 0 <= j < rest.len() ==> rest[j] == snap[j + 1]);
        match lookup_listing(rest, path) {
            Some(i) => {
                assert(snap[i + 1].path@ == path);
                assert forall|j: int| 0 <= j < i + 1 implies snap[j].path@ != path by {
                    if j > 0 {
                        assert(rest[j - 1].path@ != path);
                    }
                }
            },
            None => {
                assert forall|j: int| 0 <= j < snap.len() implies snap[j].path@ != path by {
                    if j > 0 {
                        assert(rest[j - 1].path@ != path);
                    }
                }
            },
        }
    }
}

/// The set of paths that have a listing.
pub open spec fn listing_paths(snap: Seq<DirListing>) -> Set<Seq<char>>
    decreases snap.len(),
{
    if snap.len() == 0 {
        Set::empty()
    } else {
        listing_paths(snap.drop_first()).insert(snap[0].path@)
    }
}

/// The set of listed paths is finite.
pub proof fn lemma_listing_paths_finite(snap: Seq<DirListing>)
    ensures
        listing_paths(snap).finite(),
    decreases snap.len(),
{
    broadcast use vstd::set::group_set_axioms;

    if snap.len() > 0 {
        lemma_listing_paths_finite(snap.drop_first());
    }
}

/// A path has a listing exactly when it is in the set of listed paths.
pub proof fn lemma_lookup_in_paths(snap: Seq<DirListing>, path: Seq<char>)
    ensures
        lookup_listing(snap, path) is Some <==> listing_paths(snap).contains(path),
    decreases snap.len(),
{
    broadcast use vstd::set::group_set_axioms;

    if snap.len() > 0 && snap[0].path@ != path {
        lemma_lookup_in_paths(snap.drop_first(), path);
    }
}

/// The set of path strings a vector of visited paths holds.
pub open spec fn visited_paths(v: Seq<String>) -> Set<Seq<char>>
    decreases v.len(),
{
    if v.len() == 0 {
        Set::empty()
    } else {
        visited_paths(v.drop_last()).insert(v.last()@)
    }
}

/// Membership in [`visited_paths`] is membership in the vector.
pub proof fn lemma_visited_paths_contains(v: Seq<String>, p: Seq<char>)
    ensures
        visited_paths(v).contains(p) <==> exists|j: int| 0 <= j < v.len() && v[j]@ == p,
    decreases v.len(),
{
    broadcast use vstd::set::group_set_axioms;

    if v.len() > 0 {
        let front = v.drop_last();
        lemma_visited_paths_contains(front, p);
        assert(forall|j: int| 0 <= j < front.len() ==> front[j] == v[j]);
        if visited_paths(v).contains(p) {
            if p == v.last()@ {
                assert(v[v.len() - 1]@ == p);
            } else {
                assert(visited_paths(front).contains(p));
                let j = choose|j: int| 0 <= j < front.len() && front[j]@ == p;
                assert(v[j]@ == p);
            }
        }
        if exists|j: int| 0 <= j < v.len() && v[j]@ == p {
            let j = choose|j: int| 0 <= j < v.len() && v[j]@ == p;
            if j == v.len() - 1 {
                assert(visited_paths(v).contains(v.last()@));
            } else {
                assert(front[j]@ == p);
                assert(visited_paths(front).contains(p));
            }
        }
    }
}

/// Descending into an unvisited listed path shrinks the set of listed paths
/// still unvisited.
proof fn lemma_visit_shrinks_measure(paths: Set<Seq<char>>, visited: Set<Seq<char>>, p: Seq<char>)
    requires
        paths.finite(),
        paths.contains(p),
        !visited.contains(p),
    ensures
        paths.difference(visited.insert(p)).len() < paths.difference(visited).len(),
{
    broadcast use vstd::set::group_set_axioms;

    let d0 = paths.difference(visited);
    let d1 = paths.difference(visited.insert(p));
    assert(d0.finite());
    assert(d1 =~= d0.remove(p));
    assert(d0.contains(p));
}

/// What one shallow (non-recursive) walk makes of one raw entry: a childless
/// directory node or a file entry, carrying the raw name and path.
pub open spec fn shallow_entry_of(e: DirectoryEntry, raw: RawEntry) -> bool {
    if raw.is_dir {
        e matches DirectoryEntry::Directory(d) && d.name@ == raw.name@ && d.path@ == raw.path@
            && d.entries.len() == 0
    } else {
        e matches DirectoryEntry::File { name, path } && name@ == raw.name@ && path@ == raw.path@
    }
}

/// A directory node fully walked against the listings in `snap`, having
/// descended through the paths in `visited`: if the node's path has a listing
/// and is not yet visited, its children mirror that listing's raw entries
/// (directories walked recursively, with the node's own path added to the
/// descent chain); otherwise it has no children.
pub open spec fn walked_dir(node: Directory, snap: Seq<DirListing>, visited: Set<Seq<char>>) -> bool
    decreases node,
{
    match lookup_listing(snap, node.path@) {
        Some(li) => {
            if visited.contains(node.path@) {
                node.entries.len() == 0
            } else {
                &&& node.entries.len() == snap[li].entries.len()
                &&& forall|i: int|
                    0 <= i < node.entries.len() ==> walked_entry(
                        #[trigger] node.entries[i],
                        snap[li].entries[i],
                        snap,
                        visited.insert(node.path@),
                    )
            }
        },
        None => node.entries.len() == 0,
    }
}

/// One walked child: a file entry for a raw non-directory, a recursively
/// walked directory node for a raw directory.
pub open spec fn walked_entry(
    e: DirectoryEntry,
    raw: RawEntry,
    snap: Seq<DirListing>,
    visited: Set<Seq<char>>,
) -> bool
    decreases e,
{
    if raw.is_dir {
        e matches DirectoryEntry::Directory(d) && d.name@ == raw.name@ && d.path@ == raw.path@
            && walked_dir(d, snap, visited)
    } else {
        e matches DirectoryEntry::File { name, path } && name@ == raw.name@ && path@ == raw.path@
    }
}

/// The index of the first listing for `path`, if any.
fn find_listing(snapshot: &Vec<DirListing>, path: &String) -> (r: Option<usize>)
    ensures
        match r {
            Some(i) => lookup_listing(snapshot@, path@) == Some(i as int),
            None => lookup_listing(snapshot@, path@) is None,
        },
{
    proof {
        lemma_lookup_listing(snapshot@, path@);
    }
    let n = snapshot.len();
    let mut i: usize = 0;
    while i < n
        invariant
            i <= n == snapshot@.len(),
            forall|j: int| 0 <= j < i ==> snapshot@[j].path@ != path@,
            lookup_listing(snapshot@, path@) matches Some(k) ==> 0 <= k < snapshot@.len()
                && snapshot@[k].path@ == path@,
            lookup_listing(snapshot@, path@) matches Some(k) ==> forall|j: int|
                0 <= j < k ==> snapshot@[j].path@ != path@,
            lookup_listing(snapshot@, path@) is None ==> forall|j: int|
                0 <= j < snapshot@.len() ==> snapshot@[j].path@ != path@,
        decreases n - i,
    {
        let listing = &snapshot[i];
        if listing.path.eq(path) {
            return Some(i);
        }
        i += 1;
    }
    None
}

/// Whether `p` is among the visited paths.
fn contains_path(visited: &Vec<String>, p: &String) -> (r: bool)
    ensures
        r == visited_paths(visited@).contains(p@),
{
    proof {
        lemma_visited_paths_contains(visited@, p@);
    }
    let n = visited.len();
    let mut i: usize = 0;
    while i < n
        invariant
            i <= n == visited@.len(),
            forall|j: int| 0 <= j < i ==> visited@[j]@ != p@,
        decreases n - i,
    {
        let v = &visited[i];
        if v.eq(p) {
            proof {
                lemma_visited_paths_contains(visited@, p@);
                assert(visited@[i as int]@ == p@);
                assert(exists|j: int| 0 <= j < visited@.len() && visited@[j]@ == p@);
            }
            return true;
        }
        i += 1;
    }
    false
}

/// Fills `node`'s children by walking the listings recursively, never
/// descending into a path already on the descent chain `visited`.
fn walk_node(node: &mut Directory, snapshot: &Vec<DirListing>, visited: &Vec<String>)
    requires
        old(node).entries.len() == 0,
    ensures
        final(node).name == old(node).name,
        final(node).path == old(node).path,
        walked_dir(*final(node), snapshot@, visited_paths(visited@)),
    decreases listing_paths(snapshot@).difference(visited_paths(visited@)).len(),
{
    let found = find_listing(snapshot, &node.path);
    if contains_path(visited, &node.path) {
        return ;
    }
    let li = match found {
        None => {
            return ;
        },
        Some(li) => li,
    };
    proof {
        lemma_lookup_listing(snapshot@, node.path@);
    }

    let mut extended: Vec<String> = Vec::new();
    let vn = visited.len();
    let mut k: usize = 0;
    while k < vn
        invariant
            k <= vn == visited@.len(),
            extended@ =~= visited@.subrange(0, k as int),
        decreases vn - k,
    {
        let v = &visited[k];
        extended.push(v.clone());
        k += 1;
    }
    assert(extended@ =~= visited@);
    extended.push(node.path.clone());
    proof {
        assert(extended@.drop_last() =~= visited@);
        assert(visited_paths(extended@) == visited_paths(visited@).insert(node.path@));
    }

    let n = snapshot[li].entries.len();
    let mut i: usize = 0;
    while i < n
        invariant
            i <= n,
            lookup_listing(snapshot@, node.path@) == Some(li as int),
            0 <= li < snapshot@.len(),
            n == snapshot@[li as int].entries.len(),
            node.name == old(node).name,
            node.path == old(node).path,
            node.entries.len() == i,
            !visited_paths(visited@).contains(node.path@),
            visited_paths(extended@) == visited_paths(visited@).insert(node.path@),
            forall|j: int|
                0 <= j < i ==> walked_entry(
                    #[trigger] node.entries[j],
                    snapshot@[li as int].entries[j],
                    snapshot@,
                    visited_paths(extended@),
                ),
        decreases n - i,
    {
        let listing = &snapshot[li];
        let raw = &listing.entries[i];
        if raw.is_dir {
            let mut child = Directory {
                name: raw.name.clone(),
                entries: Vec::new(),
                path: raw.path.clone(),
            };
            proof {
                lemma_listing_paths_finite(snapshot@);
                lemma_lookup_in_paths(snapshot@, node.path@);
                lemma_visit_shrinks_measure(
                    listing_paths(snapshot@),
                    visited_paths(visited@),
                    node.path@,
                );
            }
            walk_node(&mut child, snapshot, &extended);
            node.entries.push(DirectoryEntry::Directory(child));
        } else {
            node.entries.push(
                DirectoryEntry::File { name: raw.name.clone(), path: raw.path.clone() },
            );
        }
        i += 1;
    }
}

/// Enumerates the immediate entries of `root_directory` from its listing in
/// the snapshot: each raw directory becomes a childless directory node, each
/// raw file a file entry, in listing order. Fails exactly when the snapshot
/// has no listing for the root's path (the top-level directory could not be
/// read).
pub fn get_directory_structure(root_directory: &mut Directory, snapshot: &Vec<DirListing>) -> (r:
    Result<(), ServeError>)
    requires
        old(root_directory).entries.len() == 0,
    ensures
        final(root_directory).name == old(root_directory).name,
        final(root_directory).path == old(root_directory).path,
        r is Ok <==> lookup_listing(snapshot@, old(root_directory).path@) is Some,
        r is Err ==> r == Result::<(), ServeError>::Err(ServeError::PermissionOrReadFailure)
            && *final(root_directory) == *old(root_directory),
        lookup_listing(snapshot@, old(root_directory).path@) matches Some(li) ==> {
            &&& final(root_directory).entries.len() == snapshot@[li].entries.len()
            &&& forall|i: int|
                0 <= i < final(root_directory).entries.len() ==> shallow_entry_of(
                    #[trigger] final(root_directory).entries[i],
                    snapshot@[li].entries[i],
                )
        },
{
    let li = match find_listing(snapshot, &root_directory.path) {
        None => {
            return Err(ServeError::PermissionOrReadFailure);
        },
        Some(li) => li,
    };
    proof {
        lemma_lookup_listing(snapshot@, root_directory.path@);
    }
    let n = snapshot[li].entries.len();
    let mut i: usize = 0;
    while i < n
        invariant
            i <= n,
            0 <= li < snapshot@.len(),
            n == snapshot@[li as int].entries.len(),
            root_directory.name == old(root_directory).name,
            root_directory.path == old(root_directory).path,
            root_directory.entries.len() == i,
            forall|j: int|
                0 <= j < i ==> shallow_entry_of(
                    #[trigger] root_directory.entries[j],
                    snapshot@[li as int].entries[j],
                ),
        decreases n - i,
    {
        let listing = &snapshot[li];
        let raw = &listing.entries[i];
        let entry = if raw.is_dir {
            DirectoryEntry::Directory(
                Directory { name: raw.name.clone(), entries: Vec::new(), path: raw.path.clone() },
            )
        } else {
            DirectoryEntry::File { name: raw.name.clone(), path: raw.path.clone() }
        };
        root_directory.entries.push(entry);
        i += 1;
    }
    Ok(())
}

/// Walks the whole subtree under `root_directory` from the snapshot's
/// listings. A missing listing on a nested directory yields a node with no
/// children; a path already on the descent chain is not descended into
/// again. Fails exactly when the snapshot has no listing for the root's own
/// path.
pub fn get_directory_structure_recursive(
    root_directory: &mut Directory,
    snapshot: &Vec<DirListing>,
) -> (r: Result<(), ServeError>)
    requires
        old(root_directory).entries.len() == 0,
    ensures
        final(root_directory).name == old(root_directory).name,
        final(root_directory).path == old(root_directory).path,
        r is Ok <==> lookup_listing(snapshot@, old(root_directory).path@) is Some,
        r is Err ==> r == Result::<(), ServeError>::Err(ServeError::PermissionOrReadFailure)
            && *final(root_directory) == *old(root_directory),
        r is Ok ==> walked_dir(*final(root_directory), snapshot@, Set::empty()),
{
    match find_listing(snapshot, &root_directory.path) {
        None => Err(ServeError::PermissionOrReadFailure),
        Some(_) => {
            let visited: Vec<String> = Vec::new();
            proof {
                assert(visited_paths(visited@) =~= Set::<Seq<char>>::empty());
            }
            walk_node(root_directory, snapshot, &visited);
            Ok(())
        },
    }
}

} // verus!
