//! Deterministic ordering of a directory's children: directories before
//! files, lexicographic by name within each group.

use vstd::prelude::*;

use crate::models::Directory;
use crate::models::DirectoryEntry;
use crate::strutil::lex_le;
use crate::strutil::lemma_lex_le_total;
use crate::strutil::lemma_lex_le_trans;
use crate::strutil::str_le;

verus! {

/// The name of an entry.
pub open spec fn entry_name(e: DirectoryEntry) -> Seq<char> {
    match e {
        DirectoryEntry::Directory(d) => d.name@,
        DirectoryEntry::File { name, path: _ } => name@,
    }
}

/// The ordering of a directory's children: every directory before every
/// file, and lexicographic by name within each group.
pub open spec fn entry_le(a: DirectoryEntry, b: DirectoryEntry) -> bool {
    match (a, b) {
        (DirectoryEntry::Directory(x), DirectoryEntry::Directory(y)) => lex_le(x.name@, y.name@),
        (DirectoryEntry::Directory(_), DirectoryEntry::File { .. }) => true,
        (DirectoryEntry::File { .. }, DirectoryEntry::Directory(_)) => false,
        (
            DirectoryEntry::File { name: an, path: _ },
            DirectoryEntry::File { name: bn, path: _ },
        ) => lex_le(an@, bn@),
    }
}

/// The entry ordering is total.
pub proof fn lemma_entry_le_total(a: DirectoryEntry, b: DirectoryEntry)
    ensures
        entry_le(a, b) || entry_le(b, a),
{
    lemma_lex_le_total(entry_name(a), entry_name(b));
}

/// The entry ordering is transitive.
pub proof fn lemma_entry_le_trans(a: DirectoryEntry, b: DirectoryEntry, c: DirectoryEntry)
    requires
        entry_le(a, b),
        entry_le(b, c),
    ensures
        entry_le(a, c),
{
    if a is Directory && c is Directory && b is Directory {
        lemma_lex_le_trans(entry_name(a), entry_name(b), entry_name(c));
    }
    if a is File && b is File && c is File {
        lemma_lex_le_trans(entry_name(a), entry_name(b), entry_name(c));
    }
}

/// A sequence of entries ordered by [`entry_le`].
pub open spec fn entries_sorted(s: Seq<DirectoryEntry>) -> bool {
    forall|i: int, j: int| 0 <= i < j < s.len() ==> entry_le(#[trigger] s[i], #[trigger] s[j])
}

/// In a sorted sequence of entries every directory appears before every
/// file, and within each group names are non-decreasing.
pub proof fn lemma_sorted_groups(s: Seq<DirectoryEntry>)
    requires
        entries_sorted(s),
    ensures
        forall|i: int, j: int|
            0 <= i < j < s.len() && #[trigger] s[i] is File ==> #[trigger] s[j] is File,
        forall|i: int, j: int|
            0 <= i < j < s.len() && ((s[i] is Directory && s[j] is Directory) || (s[i] is File
                && s[j] is File)) ==> lex_le(entry_name(#[trigger] s[i]), entry_name(
                #[trigger] s[j],
            )),
{
}

/// Decides [`entry_le`].
pub fn entry_le_exec(a: &DirectoryEntry, b: &DirectoryEntry) -> (r: bool)
    ensures
        r == entry_le(*a, *b),
{
    match (a, b) {
        (DirectoryEntry::Directory(x), DirectoryEntry::Directory(y)) => {
            str_le(x.name.as_str(), y.name.as_str())
        },
        (DirectoryEntry::Directory(_), DirectoryEntry::File { .. }) => true,
        (DirectoryEntry::File { .. }, DirectoryEntry::Directory(_)) => false,
        (
            DirectoryEntry::File { name: an, path: _ },
            DirectoryEntry::File { name: bn, path: _ },
        ) => str_le(an.as_str(), bn.as_str()),
    }
}

/// The position at which `e` is inserted into the sorted `v`: the first index
/// whose entry does not come at or before `e`.
fn insertion_point(v: &Vec<DirectoryEntry>, e: &DirectoryEntry) -> (pos: usize)
    requires
        entries_sorted(v@),
    ensures
        pos <= v.len(),
        forall|i: int| 0 <= i < pos ==> entry_le(#[trigger] v@[i], *e),
        forall|i: int| pos <= i < v.len() ==> !entry_le(#[trigger] v@[i], *e),
{
    let n = v.len();
    let mut pos: usize = 0;
    while pos < n
        invariant
            pos <= n == v.len(),
            entries_sorted(v@),
            forall|i: int| 0 <= i < pos ==> entry_le(#[trigger] v@[i], *e),
        decreases n - pos,
    {
        if !entry_le_exec(&v[pos], e) {
            assert forall|i: int| pos <= i < v.len() implies !entry_le(#[trigger] v@[i], *e) by {
                if i > pos && entry_le(v@[i], *e) {
                    lemma_entry_le_trans(v@[pos as int], v@[i], *e);
                }
            }
            return pos;
        }
        pos += 1;
    }
    pos
}

impl Directory {
    /// Reorders this directory's immediate children into the deterministic
    /// order of [`entry_le`]: directories before files, lexicographic by name
    /// within each group. The children are permuted, nothing else changes.
    pub fn sort_entries(&mut self)
        ensures
            final(self).name == old(self).name,
            final(self).path == old(self).path,
            final(self).entries@.to_multiset() == old(self).entries@.to_multiset(),
            entries_sorted(final(self).entries@),
    {
        broadcast use vstd::seq_lib::group_to_multiset_ensures;
        broadcast use vstd::seq_lib::to_multiset_insert;
        broadcast use vstd::multiset::group_multiset_axioms;

        let mut sorted: Vec<DirectoryEntry> = Vec::new();
        while self.entries.len() > 0
            invariant
                self.name == old(self).name,
                self.path == old(self).path,
                entries_sorted(sorted@),
                sorted@.to_multiset().add(self.entries@.to_multiset()) == old(
                    self,
                ).entries@.to_multiset(),
            decreases self.entries.len(),
        {
            let ghost rest0 = self.entries@;
            let e = self.entries.remove(0);
            let pos = insertion_point(&sorted, &e);
            let ghost sorted0 = sorted@;
            sorted.insert(pos, e);
            proof {
                rest0.to_multiset_ensures();
                vstd::seq_lib::to_multiset_insert(sorted0, pos as int, e);
                assert(rest0.contains(e));
                assert(rest0.to_multiset().count(e) > 0);
                assert(self.entries@ == rest0.remove(0));
                assert(rest0.remove(0).to_multiset() == rest0.to_multiset().remove(rest0[0]));
                assert(sorted@ == sorted0.insert(pos as int, e));
                assert(sorted0.insert(pos as int, e).to_multiset() == sorted0.to_multiset().insert(
                    e,
                ));
                assert(sorted@.to_multiset() == sorted0.to_multiset().insert(e));
                assert(sorted@.to_multiset().add(self.entries@.to_multiset()) =~= old(
                    self,
                ).entries@.to_multiset());
                assert forall|i: int, j: int|
                    0 <= i < j < sorted@.len() implies entry_le(
                    #[trigger] sorted@[i],
                    #[trigger] sorted@[j],
                ) by {
                    let s = sorted@;
                    if j < pos {
                    } else if i < pos && j == pos {
                    } else if i < pos && j > pos {
                    } else if i == pos {
                        lemma_entry_le_total(e, sorted0[j - 1]);
                    } else {
                    }
                }
            }
        }
        self.entries = sorted;
    }
}

} // verus!
