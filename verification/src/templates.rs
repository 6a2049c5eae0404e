//! The view models a presentation layer renders: mirrors of the snapshot
//! types carrying what the templates show, plus the file-content view model
//! with its coarse media category.

use vstd::prelude::*;

use crate::media::MediaType;
use crate::models::Directory;
use crate::models::DirectoryEntry;

verus! {

/// The view model of the home page.
pub struct HomePageTemplate {
    pub css_content: String,
}

/// The view model of a directory listing: the root directory's view and
/// whether it is rendered expanded.
pub struct ProgramListTemplate {
    pub base_dir: DirectoryTemplate,
    pub expanded: bool,
}

/// The view model of one directory: its name and path, its children's view
/// models, and whether it is rendered expanded.
pub struct DirectoryTemplate {
    pub name: String,
    pub entries: Vec<DirectoryEntryTemplate>,
    pub path: String,
    pub expanded: bool,
}

/// The view model of one directory entry.
pub enum DirectoryEntryTemplate {
    Directory(DirectoryTemplate),
    File { name: String, path: String },
}

/// The view model of one file's content page: the file's name and path, and
/// the coarse media category deciding how the content is rendered.
pub struct FileContentTemplate {
    pub name: String,
    pub path: String,
    pub media_type: MediaType,
}

/// `t` mirrors the directory `d`: same name, path and shape, every node
/// rendered collapsed.
pub open spec fn template_of_dir(t: DirectoryTemplate, d: Directory) -> bool
    decreases d,
{
    &&& t.name@ == d.name@
    &&& t.path@ == d.path@
    &&& t.expanded == false
    &&& t.entries.len() == d.entries.len()
    &&& forall|i: int|
        0 <= i < d.entries.len() ==> template_of_entry(#[trigger] t.entries[i], d.entries[i])
}

/// One mirrored entry.
pub open spec fn template_of_entry(t: DirectoryEntryTemplate, e: DirectoryEntry) -> bool
    decreases e,
{
    match e {
        DirectoryEntry::Directory(d) => {
            t matches DirectoryEntryTemplate::Directory(td) && template_of_dir(td, d)
        },
        DirectoryEntry::File { name, path } => {
            t matches DirectoryEntryTemplate::File { name: tn, path: tp } && tn@ == name@ && tp@
                == path@
        },
    }
}

impl DirectoryTemplate {
    /// The view model mirroring a directory tree, every node collapsed.
    pub fn from_directory(d: &Directory) -> (t: DirectoryTemplate)
        ensures
            template_of_dir(t, *d),
        decreases *d,
    {
        let name = d.name.clone();
        let path = d.path.clone();
        let mut entries: Vec<DirectoryEntryTemplate> = Vec::new();
        let n = d.entries.len();
        let mut i: usize = 0;
        while i < n
            invariant
                i <= n == d.entries.len(),
                entries.len() == i,
                forall|j: int|
                    0 <= j < i ==> template_of_entry(#[trigger] entries[j], d.entries[j]),
            decreases n - i,
        {
            let e = &d.entries[i];
            proof {
                vstd::std_specs::vec::axiom_vec_index_decreases(d.entries, i as int);
                assert(decreases_to!(d.entries => d.entries[i as int]));
                assert(decreases_to!(*d => d.entries));
            }
            let te = DirectoryEntryTemplate::from_entry(e);
            entries.push(te);
            i += 1;
        }
        DirectoryTemplate { name, entries, path, expanded: false }
    }
}

impl DirectoryEntryTemplate {
    /// The view model mirroring one entry.
    pub fn from_entry(e: &DirectoryEntry) -> (t: DirectoryEntryTemplate)
        ensures
            template_of_entry(t, *e),
        decreases *e,
    {
        match e {
            DirectoryEntry::Directory(d) => {
                DirectoryEntryTemplate::Directory(DirectoryTemplate::from_directory(d))
            },
            DirectoryEntry::File { name, path } => {
                DirectoryEntryTemplate::File { name: name.clone(), path: path.clone() }
            },
        }
    }
}

} // verus!
