use file_server_core::models::Directory;
use file_server_core::models::DirectoryEntry;
use file_server_core::models::DirListing;
use file_server_core::models::RawEntry;
use file_server_core::models::ServeError;
use file_server_core::models::validate_target;
use file_server_core::get_directory_structure;
use file_server_core::get_directory_structure_recursive;
use file_server_core::sanitize::normalize_query_path;
use file_server_core::templates::DirectoryEntryTemplate;
use file_server_core::templates::DirectoryTemplate;

fn raw(name: &str, path: &str, is_dir: bool) -> RawEntry {
    RawEntry { name: name.to_string(), path: path.to_string(), is_dir }
}

fn empty_dir(name: &str, path: &str) -> Directory {
    Directory { name: name.to_string(), entries: Vec::new(), path: path.to_string() }
}

fn entry_name(e: &DirectoryEntry) -> &str {
    match e {
        DirectoryEntry::Directory(d) => &d.name,
        DirectoryEntry::File { name, .. } => name,
    }
}

fn entry_path(e: &DirectoryEntry) -> &str {
    match e {
        DirectoryEntry::Directory(d) => &d.path,
        DirectoryEntry::File { path, .. } => path,
    }
}

#[test]
fn shallow_walk_yields_one_entry_per_raw_entry() {
    // One subdirectory and one file: exactly two entries, one of each
    // variant, and no descent into the subdirectory.
    let snapshot = vec![DirListing {
        path: "/r".to_string(),
        entries: vec![raw("a", "/r/a", true), raw("b.txt", "/r/b.txt", false)],
    }];
    let mut root = empty_dir("r", "/r");
    let result = get_directory_structure(&mut root, &snapshot);
    assert!(result.is_ok());
    assert_eq!(root.entries.len(), 2);
    match &root.entries[0] {
        DirectoryEntry::Directory(d) => {
            assert_eq!(d.name, "a");
            assert_eq!(d.path, "/r/a");
            assert!(d.entries.is_empty());
        }
        other => panic!("expected a directory entry, got {:?}", entry_name(other)),
    }
    match &root.entries[1] {
        DirectoryEntry::File { name, path } => {
            assert_eq!(name, "b.txt");
            assert_eq!(path, "/r/b.txt");
        }
        _ => panic!("expected a file entry"),
    }
}

#[test]
fn shallow_walk_fails_without_root_listing() {
    let snapshot: Vec<DirListing> = Vec::new();
    let mut root = empty_dir("r", "/r");
    let result = get_directory_structure(&mut root, &snapshot);
    assert_eq!(result, Err(ServeError::PermissionOrReadFailure));
    assert!(root.entries.is_empty());
}

#[test]
fn recursive_walk_builds_the_subtree() {
    // root/{a/, b.txt} where a/ holds c.txt, sorted at every level:
    // root -> [Directory(a -> [File(c.txt)]), File(b.txt)].
    let snapshot = vec![
        DirListing {
            path: "/r".to_string(),
            entries: vec![raw("b.txt", "/r/b.txt", false), raw("a", "/r/a", true)],
        },
        DirListing {
            path: "/r/a".to_string(),
            entries: vec![raw("c.txt", "/r/a/c.txt", false)],
        },
    ];
    let mut root = empty_dir("r", "/r");
    let result = get_directory_structure_recursive(&mut root, &snapshot);
    assert!(result.is_ok());
    root.sort_entries();
    assert_eq!(root.entries.len(), 2);
    match &root.entries[0] {
        DirectoryEntry::Directory(a) => {
            assert_eq!(a.name, "a");
            assert_eq!(a.entries.len(), 1);
            match &a.entries[0] {
                DirectoryEntry::File { name, path } => {
                    assert_eq!(name, "c.txt");
                    assert_eq!(path, "/r/a/c.txt");
                }
                _ => panic!("expected c.txt as a file"),
            }
        }
        _ => panic!("expected the directory a first"),
    }
    match &root.entries[1] {
        DirectoryEntry::File { name, .. } => assert_eq!(name, "b.txt"),
        _ => panic!("expected the file b.txt second"),
    }
}

#[test]
fn recursive_walk_fails_without_root_listing() {
    let snapshot = vec![DirListing { path: "/other".to_string(), entries: Vec::new() }];
    let mut root = empty_dir("r", "/r");
    let result = get_directory_structure_recursive(&mut root, &snapshot);
    assert_eq!(result, Err(ServeError::PermissionOrReadFailure));
}

#[test]
fn unreadable_nested_directory_becomes_empty_node() {
    // The listing for /r/a is missing: the walk still succeeds and a has no
    // children.
    let snapshot = vec![DirListing {
        path: "/r".to_string(),
        entries: vec![raw("a", "/r/a", true)],
    }];
    let mut root = empty_dir("r", "/r");
    assert!(get_directory_structure_recursive(&mut root, &snapshot).is_ok());
    match &root.entries[0] {
        DirectoryEntry::Directory(a) => assert!(a.entries.is_empty()),
        _ => panic!("expected a directory"),
    }
}

#[test]
fn recursive_walk_does_not_descend_into_a_path_twice() {
    // A listing whose child claims the root's own path: the walk terminates
    // and the repeated path gets no children.
    let snapshot = vec![DirListing {
        path: "/r".to_string(),
        entries: vec![raw("loop", "/r", true)],
    }];
    let mut root = empty_dir("r", "/r");
    assert!(get_directory_structure_recursive(&mut root, &snapshot).is_ok());
    assert_eq!(root.entries.len(), 1);
    match &root.entries[0] {
        DirectoryEntry::Directory(d) => {
            assert_eq!(d.path, "/r");
            assert!(d.entries.is_empty());
        }
        _ => panic!("expected a directory"),
    }
}

#[test]
fn sanitize_strips_the_base_path_everywhere() {
    // After sanitization no entry's path is prefixed by the base path.
    let mut root = Directory {
        name: "files".to_string(),
        path: "/srv/files".to_string(),
        entries: vec![
            DirectoryEntry::Directory(Directory {
                name: "a".to_string(),
                path: "/srv/files/a".to_string(),
                entries: vec![DirectoryEntry::File {
                    name: "c.txt".to_string(),
                    path: "/srv/files/a/c.txt".to_string(),
                }],
            }),
            DirectoryEntry::File {
                name: "b.txt".to_string(),
                path: "/srv/files/b.txt".to_string(),
            },
        ],
    };
    root.sanitize_path("/srv/files");
    assert_eq!(root.path, "/srv/files");
    match &root.entries[0] {
        DirectoryEntry::Directory(a) => {
            assert_eq!(a.path, "a");
            assert_eq!(entry_path(&a.entries[0]), "a/c.txt");
            assert!(!a.path.starts_with("/srv/files"));
        }
        _ => panic!("expected a directory"),
    }
    assert_eq!(entry_path(&root.entries[1]), "b.txt");
}

#[test]
fn sanitize_leaves_foreign_paths_unchanged() {
    let mut root = Directory {
        name: "x".to_string(),
        path: "/elsewhere/x".to_string(),
        entries: vec![DirectoryEntry::File {
            name: "y".to_string(),
            path: "/elsewhere/x/y".to_string(),
        }],
    };
    root.sanitize_path("/srv/files");
    assert_eq!(root.path, "/elsewhere/x");
    assert_eq!(entry_path(&root.entries[0]), "/elsewhere/x/y");
}

#[test]
fn sort_puts_directories_before_files_and_orders_names() {
    let mut root = Directory {
        name: "r".to_string(),
        path: "/r".to_string(),
        entries: vec![
            DirectoryEntry::File { name: "b.txt".to_string(), path: "/r/b.txt".to_string() },
            DirectoryEntry::Directory(empty_dir("z", "/r/z")),
            DirectoryEntry::File { name: "a.txt".to_string(), path: "/r/a.txt".to_string() },
            DirectoryEntry::Directory(empty_dir("y", "/r/y")),
        ],
    };
    root.sort_entries();
    let names: Vec<&str> = root.entries.iter().map(entry_name).collect();
    assert_eq!(names, vec!["y", "z", "a.txt", "b.txt"]);
    assert!(root.entries[0].is_directory());
    assert!(root.entries[1].is_directory());
    assert!(!root.entries[2].is_directory());
    assert!(!root.entries[3].is_directory());
}

#[test]
fn sort_keeps_every_entry() {
    let mut root = Directory {
        name: "r".to_string(),
        path: "/r".to_string(),
        entries: vec![
            DirectoryEntry::File { name: "same".to_string(), path: "/r/1".to_string() },
            DirectoryEntry::File { name: "same".to_string(), path: "/r/2".to_string() },
            DirectoryEntry::File { name: "aaa".to_string(), path: "/r/3".to_string() },
        ],
    };
    root.sort_entries();
    assert_eq!(root.entries.len(), 3);
    assert_eq!(entry_name(&root.entries[0]), "aaa");
    assert_eq!(entry_name(&root.entries[1]), "same");
    assert_eq!(entry_name(&root.entries[2]), "same");
}

#[test]
fn is_directory_tells_the_variants_apart() {
    let d = DirectoryEntry::Directory(empty_dir("a", "/a"));
    let f = DirectoryEntry::File { name: "b".to_string(), path: "/b".to_string() };
    assert!(d.is_directory());
    assert!(!f.is_directory());
}

#[test]
fn validate_target_maps_the_metadata_outcomes() {
    assert_eq!(validate_target(false, false), Err(ServeError::TargetNotFound));
    assert_eq!(validate_target(true, false), Err(ServeError::NotADirectory));
    assert_eq!(validate_target(true, true), Ok(()));
}

#[test]
fn normalize_query_path_drops_one_leading_separator() {
    assert_eq!(normalize_query_path("/a/b"), "a/b");
    assert_eq!(normalize_query_path("a/b"), "a/b");
    assert_eq!(normalize_query_path(""), "");
    assert_eq!(normalize_query_path("//x"), "/x");
}

#[test]
fn directory_template_mirrors_the_tree() {
    let root = Directory {
        name: "r".to_string(),
        path: "r".to_string(),
        entries: vec![
            DirectoryEntry::Directory(Directory {
                name: "a".to_string(),
                path: "r/a".to_string(),
                entries: vec![DirectoryEntry::File {
                    name: "c.txt".to_string(),
                    path: "r/a/c.txt".to_string(),
                }],
            }),
            DirectoryEntry::File { name: "b.txt".to_string(), path: "r/b.txt".to_string() },
        ],
    };
    let t = DirectoryTemplate::from_directory(&root);
    assert_eq!(t.name, "r");
    assert_eq!(t.path, "r");
    assert!(!t.expanded);
    assert_eq!(t.entries.len(), 2);
    match &t.entries[0] {
        DirectoryEntryTemplate::Directory(a) => {
            assert_eq!(a.name, "a");
            assert!(!a.expanded);
            assert_eq!(a.entries.len(), 1);
            match &a.entries[0] {
                DirectoryEntryTemplate::File { name, path } => {
                    assert_eq!(name, "c.txt");
                    assert_eq!(path, "r/a/c.txt");
                }
                _ => panic!("expected a file view model"),
            }
        }
        _ => panic!("expected a directory view model"),
    }
}
