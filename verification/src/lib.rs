//! Core of a directory-serving file server: walking a directory tree into an
//! in-memory snapshot, sanitizing the paths it exposes, ordering its entries,
//! classifying file names by coarse media type, and chunking file content for
//! bounded-memory streaming.

pub mod configs;
pub mod media;
pub mod models;
pub mod sanitize;
pub mod sort;
pub mod stream;
pub mod strutil;
pub mod templates;
pub mod walk;

pub use walk::get_directory_structure;
pub use walk::get_directory_structure_recursive;

pub use models::Directory;
pub use models::DirectoryEntry;
pub use models::DirListing;
pub use models::RawEntry;
pub use models::ServeError;
