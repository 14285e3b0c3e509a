//! Generation of a static-asset manifest: for a snapshot of asset directories
//! and individually named files, the text of a Rust source artifact that
//! declares one `StaticFile` record per file, nested in modules that mirror
//! the directories, together with a flat index of all records.
//!
//! The functions here work on plain values. Reading directories and files,
//! and writing the artifact, are left to the caller.

pub mod digest;
pub mod laws;
pub mod manifest;
pub mod mime;
pub mod names;
pub mod record;
pub mod snapshot;
pub mod text;
pub mod walk;

pub use digest::calculate_hash;
pub use manifest::codegen;
pub use mime::mime_type_from_extension;
pub use names::get_module_path;
pub use record::process_file;
pub use snapshot::{AssetDir, AssetEntry, AssetFile};
pub use walk::process_directory;
