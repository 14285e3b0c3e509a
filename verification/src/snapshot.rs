//! The input of a generation: a snapshot of the asset directories and of the
//! individually named files, as plain values.

use vstd::prelude::*;

verus! {

/// One file: its name within its directory, its absolute location, and its
/// bytes.
pub struct AssetFile {
    pub name: String,
    pub location: String,
    pub content: Vec<u8>,
}

/// One entry of a directory listing.
pub enum AssetEntry {
    File(AssetFile),
    Dir(AssetDir),
}

/// One directory: its name within its parent, and its entries in the order
/// in which the directory lists them.
pub struct AssetDir {
    pub name: String,
    pub entries: Vec<AssetEntry>,
}

/// What a file is to the generator.
pub struct FileModel {
    pub name: Seq<char>,
    pub location: Seq<char>,
    pub content: Seq<u8>,
}

/// What a directory entry is to the generator.
pub enum EntryModel {
    File(FileModel),
    Dir(DirModel),
}

/// What a directory is to the generator.
pub struct DirModel {
    pub name: Seq<char>,
    pub entries: Seq<EntryModel>,
}

/// The model of a directory entry.
pub open spec fn entry_model(entry: AssetEntry) -> EntryModel
    decreases entry,
{
    match entry {
        AssetEntry::File(file) => EntryModel::File(file@),
        AssetEntry::Dir(dir) => EntryModel::Dir(dir_model(dir)),
    }
}

/// The model of a directory: its name, and the models of its entries in
/// listing order.
pub open spec fn dir_model(dir: AssetDir) -> DirModel
    decreases dir,
{
    DirModel {
        name: dir.name@,
        entries: Seq::new(
            dir.entries@.len(),
            |i: int|
                if 0 <= i < dir.entries@.len() {
                    entry_model(dir.entries@[i])
                } else {
                    arbitrary()
                },
        ),
    }
}

impl View for AssetFile {
    type V = FileModel;

    open spec fn view(&self) -> FileModel {
        FileModel { name: self.name@, location: self.location@, content: self.content@ }
    }
}

impl View for AssetEntry {
    type V = EntryModel;

    open spec fn view(&self) -> EntryModel {
        entry_model(*self)
    }
}

impl View for AssetDir {
    type V = DirModel;

    open spec fn view(&self) -> DirModel {
        dir_model(*self)
    }
}

/// The files of a list, each as the generator sees it.
pub open spec fn file_models(files: Seq<AssetFile>) -> Seq<FileModel> {
    files.map_values(|file: AssetFile| file@)
}

/// The directories of a list, each as the generator sees it.
pub open spec fn dir_models(dirs: Seq<AssetDir>) -> Seq<DirModel> {
    dirs.map_values(|dir: AssetDir| dir@)
}

} // verus!
