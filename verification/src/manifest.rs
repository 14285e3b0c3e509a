//! The whole manifest: the record type, the declarations of all files, the
//! lookup and display items, and the flat index.

use crate::names::{has_extension, split_file_name};
use crate::record::{file_record, file_reference, process_file};
use crate::snapshot::{dir_models, file_models, AssetDir, AssetFile, DirModel, FileModel};
use crate::text::texts;
use crate::walk::{is_walkable, process_directory, walk_refs, walk_text, walkable};
use vstd::prelude::*;
use vstd::string::StringExecFns;

verus! {

/// The declaration of the record type, with which the manifest begins.
pub open spec fn type_declaration() -> Seq<char> {
    "#[derive(Debug)]\npub struct StaticFile {\n    pub file_name: &'static str,\n    pub name: &'static str,\n    pub mime: &'static str,\n}\n"@
}

/// The lookup of a record by its public path, and the display of a record
/// as its public path.
pub open spec fn accessors() -> Seq<char> {
    "\n#[allow(dead_code)]\nimpl StaticFile {\n    /// Get a single `StaticFile` by name, if it exists.\n    #[must_use]\n    pub fn get(name: &str) -> Option<&'static Self> {\n        if let Some(pos) = STATICS.iter().position(|&s| name == s.name) {\n            Some(STATICS[pos])\n        } else {\n            None\n        }\n    }\n}\n\nimpl std::fmt::Display for StaticFile {\n    fn fmt(&self, f: &mut std::fmt::Formatter<'_>) -> std::fmt::Result {\n        write!(f, \"{}\", self.name)\n    }\n}\n"@
}

/// The text of the asset directories, each walked from its root, in the
/// order given.
pub open spec fn roots_text(dirs: Seq<DirModel>) -> Seq<char>
    decreases dirs.len(),
{
    if dirs.len() == 0 {
        Seq::empty()
    } else {
        roots_text(dirs.drop_last()) + walk_text(dirs.last(), Seq::empty(), 0)
    }
}

/// The references to the files of the asset directories, in the order of
/// their declarations.
pub open spec fn roots_refs(dirs: Seq<DirModel>) -> Seq<Seq<char>>
    decreases dirs.len(),
{
    if dirs.len() == 0 {
        Seq::empty()
    } else {
        roots_refs(dirs.drop_last()) + walk_refs(dirs.last(), Seq::empty())
    }
}

/// The declarations of the extra files, in the order given. An extra file
/// is declared at the root, outside every module.
pub open spec fn extras_text(files: Seq<FileModel>) -> Seq<char>
    decreases files.len(),
{
    if files.len() == 0 {
        Seq::empty()
    } else {
        extras_text(files.drop_last()) + file_record(files.last(), Seq::empty(), 0)
    }
}

/// The references to the extra files, in the order given.
pub open spec fn extras_refs(files: Seq<FileModel>) -> Seq<Seq<char>> {
    Seq::new(files.len(), |i: int| file_reference(files[i], Seq::empty()))
}

/// The flat index: the references to the files of the asset directories,
/// then those to the extra files.
pub open spec fn manifest_index(dirs: Seq<DirModel>, extras: Seq<FileModel>) -> Seq<Seq<char>> {
    roots_refs(dirs) + extras_refs(extras)
}

/// The lines of the index, one reference a line, with a comma between
/// neighbours.
pub open spec fn index_entries(refs: Seq<Seq<char>>) -> Seq<char>
    decreases refs.len(),
{
    if refs.len() == 0 {
        Seq::empty()
    } else if refs.len() == 1 {
        "\n    "@ + refs[0]
    } else {
        index_entries(refs.drop_last()) + ","@ + "\n    "@ + refs.last()
    }
}

/// The declaration of the flat index.
pub open spec fn index_text(refs: Seq<Seq<char>>) -> Seq<char> {
    "\nstatic STATICS: &[&StaticFile] = &["@ + index_entries(refs) + "\n];\n"@
}

/// The text of the manifest.
pub open spec fn manifest_text(dirs: Seq<DirModel>, extras: Seq<FileModel>) -> Seq<char> {
    type_declaration() + roots_text(dirs) + extras_text(extras) + accessors() + index_text(
        manifest_index(dirs, extras),
    )
}

/// Whether a manifest can be generated: every asset directory can be walked
/// from its root, and every extra file has an extension.
pub open spec fn generatable(dirs: Seq<DirModel>, extras: Seq<FileModel>) -> bool {
    &&& forall|i: int| 0 <= i < dirs.len() ==> walkable(#[trigger] dirs[i], Seq::empty(), 0)
    &&& forall|i: int| 0 <= i < extras.len() ==> has_extension((#[trigger] extras[i]).name)
}

/// The declaration of the flat index for the references in `static_files`.
pub fn index_code(static_files: &Vec<String>) -> (code: String)
    ensures
        code@ == index_text(texts(static_files@)),
{
    let ghost refs = texts(static_files@);
    let mut code = String::from_str("\nstatic STATICS: &[&StaticFile] = &[");
    let ghost head = code@;
    let mut i: usize = 0;
    while i < static_files.len()
        invariant
            i <= static_files.len(),
            refs == texts(static_files@),
            code@ == head + index_entries(refs.take(i as int)),
        decreases static_files.len() - i,
    {
        let ghost done = index_entries(refs.take(i as int));
        let ghost item = static_files@[i as int]@;
        proof {
            assert(refs.take(i + 1).drop_last() =~= refs.take(i as int));
            assert(refs.take(i + 1).last() == item);
        }
        if i > 0 {
            code.append(",");
            code.append("\n    ");
            code.append(static_files[i].as_str());
            proof {
                assert((((head + done) + ","@) + "\n    "@) + item =~= head + (done + ","@
                    + "\n    "@ + item));
            }
        } else {
            code.append("\n    ");
            code.append(static_files[i].as_str());
            proof {
                assert(refs.take(0) =~= Seq::<Seq<char>>::empty());
                assert(refs.take(1)[0] == item);
                assert(((head + done) + "\n    "@) + item =~= head + ("\n    "@ + item));
            }
        }
        i += 1;
    }
    proof {
        assert(refs.take(refs.len() as int) =~= refs);
    }
    code.append("\n];\n");
    code
}

/// Whether `codegen` accepts this input.
pub fn can_generate(asset_dirs: &[AssetDir], extra_files: &[AssetFile]) -> (ok: bool)
    ensures
        ok == generatable(dir_models(asset_dirs@), file_models(extra_files@)),
{
    let mut i: usize = 0;
    while i < asset_dirs.len()
        invariant
            i <= asset_dirs.len(),
            forall|j: int|
                0 <= j < i ==> walkable(
                    #[trigger] dir_models(asset_dirs@)[j],
                    Seq::empty(),
                    0,
                ),
        decreases asset_dirs.len() - i,
    {
        if !is_walkable(&asset_dirs[i], "", 0) {
            proof {
                reveal_strlit("");
                assert(""@ =~= Seq::<char>::empty());
                assert(dir_models(asset_dirs@)[i as int] == asset_dirs@[i as int]@);
            }
            return false;
        }
        proof {
            reveal_strlit("");
            assert(""@ =~= Seq::<char>::empty());
            assert(dir_models(asset_dirs@)[i as int] == asset_dirs@[i as int]@);
        }
        i += 1;
    }
    let mut k: usize = 0;
    while k < extra_files.len()
        invariant
            k <= extra_files.len(),
            forall|j: int|
                0 <= j < k ==> has_extension((#[trigger] file_models(extra_files@)[j]).name),
        decreases extra_files.len() - k,
    {
        proof {
            assert(file_models(extra_files@)[k as int] == extra_files@[k as int]@);
        }
        if split_file_name(extra_files[k].name.as_str()).is_none() {
            return false;
        }
        k += 1;
    }
    true
}

/// The text of the manifest for the asset directories and the extra files:
/// the record type; each asset directory walked from its root, in the order
/// given; each extra file declared at the root, in the order given; the
/// lookup and display items; and the flat index of all records in the order
/// of their declarations.
pub fn codegen(asset_dirs: &[AssetDir], extra_files: &[AssetFile]) -> (output: String)
    requires
        generatable(dir_models(asset_dirs@), file_models(extra_files@)),
    ensures
        output@ == manifest_text(dir_models(asset_dirs@), file_models(extra_files@)),
{
    let ghost dirs = dir_models(asset_dirs@);
    let ghost extras = file_models(extra_files@);
    let mut output = String::from_str(
        "#[derive(Debug)]\npub struct StaticFile {\n    pub file_name: &'static str,\n    pub name: &'static str,\n    pub mime: &'static str,\n}\n",
    );
    let mut static_files: Vec<String> = Vec::new();
    proof {
        reveal_strlit("");
        assert(""@ =~= Seq::<char>::empty());
        assert(texts(static_files@) =~= Seq::<Seq<char>>::empty());
        assert(output@ + Seq::<char>::empty() =~= output@);
    }
    let mut i: usize = 0;
    while i < asset_dirs.len()
        invariant
            i <= asset_dirs.len(),
            dirs == dir_models(asset_dirs@),
            generatable(dirs, extras),
            ""@ == Seq::<char>::empty(),
            output@ == type_declaration() + roots_text(dirs.take(i as int)),
            texts(static_files@) == roots_refs(dirs.take(i as int)),
        decreases asset_dirs.len() - i,
    {
        proof {
            assert(dirs.take(i + 1).drop_last() =~= dirs.take(i as int));
            assert(dirs[i as int] == asset_dirs@[i as int]@);
        }
        process_directory(&asset_dirs[i], "", &mut output, &mut static_files, 0);
        proof {
            let done = roots_text(dirs.take(i as int));
            let text = walk_text(dirs[i as int], Seq::empty(), 0);
            assert((type_declaration() + done) + text =~= type_declaration() + (done + text));
        }
        i += 1;
    }
    proof {
        assert(dirs.take(dirs.len() as int) =~= dirs);
        assert(extras.take(0) =~= Seq::<FileModel>::empty());
        assert(extras_refs(extras.take(0)) =~= Seq::<Seq<char>>::empty());
        assert(roots_refs(dirs) + Seq::<Seq<char>>::empty() =~= roots_refs(dirs));
        assert(output@ + Seq::<char>::empty() =~= output@);
    }
    let ghost walked = output@;
    let mut k: usize = 0;
    while k < extra_files.len()
        invariant
            k <= extra_files.len(),
            extras == file_models(extra_files@),
            generatable(dirs, extras),
            ""@ == Seq::<char>::empty(),
            output@ == walked + extras_text(extras.take(k as int)),
            texts(static_files@) == roots_refs(dirs) + extras_refs(extras.take(k as int)),
        decreases extra_files.len() - k,
    {
        proof {
            assert(extras.take(k + 1).drop_last() =~= extras.take(k as int));
            assert(extras[k as int] == extra_files@[k as int]@);
        }
        process_file(&extra_files[k], "", &mut output, &mut static_files, 0);
        proof {
            let done = extras_text(extras.take(k as int));
            let text = file_record(extras[k as int], Seq::empty(), 0);
            assert((walked + done) + text =~= walked + (done + text));
            assert((roots_refs(dirs) + extras_refs(extras.take(k as int))).push(
                file_reference(extras[k as int], Seq::empty()),
            ) =~= roots_refs(dirs) + extras_refs(extras.take(k + 1)));
        }
        k += 1;
    }
    proof {
        assert(extras.take(extras.len() as int) =~= extras);
    }
    output.append(
        "\n#[allow(dead_code)]\nimpl StaticFile {\n    /// Get a single `StaticFile` by name, if it exists.\n    #[must_use]\n    pub fn get(name: &str) -> Option<&'static Self> {\n        if let Some(pos) = STATICS.iter().position(|&s| name == s.name) {\n            Some(STATICS[pos])\n        } else {\n            None\n        }\n    }\n}\n\nimpl std::fmt::Display for StaticFile {\n    fn fmt(&self, f: &mut std::fmt::Formatter<'_>) -> std::fmt::Result {\n        write!(f, \"{}\", self.name)\n    }\n}\n",
    );
    let index = index_code(&static_files);
    output.append(index.as_str());
    output
}

} // verus!
