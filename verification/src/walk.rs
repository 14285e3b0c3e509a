//! The walk over one asset directory: a module for every directory below
//! the root, the files of a directory before its subdirectories.

use crate::names::{directory_module_name, has_extension, module_name, split_file_name};
use crate::record::{file_record, file_reference, indentation, process_file};
use crate::snapshot::{AssetDir, AssetEntry, DirModel, EntryModel};
use crate::text::{repeat_str, texts};
use vstd::prelude::*;
use vstd::string::StringExecFns;

verus! {

/// The relative path of an entry `name` of the directory at `rel_path`.
pub open spec fn child_path(rel_path: Seq<char>, name: Seq<char>) -> Seq<char> {
    if rel_path.len() == 0 {
        name
    } else {
        rel_path + "/"@ + name
    }
}

/// The nesting level of what a directory holds: one more than the
/// directory's own where the directory has a module, which is everywhere
/// but at the root of the asset directory.
pub open spec fn inner_level(rel_path: Seq<char>, level: int) -> int {
    if rel_path.len() > 0 {
        level + 1
    } else {
        level
    }
}

/// The lines that open the module of a directory.
pub open spec fn scope_opening(dir_name: Seq<char>, level: nat) -> Seq<char> {
    "\n"@ + indentation(level) + "pub mod "@ + module_name(dir_name) + " {\n"@ + indentation(level)
        + "    use super::StaticFile;\n"@
}

/// The line that closes the module of a directory.
pub open spec fn scope_closing(level: nat) -> Seq<char> {
    indentation(level) + "}\n"@
}

/// The declarations of the files among `entries`, in listing order.
pub open spec fn files_text(entries: Seq<EntryModel>, rel_path: Seq<char>, level: nat) -> Seq<
    char,
>
    decreases entries.len(),
{
    if entries.len() == 0 {
        Seq::empty()
    } else {
        files_text(entries.drop_last(), rel_path, level) + match entries.last() {
            EntryModel::File(file) => file_record(file, rel_path, level),
            EntryModel::Dir(_) => Seq::empty(),
        }
    }
}

/// The references to the files among `entries`, in listing order.
pub open spec fn files_refs(entries: Seq<EntryModel>, rel_path: Seq<char>) -> Seq<Seq<char>>
    decreases entries.len(),
{
    if entries.len() == 0 {
        Seq::empty()
    } else {
        files_refs(entries.drop_last(), rel_path) + match entries.last() {
            EntryModel::File(file) => seq![file_reference(file, rel_path)],
            EntryModel::Dir(_) => Seq::empty(),
        }
    }
}

/// The text of the directories among `entries`, in listing order.
pub open spec fn dirs_text(entries: Seq<EntryModel>, rel_path: Seq<char>, level: nat) -> Seq<char>
    decreases entries,
{
    if entries.len() == 0 {
        Seq::empty()
    } else {
        dirs_text(entries.drop_last(), rel_path, level) + match entries.last() {
            EntryModel::File(_) => Seq::empty(),
            EntryModel::Dir(dir) => walk_text(dir, child_path(rel_path, dir.name), level),
        }
    }
}

/// The text for the directory `dir` at `rel_path`: below the root, the
/// opening of its module; then its files, then its subdirectories; then,
/// below the root, the closing of its module.
pub open spec fn walk_text(dir: DirModel, rel_path: Seq<char>, level: nat) -> Seq<char>
    decreases dir,
{
    if rel_path.len() > 0 {
        scope_opening(dir.name, level) + files_text(dir.entries, rel_path, level + 1) + dirs_text(
            dir.entries,
            rel_path,
            level + 1,
        ) + scope_closing(level)
    } else {
        files_text(dir.entries, rel_path, level) + dirs_text(dir.entries, rel_path, level)
    }
}

/// The references to the files in the directories among `entries`.
pub open spec fn dirs_refs(entries: Seq<EntryModel>, rel_path: Seq<char>) -> Seq<Seq<char>>
    decreases entries,
{
    if entries.len() == 0 {
        Seq::empty()
    } else {
        dirs_refs(entries.drop_last(), rel_path) + match entries.last() {
            EntryModel::File(_) => Seq::empty(),
            EntryModel::Dir(dir) => walk_refs(dir, child_path(rel_path, dir.name)),
        }
    }
}

/// The references to all files in and below `dir`, in the order of their
/// declarations: the directory's own files first, then each subdirectory's.
pub open spec fn walk_refs(dir: DirModel, rel_path: Seq<char>) -> Seq<Seq<char>>
    decreases dir,
{
    files_refs(dir.entries, rel_path) + dirs_refs(dir.entries, rel_path)
}

/// Whether one entry of the directory at `rel_path` can be processed.
pub open spec fn entry_walkable(entry: EntryModel, rel_path: Seq<char>, level: int) -> bool
    decreases entry,
{
    match entry {
        EntryModel::File(file) => has_extension(file.name),
        EntryModel::Dir(dir) => walkable(dir, child_path(rel_path, dir.name), level),
    }
}

/// Whether the directory can be walked from nesting level `level`: every
/// file in and below it has an extension, and no nesting level in it is
/// beyond what a `usize` counts.
pub open spec fn walkable(dir: DirModel, rel_path: Seq<char>, level: int) -> bool
    decreases dir,
{
    &&& inner_level(rel_path, level) <= usize::MAX
    &&& forall|i: int|
        0 <= i < dir.entries.len() ==> entry_walkable(
            #[trigger] dir.entries[i],
            rel_path,
            inner_level(rel_path, level),
        )
}

/// The relative path of an entry of the directory at `rel_path`.
pub fn child_rel_path(rel_path: &str, name: &str) -> (child: String)
    ensures
        child@ == child_path(rel_path@, name@),
{
    if rel_path.is_empty() {
        String::from_str(name)
    } else {
        let mut child = String::from_str(rel_path);
        child.append("/");
        child.append(name);
        child
    }
}

/// The lines that open the module of the directory `dir_name`.
pub fn scope_opening_code(dir_name: &str, indent: &str) -> (code: String)
    ensures
        code@ == "\n"@ + indent@ + "pub mod "@ + module_name(dir_name@) + " {\n"@ + indent@
            + "    use super::StaticFile;\n"@,
{
    let module = directory_module_name(dir_name);
    let mut code = String::from_str("\n");
    code.append(indent);
    code.append("pub mod ");
    code.append(module.as_str());
    code.append(" {\n");
    code.append(indent);
    code.append("    use super::StaticFile;\n");
    code
}

/// Whether `process_directory` accepts the directory at this relative path
/// and nesting level.
pub fn is_walkable(dir: &AssetDir, rel_path: &str, indent_level: usize) -> (ok: bool)
    ensures
        ok == walkable(dir@, rel_path@, indent_level as int),
    decreases dir,
{
    let create_module = !rel_path.is_empty();
    if create_module && indent_level == usize::MAX {
        return false;
    }
    let next_indent = if create_module {
        indent_level + 1
    } else {
        indent_level
    };
    let mut i: usize = 0;
    while i < dir.entries.len()
        invariant
            i <= dir.entries.len(),
            next_indent == inner_level(rel_path@, indent_level as int),
            forall|j: int|
                0 <= j < i ==> entry_walkable(
                    #[trigger] dir@.entries[j],
                    rel_path@,
                    next_indent as int,
                ),
        decreases dir.entries.len() - i,
    {
        let ok = match &dir.entries[i] {
            AssetEntry::File(file) => split_file_name(file.name.as_str()).is_some(),
            AssetEntry::Dir(sub) => {
                let child = child_rel_path(rel_path, sub.name.as_str());
                is_walkable(sub, child.as_str(), next_indent)
            },
        };
        if !ok {
            assert(!entry_walkable(dir@.entries[i as int], rel_path@, next_indent as int));
            return false;
        }
        i += 1;
    }
    true
}

/// Appends to `output` the text for the directory `dir`, which stands at
/// `rel_path` below the root of its asset directory (at the root, the path
/// is empty), and to `static_files` the references to its files.
pub fn process_directory(
    dir: &AssetDir,
    rel_path: &str,
    output: &mut String,
    static_files: &mut Vec<String>,
    indent_level: usize,
)
    requires
        walkable(dir@, rel_path@, indent_level as int),
    ensures
        final(output)@ == old(output)@ + walk_text(dir@, rel_path@, indent_level as nat),
        texts(final(static_files)@) == texts(old(static_files)@) + walk_refs(dir@, rel_path@),
    decreases dir,
{
    let ghost start = output@;
    let ghost listed = texts(static_files@);
    let ghost entries = dir@.entries;
    let create_module = !rel_path.is_empty();
    let indent = repeat_str("    ", indent_level);
    if create_module {
        let opening = scope_opening_code(dir.name.as_str(), indent.as_str());
        output.append(opening.as_str());
    }
    let next_indent = if create_module {
        indent_level + 1
    } else {
        indent_level
    };
    let ghost opened = output@;
    let mut i: usize = 0;
    while i < dir.entries.len()
        invariant
            i <= dir.entries.len(),
            entries == dir@.entries,
            entries.len() == dir.entries.len(),
            walkable(dir@, rel_path@, indent_level as int),
            next_indent == inner_level(rel_path@, indent_level as int),
            output@ == opened + files_text(entries.take(i as int), rel_path@, next_indent as nat),
            texts(static_files@) == listed + files_refs(entries.take(i as int), rel_path@),
        decreases dir.entries.len() - i,
    {
        proof {
            assert(entries.take(i + 1).drop_last() =~= entries.take(i as int));
            assert(entry_walkable(dir@.entries[i as int], rel_path@, next_indent as int));
        }
        match &dir.entries[i] {
            AssetEntry::File(file) => {
                process_file(file, rel_path, output, static_files, next_indent);
                proof {
                    let rec = file_record(file@, rel_path@, next_indent as nat);
                    let done = files_text(entries.take(i as int), rel_path@, next_indent as nat);
                    assert((opened + done) + rec =~= opened + (done + rec));
                    let refs = files_refs(entries.take(i as int), rel_path@);
                    let added = file_reference(file@, rel_path@);
                    assert((listed + refs).push(added) =~= listed + (refs + seq![added]));
                }
            },
            AssetEntry::Dir(_) => {
                proof {
                    let done = files_text(entries.take(i as int), rel_path@, next_indent as nat);
                    assert(done + Seq::<char>::empty() =~= done);
                    let refs = files_refs(entries.take(i as int), rel_path@);
                    assert(refs + Seq::<Seq<char>>::empty() =~= refs);
                }
            },
        }
        i += 1;
    }
    proof {
        assert(entries.take(entries.len() as int) =~= entries);
    }
    let ghost filed = output@;
    let ghost filed_refs = texts(static_files@);
    let mut k: usize = 0;
    while k < dir.entries.len()
        invariant
            k <= dir.entries.len(),
            entries == dir@.entries,
            entries.len() == dir.entries.len(),
            walkable(dir@, rel_path@, indent_level as int),
            next_indent == inner_level(rel_path@, indent_level as int),
            output@ == filed + dirs_text(entries.take(k as int), rel_path@, next_indent as nat),
            texts(static_files@) == filed_refs + dirs_refs(entries.take(k as int), rel_path@),
        decreases dir.entries.len() - k,
    {
        proof {
            assert(entries.take(k + 1).drop_last() =~= entries.take(k as int));
            assert(entry_walkable(dir@.entries[k as int], rel_path@, next_indent as int));
        }
        match &dir.entries[k] {
            AssetEntry::File(_) => {
                proof {
                    let done = dirs_text(entries.take(k as int), rel_path@, next_indent as nat);
                    assert(done + Seq::<char>::empty() =~= done);
                    let refs = dirs_refs(entries.take(k as int), rel_path@);
                    assert(refs + Seq::<Seq<char>>::empty() =~= refs);
                }
            },
            AssetEntry::Dir(sub) => {
                let child = child_rel_path(rel_path, sub.name.as_str());
                process_directory(sub, child.as_str(), output, static_files, next_indent);
                proof {
                    let text = walk_text(sub@, child@, next_indent as nat);
                    let done = dirs_text(entries.take(k as int), rel_path@, next_indent as nat);
                    assert((filed + done) + text =~= filed + (done + text));
                    let refs = dirs_refs(entries.take(k as int), rel_path@);
                    let more = walk_refs(sub@, child@);
                    assert((filed_refs + refs) + more =~= filed_refs + (refs + more));
                }
            },
        }
        k += 1;
    }
    proof {
        assert(entries.take(entries.len() as int) =~= entries);
    }
    if create_module {
        output.append(indent.as_str());
        output.append("}\n");
    }
    proof {
        let files = files_text(entries, rel_path@, next_indent as nat);
        let dirs = dirs_text(entries, rel_path@, next_indent as nat);
        let refs = files_refs(entries, rel_path@);
        let more = dirs_refs(entries, rel_path@);
        assert((listed + refs) + more =~= listed + (refs + more));
        if create_module {
            let opening = scope_opening(dir@.name, indent_level as nat);
            assert(opened == start + opening);
            assert((((start + opening) + files) + dirs) + indent@ + "}\n"@ =~= start + (opening
                + files + dirs + (indent@ + "}\n"@)));
        } else {
            assert((start + files) + dirs =~= start + (files + dirs));
        }
    }
}

} // verus!
