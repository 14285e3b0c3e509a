//! What holds of every manifest: laws that relate the parts of the
//! generator, each proved from the definitions the contracts use.

use crate::digest::content_hash;
use crate::manifest::{extras_refs, manifest_index, manifest_text, roots_refs};
use crate::names::{
    closed_segments, extension, file_stem, forward_slashes, has_extension, identifier, joined,
    last_dot, module_name, namespace_path, normalized_path, open_segment, reference, segments,
};
use crate::record::{file_public_path, file_reference};
use crate::snapshot::{DirModel, EntryModel, FileModel};
use crate::text::replace_any;
use crate::walk::{child_path, dirs_refs, files_refs, walk_refs};
use vstd::prelude::*;

verus! {

/// Whether the character `c` occurs nowhere in `s`.
pub open spec fn free_of(s: Seq<char>, c: char) -> bool {
    forall|i: int| 0 <= i < s.len() ==> s[i] != c
}

/// The content hash of a file depends on its bytes alone: two files with
/// the same bytes have the same hash, whatever their names and locations,
/// and with the same name also the same public path in a directory.
pub proof fn lemma_hash_depends_on_content_alone(a: FileModel, b: FileModel, rel_dir: Seq<char>)
    requires
        a.content == b.content,
    ensures
        content_hash(a.content) == content_hash(b.content),
        a.name == b.name ==> file_public_path(a, rel_dir) == file_public_path(b, rel_dir),
{
}

/// In a name made of a stem, a `.` and an extension without a `.`, the last
/// `.` is the one between the two.
pub proof fn lemma_last_dot_splits(stem: Seq<char>, ext: Seq<char>)
    requires
        free_of(ext, '.'),
    ensures
        last_dot(stem + seq!['.'] + ext) == stem.len(),
    decreases ext.len(),
{
    let name = stem + seq!['.'] + ext;
    if ext.len() == 0 {
        assert(name.last() == '.');
    } else {
        assert(name.last() == ext[ext.len() - 1]);
        assert(name.drop_last() =~= stem + seq!['.'] + ext.drop_last());
        assert(free_of(ext.drop_last(), '.')) by {
            assert forall|i: int| 0 <= i < ext.drop_last().len() implies ext.drop_last()[i]
                != '.' by {
                assert(ext.drop_last()[i] == ext[i]);
            }
        }
        lemma_last_dot_splits(stem, ext.drop_last());
    }
}

/// The shape of a public path. For a file `stem.ext` whose bytes hash to
/// `h`, the public path is `/static/stem-h.ext` at the root of an asset
/// directory, and `/static/dir/stem-h.ext` in the relative directory `dir`,
/// where `dir` is written with `/` for every `\`.
pub proof fn lemma_public_path_shape(
    stem: Seq<char>,
    ext: Seq<char>,
    file: FileModel,
    dir: Seq<char>,
)
    requires
        stem.len() > 0,
        free_of(ext, '.'),
        file.name == stem + "."@ + ext,
    ensures
        has_extension(file.name),
        file_stem(file.name) == stem,
        extension(file.name) == ext,
        file_public_path(file, Seq::empty()) == "/static/"@ + stem + "-"@ + content_hash(
            file.content,
        ) + "."@ + ext,
        dir.len() > 0 ==> file_public_path(file, dir) == "/static/"@ + forward_slashes(dir)
            + "/"@ + stem + "-"@ + content_hash(file.content) + "."@ + ext,
        free_of(dir, '\\') ==> forward_slashes(dir) == dir,
{
    reveal_strlit(".");
    assert("."@ =~= seq!['.']);
    lemma_last_dot_splits(stem, ext);
    assert(file.name.subrange(0, stem.len() as int) =~= stem);
    assert(file.name.subrange(stem.len() as int + 1, file.name.len() as int) =~= ext);
    if free_of(dir, '\\') {
        assert(forward_slashes(dir) =~= dir);
    }
}

/// The path of the innermost of a chain of nested directories, relative to
/// the root that holds the outermost: the names joined by `/`.
pub open spec fn nested_path(names: Seq<Seq<char>>) -> Seq<char>
    decreases names.len(),
{
    if names.len() == 0 {
        Seq::empty()
    } else {
        child_path(nested_path(names.drop_last()), names.last())
    }
}

/// The module names of a chain of directory names.
pub open spec fn module_names(names: Seq<Seq<char>>) -> Seq<Seq<char>> {
    names.map_values(|name: Seq<char>| module_name(name))
}

/// Whether each name of the chain is a directory name: not empty, and
/// without a separator in it.
pub open spec fn directory_names(names: Seq<Seq<char>>) -> bool {
    forall|i: int|
        0 <= i < names.len() ==> (#[trigger] names[i]).len() > 0 && free_of(names[i], '/')
            && free_of(names[i], '\\')
}

/// A path without a `/` is one open segment.
pub proof fn lemma_plain_segment(s: Seq<char>)
    requires
        free_of(s, '/'),
    ensures
        open_segment(s) == s,
        closed_segments(s) == Seq::<Seq<char>>::empty(),
    decreases s.len(),
{
    if s.len() > 0 {
        assert(s[s.len() - 1] != '/');
        assert forall|i: int| 0 <= i < s.drop_last().len() implies s.drop_last()[i] != '/' by {
            assert(s.drop_last()[i] == s[i]);
        }
        lemma_plain_segment(s.drop_last());
        assert(s.drop_last().push(s.last()) =~= s);
    } else {
        assert(s =~= Seq::<char>::empty());
    }
}

/// A `/` and a segment after a path close what was open in the path and
/// leave the new segment open.
pub proof fn lemma_appended_segment(path: Seq<char>, segment: Seq<char>)
    requires
        free_of(segment, '/'),
    ensures
        open_segment(path + seq!['/'] + segment) == segment,
        closed_segments(path + seq!['/'] + segment) == segments(path),
    decreases segment.len(),
{
    let whole = path + seq!['/'] + segment;
    if segment.len() == 0 {
        assert(whole.last() == '/');
        assert(whole.drop_last() =~= path);
        assert(segment =~= Seq::<char>::empty());
    } else {
        assert(whole.last() == segment[segment.len() - 1]);
        assert(whole.drop_last() =~= path + seq!['/'] + segment.drop_last());
        assert forall|i: int| 0 <= i < segment.drop_last().len() implies segment.drop_last()[i]
            != '/' by {
            assert(segment.drop_last()[i] == segment[i]);
        }
        lemma_appended_segment(path, segment.drop_last());
        assert(segment.drop_last().push(segment.last()) =~= segment);
    }
}

/// On a directory name, the module path and the module name agree, and the
/// result is again free of `/`.
pub proof fn lemma_normalized_name(name: Seq<char>)
    requires
        free_of(name, '/'),
        free_of(name, '\\'),
    ensures
        normalized_path(name) == module_name(name),
        free_of(module_name(name), '/'),
        module_name(name).len() == name.len(),
{
    let dots = seq!['.', '-'];
    let dashes = seq!['-', '.'];
    assert(dots[0] == '.' && dots[1] == '-');
    assert(dashes[0] == '-' && dashes[1] == '.');
    assert(forward_slashes(name) =~= name);
    assert(replace_any(name, dots, '_') =~= replace_any(name, dashes, '_'));
}

/// The module path of a path made of two parts with a `/` between them is
/// made in the same way of the module paths of the parts.
pub proof fn lemma_normalized_child(path: Seq<char>, name: Seq<char>)
    ensures
        normalized_path(path + "/"@ + name) == normalized_path(path) + seq!['/']
            + normalized_path(name),
{
    reveal_strlit("/");
    assert("/"@ =~= seq!['/']);
    let backslash = seq!['\\'];
    let dots = seq!['.', '-'];
    assert(!backslash.contains('/'));
    assert(!dots.contains('/'));
    assert(normalized_path(path + "/"@ + name) =~= normalized_path(path) + seq!['/']
        + normalized_path(name));
}

/// The segments of the module path of a chain of nested directories are
/// the module names of the directories.
pub proof fn lemma_nested_path_segments(names: Seq<Seq<char>>)
    requires
        directory_names(names),
    ensures
        segments(normalized_path(nested_path(names))) == module_names(names),
        names.len() > 0 ==> nested_path(names).len() > 0,
    decreases names.len(),
{
    if names.len() == 0 {
        assert(normalized_path(nested_path(names)) =~= Seq::<char>::empty());
        assert(module_names(names) =~= Seq::<Seq<char>>::empty());
    } else {
        let outer = names.drop_last();
        let name = names.last();
        assert(directory_names(outer)) by {
            assert forall|i: int| 0 <= i < outer.len() implies (#[trigger] outer[i]).len() > 0
                && free_of(outer[i], '/') && free_of(outer[i], '\\') by {
                assert(outer[i] == names[i]);
            }
        }
        assert(names[names.len() - 1].len() > 0);
        lemma_nested_path_segments(outer);
        lemma_normalized_name(name);
        let rel = nested_path(outer);
        if rel.len() == 0 {
            assert(outer.len() == 0);
            assert(nested_path(names) == name);
            lemma_plain_segment(module_name(name));
            assert(module_names(names) =~= seq![module_name(name)]);
            assert(segments(module_name(name)) =~= seq![module_name(name)]);
        } else {
            reveal_strlit("/");
            assert(nested_path(names) == rel + "/"@ + name);
            lemma_normalized_child(rel, name);
            lemma_appended_segment(normalized_path(rel), module_name(name));
            assert(module_names(names) =~= module_names(outer).push(module_name(name)));
        }
    }
}

/// The index mirrors the directories. A file at the root of an asset
/// directory is referenced by its identifier alone. A file in a chain of
/// nested directories is referenced through the module names of the
/// directories, outermost first, each followed by `::`.
pub proof fn lemma_reference_mirrors_directories(names: Seq<Seq<char>>, file: FileModel)
    requires
        directory_names(names),
    ensures
        names.len() == 0 ==> file_reference(file, nested_path(names)) == "&"@ + identifier(
            file.name,
        ),
        names.len() > 0 ==> file_reference(file, nested_path(names)) == "&"@ + joined(
            module_names(names),
            "::"@,
        ) + "::"@ + identifier(file.name),
{
    lemma_nested_path_segments(names);
}

/// What occurs in one of two sequences occurs in the two put together.
pub proof fn lemma_concat_contains<A>(a: Seq<A>, b: Seq<A>, x: A)
    requires
        a.contains(x) || b.contains(x),
    ensures
        (a + b).contains(x),
{
    if a.contains(x) {
        let i = choose|i: int| 0 <= i < a.len() && a[i] == x;
        assert((a + b)[i] == x);
    } else {
        let i = choose|i: int| 0 <= i < b.len() && b[i] == x;
        assert((a + b)[a.len() + i] == x);
    }
}

/// Whether `file` stands in the directory that is reached from `dir`
/// through the chain of subdirectories `names`.
pub open spec fn holds_file(dir: DirModel, names: Seq<Seq<char>>, file: FileModel) -> bool
    decreases names.len(),
{
    if names.len() == 0 {
        dir.entries.contains(EntryModel::File(file))
    } else {
        exists|sub: DirModel|
            #![trigger dir.entries.contains(EntryModel::Dir(sub))]
            dir.entries.contains(EntryModel::Dir(sub)) && sub.name == names[0] && holds_file(
                sub,
                names.skip(1),
                file,
            )
    }
}

/// A file among the entries of a directory is among the references to the
/// directory's files.
pub proof fn lemma_listed_file(entries: Seq<EntryModel>, rel_path: Seq<char>, file: FileModel)
    requires
        entries.contains(EntryModel::File(file)),
    ensures
        files_refs(entries, rel_path).contains(file_reference(file, rel_path)),
    decreases entries.len(),
{
    let wanted = file_reference(file, rel_path);
    let before = files_refs(entries.drop_last(), rel_path);
    if entries.last() == EntryModel::File(file) {
        assert(seq![wanted][0] == wanted);
        lemma_concat_contains(before, seq![wanted], wanted);
    } else {
        let i = choose|i: int| 0 <= i < entries.len() && entries[i] == EntryModel::File(file);
        assert(entries.drop_last()[i] == EntryModel::File(file));
        lemma_listed_file(entries.drop_last(), rel_path, file);
        let last = match entries.last() {
            EntryModel::File(other) => seq![file_reference(other, rel_path)],
            EntryModel::Dir(_) => Seq::empty(),
        };
        lemma_concat_contains(before, last, wanted);
    }
}

/// What a walk of a subdirectory lists is among the references to the
/// files below the directory.
pub proof fn lemma_listed_below(
    entries: Seq<EntryModel>,
    rel_path: Seq<char>,
    sub: DirModel,
    wanted: Seq<char>,
)
    requires
        entries.contains(EntryModel::Dir(sub)),
        walk_refs(sub, child_path(rel_path, sub.name)).contains(wanted),
    ensures
        dirs_refs(entries, rel_path).contains(wanted),
    decreases entries.len(),
{
    let before = dirs_refs(entries.drop_last(), rel_path);
    if entries.last() == EntryModel::Dir(sub) {
        lemma_concat_contains(before, walk_refs(sub, child_path(rel_path, sub.name)), wanted);
    } else {
        let i = choose|i: int| 0 <= i < entries.len() && entries[i] == EntryModel::Dir(sub);
        assert(entries.drop_last()[i] == EntryModel::Dir(sub));
        lemma_listed_below(entries.drop_last(), rel_path, sub, wanted);
        let last = match entries.last() {
            EntryModel::File(_) => Seq::empty(),
            EntryModel::Dir(other) => walk_refs(other, child_path(rel_path, other.name)),
        };
        lemma_concat_contains(before, last, wanted);
    }
}

/// The walk of a directory that stands below the chain `above` lists a
/// file that it holds below the chain `names` with the path of both chains.
pub proof fn lemma_walk_lists_file(
    dir: DirModel,
    above: Seq<Seq<char>>,
    names: Seq<Seq<char>>,
    file: FileModel,
)
    requires
        holds_file(dir, names, file),
    ensures
        walk_refs(dir, nested_path(above)).contains(
            file_reference(file, nested_path(above + names)),
        ),
    decreases names.len(),
{
    let rel_path = nested_path(above);
    let own = files_refs(dir.entries, rel_path);
    let below = dirs_refs(dir.entries, rel_path);
    if names.len() == 0 {
        assert(above + names =~= above);
        lemma_listed_file(dir.entries, rel_path, file);
        lemma_concat_contains(own, below, file_reference(file, rel_path));
    } else {
        let sub = choose|sub: DirModel|
            #![trigger dir.entries.contains(EntryModel::Dir(sub))]
            dir.entries.contains(EntryModel::Dir(sub)) && sub.name == names[0] && holds_file(
                sub,
                names.skip(1),
                file,
            );
        let inner = above.push(names[0]);
        assert(inner.drop_last() =~= above);
        assert(nested_path(inner) == child_path(rel_path, sub.name));
        assert(inner + names.skip(1) =~= above + names);
        lemma_walk_lists_file(sub, inner, names.skip(1), file);
        let wanted = file_reference(file, nested_path(above + names));
        lemma_listed_below(dir.entries, rel_path, sub, wanted);
        lemma_concat_contains(own, below, wanted);
    }
}

/// What the walk of one asset directory lists is among the references of
/// all asset directories.
pub proof fn lemma_root_is_listed(dirs: Seq<DirModel>, i: int, wanted: Seq<char>)
    requires
        0 <= i < dirs.len(),
        walk_refs(dirs[i], Seq::empty()).contains(wanted),
    ensures
        roots_refs(dirs).contains(wanted),
    decreases dirs.len(),
{
    let before = roots_refs(dirs.drop_last());
    let last = walk_refs(dirs.last(), Seq::empty());
    if i < dirs.len() - 1 {
        assert(dirs.drop_last()[i] == dirs[i]);
        lemma_root_is_listed(dirs.drop_last(), i, wanted);
    }
    lemma_concat_contains(before, last, wanted);
}

/// Every file is listed, under the reference that mirrors its place. For a
/// file that an asset directory holds below a chain of subdirectories, the
/// flat index has the reference made of `&`, the module name of each
/// subdirectory followed by `::`, outermost first, and the file's
/// identifier. For a file at the root of the asset directory that is `&`
/// and the identifier alone.
pub proof fn lemma_every_file_is_listed(
    dirs: Seq<DirModel>,
    extras: Seq<FileModel>,
    i: int,
    names: Seq<Seq<char>>,
    file: FileModel,
)
    requires
        0 <= i < dirs.len(),
        holds_file(dirs[i], names, file),
        directory_names(names),
    ensures
        names.len() == 0 ==> manifest_index(dirs, extras).contains(
            "&"@ + identifier(file.name),
        ),
        names.len() > 0 ==> manifest_index(dirs, extras).contains(
            "&"@ + joined(module_names(names), "::"@) + "::"@ + identifier(file.name),
        ),
{
    let none = Seq::<Seq<char>>::empty();
    assert(none + names =~= names);
    lemma_walk_lists_file(dirs[i], none, names, file);
    let wanted = file_reference(file, nested_path(names));
    lemma_root_is_listed(dirs, i, wanted);
    lemma_concat_contains(roots_refs(dirs), extras_refs(extras), wanted);
    lemma_reference_mirrors_directories(names, file);
}

/// An extra file is referenced unqualified: the entry of the flat index
/// that stands for the extra file at position `k` is `&` and the file's
/// identifier, whatever the asset directories hold.
pub proof fn lemma_extra_files_are_unqualified(
    dirs: Seq<DirModel>,
    extras: Seq<FileModel>,
    k: int,
)
    requires
        0 <= k < extras.len(),
    ensures
        manifest_index(dirs, extras).len() == roots_refs(dirs).len() + extras.len(),
        manifest_index(dirs, extras)[roots_refs(dirs).len() + k] == "&"@ + identifier(
            extras[k].name,
        ),
{
}

/// The number of files among `entries` and below the directories among
/// them.
pub open spec fn count_in(entries: Seq<EntryModel>) -> nat
    decreases entries,
{
    if entries.len() == 0 {
        0
    } else {
        count_in(entries.drop_last()) + match entries.last() {
            EntryModel::File(_) => 1nat,
            EntryModel::Dir(dir) => file_count(dir),
        }
    }
}

/// The number of files in and below a directory.
pub open spec fn file_count(dir: DirModel) -> nat
    decreases dir,
{
    count_in(dir.entries)
}

/// The number of files in and below the directories of a list.
pub open spec fn total_files(dirs: Seq<DirModel>) -> nat
    decreases dirs.len(),
{
    if dirs.len() == 0 {
        0
    } else {
        total_files(dirs.drop_last()) + file_count(dirs.last())
    }
}

/// The files and the directories among `entries` have together one
/// reference for each file.
pub proof fn lemma_entries_refs_len(entries: Seq<EntryModel>, rel_path: Seq<char>)
    ensures
        files_refs(entries, rel_path).len() + dirs_refs(entries, rel_path).len() == count_in(
            entries,
        ),
    decreases entries,
{
    if entries.len() > 0 {
        lemma_entries_refs_len(entries.drop_last(), rel_path);
        match entries.last() {
            EntryModel::File(_) => {},
            EntryModel::Dir(dir) => {
                lemma_walk_refs_len(dir, child_path(rel_path, dir.name));
            },
        }
    }
}

/// A walk has one reference for each file in and below the directory.
pub proof fn lemma_walk_refs_len(dir: DirModel, rel_path: Seq<char>)
    ensures
        walk_refs(dir, rel_path).len() == file_count(dir),
    decreases dir,
{
    lemma_entries_refs_len(dir.entries, rel_path);
}

/// The asset directories have one reference for each of their files.
pub proof fn lemma_roots_refs_len(dirs: Seq<DirModel>)
    ensures
        roots_refs(dirs).len() == total_files(dirs),
    decreases dirs.len(),
{
    if dirs.len() > 0 {
        lemma_roots_refs_len(dirs.drop_last());
        lemma_walk_refs_len(dirs.last(), Seq::empty());
    }
}

/// The flat index is complete and ordered: it has one reference for each
/// file of the input; the files of the asset directories come first, one
/// directory after the other in the order given, and the extra files
/// follow in the order given; within a directory its own files come before
/// those of its subdirectories.
pub proof fn lemma_index_complete_and_ordered(dirs: Seq<DirModel>, extras: Seq<FileModel>)
    ensures
        manifest_index(dirs, extras).len() == total_files(dirs) + extras.len(),
        manifest_index(dirs, extras) == roots_refs(dirs) + extras_refs(extras),
        forall|k: int|
            0 <= k < extras.len() ==> #[trigger] manifest_index(dirs, extras)[total_files(dirs)
                + k] == file_reference(extras[k], Seq::empty()),
        dirs.len() > 0 ==> roots_refs(dirs) == roots_refs(dirs.drop_last()) + files_refs(
            dirs.last().entries,
            Seq::empty(),
        ) + dirs_refs(dirs.last().entries, Seq::empty()),
{
    lemma_roots_refs_len(dirs);
    if dirs.len() > 0 {
        let before = roots_refs(dirs.drop_last());
        let own = files_refs(dirs.last().entries, Seq::empty());
        let below = dirs_refs(dirs.last().entries, Seq::empty());
        assert(before + (own + below) =~= before + own + below);
    }
}

/// The references to the files that stand directly in the asset
/// directories, in the order given.
pub open spec fn top_level_refs(dirs: Seq<DirModel>) -> Seq<Seq<char>>
    decreases dirs.len(),
{
    if dirs.len() == 0 {
        Seq::empty()
    } else {
        top_level_refs(dirs.drop_last()) + files_refs(dirs.last().entries, Seq::empty())
    }
}

/// The references to the files that stand in subdirectories of the asset
/// directories, in the order of the walk.
pub open spec fn nested_refs(dirs: Seq<DirModel>) -> Seq<Seq<char>>
    decreases dirs.len(),
{
    if dirs.len() == 0 {
        Seq::empty()
    } else {
        nested_refs(dirs.drop_last()) + dirs_refs(dirs.last().entries, Seq::empty())
    }
}

/// Whether nothing at top level is declared after a nested file: an asset
/// directory with files in subdirectories is followed neither by an asset
/// directory with files of its own nor by an extra file.
pub open spec fn nested_files_come_last(dirs: Seq<DirModel>, extras: Seq<FileModel>) -> bool {
    forall|i: int|
        0 <= i < dirs.len() && dirs_refs((#[trigger] dirs[i]).entries, Seq::empty()).len() > 0
            ==> extras.len() == 0 && forall|j: int|
            i < j < dirs.len() ==> files_refs((#[trigger] dirs[j]).entries, Seq::empty()).len()
                == 0
}

/// Asset directories without files in subdirectories have no nested
/// references.
pub proof fn lemma_no_nested_refs(dirs: Seq<DirModel>)
    requires
        forall|i: int|
            0 <= i < dirs.len() ==> dirs_refs((#[trigger] dirs[i]).entries, Seq::empty()).len()
                == 0,
    ensures
        nested_refs(dirs) == Seq::<Seq<char>>::empty(),
    decreases dirs.len(),
{
    if dirs.len() > 0 {
        assert forall|i: int| 0 <= i < dirs.drop_last().len() implies dirs_refs(
            (#[trigger] dirs.drop_last()[i]).entries,
            Seq::empty(),
        ).len() == 0 by {
            assert(dirs.drop_last()[i] == dirs[i]);
        }
        lemma_no_nested_refs(dirs.drop_last());
        assert(dirs[dirs.len() - 1] == dirs.last());
        assert(nested_refs(dirs) =~= Seq::<Seq<char>>::empty());
    }
}

/// Where nothing at top level is declared after a nested file, the
/// references of the asset directories are those at top level followed by
/// the nested ones.
pub proof fn lemma_roots_refs_split(dirs: Seq<DirModel>)
    requires
        nested_files_come_last(dirs, Seq::empty()),
    ensures
        roots_refs(dirs) == top_level_refs(dirs) + nested_refs(dirs),
    decreases dirs.len(),
{
    if dirs.len() == 0 {
        assert(roots_refs(dirs) =~= top_level_refs(dirs) + nested_refs(dirs));
    } else {
        let before = dirs.drop_last();
        let own = files_refs(dirs.last().entries, Seq::empty());
        let below = dirs_refs(dirs.last().entries, Seq::empty());
        assert(nested_files_come_last(before, Seq::empty())) by {
            assert forall|i: int|
                0 <= i < before.len() && dirs_refs(
                    (#[trigger] before[i]).entries,
                    Seq::empty(),
                ).len() > 0 implies forall|j: int|
                i < j < before.len() ==> files_refs(
                    (#[trigger] before[j]).entries,
                    Seq::empty(),
                ).len() == 0 by {
                assert(before[i] == dirs[i]);
                assert forall|j: int| i < j < before.len() implies files_refs(
                    (#[trigger] before[j]).entries,
                    Seq::empty(),
                ).len() == 0 by {
                    assert(before[j] == dirs[j]);
                }
            }
        }
        lemma_roots_refs_split(before);
        if own.len() == 0 {
            assert(own =~= Seq::<Seq<char>>::empty());
            assert(top_level_refs(before) + nested_refs(before) + own + below =~= (top_level_refs(
                before,
            ) + own) + (nested_refs(before) + below));
        } else {
            assert forall|i: int| 0 <= i < before.len() implies dirs_refs(
                (#[trigger] before[i]).entries,
                Seq::empty(),
            ).len() == 0 by {
                assert(before[i] == dirs[i]);
                assert(dirs[dirs.len() - 1] == dirs.last());
            }
            lemma_no_nested_refs(before);
            assert(top_level_refs(before) + nested_refs(before) + own + below =~= (top_level_refs(
                before,
            ) + own) + (nested_refs(before) + below));
        }
        assert(roots_refs(before) + (own + below) =~= roots_refs(before) + own + below);
    }
}

/// Top level first. Where nothing at top level is declared after a nested
/// file, the flat index lists the files at the roots of the asset
/// directories, then the extra files, then the files in subdirectories,
/// each group in the order of its declarations.
pub proof fn lemma_top_level_first(dirs: Seq<DirModel>, extras: Seq<FileModel>)
    requires
        nested_files_come_last(dirs, extras),
    ensures
        manifest_index(dirs, extras) == top_level_refs(dirs) + extras_refs(extras) + nested_refs(
            dirs,
        ),
{
    if extras.len() == 0 {
        assert(nested_files_come_last(dirs, Seq::empty()));
        lemma_roots_refs_split(dirs);
        assert(extras_refs(extras) =~= Seq::<Seq<char>>::empty());
        assert(top_level_refs(dirs) + nested_refs(dirs) + extras_refs(extras) =~= top_level_refs(
            dirs,
        ) + extras_refs(extras) + nested_refs(dirs));
    } else {
        assert(nested_files_come_last(dirs, Seq::empty()));
        lemma_roots_refs_split(dirs);
        lemma_no_nested_refs(dirs);
        assert(top_level_refs(dirs) + nested_refs(dirs) + extras_refs(extras) =~= top_level_refs(
            dirs,
        ) + extras_refs(extras) + nested_refs(dirs));
    }
}

/// Generation is repeatable: the text of the manifest is determined by the
/// snapshot, so two generations from equal snapshots give equal texts.
pub proof fn lemma_generation_is_repeatable(
    dirs: Seq<DirModel>,
    extras: Seq<FileModel>,
    again_dirs: Seq<DirModel>,
    again_extras: Seq<FileModel>,
)
    requires
        dirs =~= again_dirs,
        extras =~= again_extras,
    ensures
        manifest_text(dirs, extras) == manifest_text(again_dirs, again_extras),
        manifest_index(dirs, extras) == manifest_index(again_dirs, again_extras),
{
}

} // verus!
