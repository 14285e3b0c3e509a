//! Names derived from paths: module paths, identifiers, the stem and the
//! extension of a file name, namespace paths and public paths.

use crate::text::{replace_any, replace_chars};
use vstd::prelude::*;
use vstd::string::{StrSliceExecFns, StringExecFns};

verus! {

/// A relative path with `\` turned into `/`.
pub open spec fn forward_slashes(path: Seq<char>) -> Seq<char> {
    replace_any(path, seq!['\\'], '/')
}

/// The module path of a relative path: separators are `/`, and `.` and `-`
/// have become `_`.
pub open spec fn normalized_path(path: Seq<char>) -> Seq<char> {
    replace_any(forward_slashes(path), seq!['.', '-'], '_')
}

/// The identifier under which a file is declared: its name with `/`, `.`
/// and `-` turned into `_`.
pub open spec fn identifier(name: Seq<char>) -> Seq<char> {
    replace_any(name, seq!['/', '.', '-'], '_')
}

/// The name of the module that stands for a directory: the directory's name
/// with `-` and `.` turned into `_`.
pub open spec fn module_name(dir_name: Seq<char>) -> Seq<char> {
    replace_any(dir_name, seq!['-', '.'], '_')
}

/// The position of the last `.` in `name`, or -1 where it has none.
pub open spec fn last_dot(name: Seq<char>) -> int
    decreases name.len(),
{
    if name.len() == 0 {
        -1
    } else if name.last() == '.' {
        name.len() - 1
    } else {
        last_dot(name.drop_last())
    }
}

/// A file name has an extension when a `.` stands in it after the first
/// character. A name that only begins with a `.` has none.
pub open spec fn has_extension(name: Seq<char>) -> bool {
    last_dot(name) > 0
}

/// What stands before the last `.` of a name that has an extension.
pub open spec fn file_stem(name: Seq<char>) -> Seq<char> {
    name.subrange(0, last_dot(name))
}

/// What stands after the last `.` of a name that has an extension.
pub open spec fn extension(name: Seq<char>) -> Seq<char> {
    name.subrange(last_dot(name) + 1, name.len() as int)
}

/// The characters of `path` after its last `/`: the segment that is still
/// open at the end of the path.
pub open spec fn open_segment(path: Seq<char>) -> Seq<char>
    decreases path.len(),
{
    if path.len() == 0 || path.last() == '/' {
        Seq::empty()
    } else {
        open_segment(path.drop_last()).push(path.last())
    }
}

/// The non-empty segments of `path` that a `/` has closed, in order.
pub open spec fn closed_segments(path: Seq<char>) -> Seq<Seq<char>>
    decreases path.len(),
{
    if path.len() == 0 {
        Seq::empty()
    } else if path.last() == '/' && open_segment(path.drop_last()).len() > 0 {
        closed_segments(path.drop_last()).push(open_segment(path.drop_last()))
    } else {
        closed_segments(path.drop_last())
    }
}

/// The non-empty segments of a `/`-separated path, in order.
pub open spec fn segments(path: Seq<char>) -> Seq<Seq<char>> {
    if open_segment(path).len() > 0 {
        closed_segments(path).push(open_segment(path))
    } else {
        closed_segments(path)
    }
}

/// The parts one after the other, with `separator` between neighbours.
pub open spec fn joined(parts: Seq<Seq<char>>, separator: Seq<char>) -> Seq<char>
    decreases parts.len(),
{
    if parts.len() == 0 {
        Seq::empty()
    } else if parts.len() == 1 {
        parts[0]
    } else {
        joined(parts.drop_last(), separator) + separator + parts.last()
    }
}

/// The namespace path of a relative directory: the non-empty segments of
/// its module path, joined by `::`.
pub open spec fn namespace_path(rel_dir: Seq<char>) -> Seq<char> {
    joined(segments(normalized_path(rel_dir)), "::"@)
}

/// The reference to a record in the flat index. A record at the root is
/// referenced by its identifier alone, a nested one through the namespace
/// path of its directory.
pub open spec fn reference(rel_dir: Seq<char>, identifier: Seq<char>) -> Seq<char> {
    if rel_dir.len() == 0 {
        "&"@ + identifier
    } else {
        "&"@ + namespace_path(rel_dir) + "::"@ + identifier
    }
}

/// The public path of a file: `/static/`, the relative directory where
/// there is one, and the file name with the content hash put in between
/// stem and extension.
pub open spec fn public_path(
    rel_dir: Seq<char>,
    stem: Seq<char>,
    hash: Seq<char>,
    extension: Seq<char>,
) -> Seq<char> {
    if rel_dir.len() == 0 {
        "/static/"@ + stem + "-"@ + hash + "."@ + extension
    } else {
        "/static/"@ + forward_slashes(rel_dir) + "/"@ + stem + "-"@ + hash + "."@ + extension
    }
}

/// The module path of a relative path.
pub fn get_module_path(path: &str) -> (module: String)
    ensures
        module@ == normalized_path(path@),
{
    let backslash: [char; 1] = ['\\'];
    let punctuation: [char; 2] = ['.', '-'];
    assert(backslash@ =~= seq!['\\']);
    assert(punctuation@ =~= seq!['.', '-']);
    let slashed = replace_chars(path, backslash.as_slice(), '/');
    replace_chars(slashed.as_str(), punctuation.as_slice(), '_')
}

/// The identifier for a file name.
pub fn file_identifier(name: &str) -> (ident: String)
    ensures
        ident@ == identifier(name@),
{
    let illegal: [char; 3] = ['/', '.', '-'];
    assert(illegal@ =~= seq!['/', '.', '-']);
    replace_chars(name, illegal.as_slice(), '_')
}

/// The module name for a directory name.
pub fn directory_module_name(dir_name: &str) -> (module: String)
    ensures
        module@ == module_name(dir_name@),
{
    let illegal: [char; 2] = ['-', '.'];
    assert(illegal@ =~= seq!['-', '.']);
    replace_chars(dir_name, illegal.as_slice(), '_')
}

/// `last_dot` is a position in the name, or -1.
pub proof fn lemma_last_dot_bounds(name: Seq<char>)
    ensures
        -1 <= last_dot(name) < name.len(),
        last_dot(name) >= 0 ==> name[last_dot(name)] == '.',
    decreases name.len(),
{
    if name.len() > 0 && name.last() != '.' {
        lemma_last_dot_bounds(name.drop_last());
    }
}

/// Stem and extension of a file name, where it has an extension.
pub fn split_file_name(name: &str) -> (parts: Option<(&str, &str)>)
    ensures
        parts is Some <==> has_extension(name@),
        parts matches Some((stem, ext)) ==> stem@ == file_stem(name@) && ext@ == extension(
            name@,
        ),
{
    let len = name.unicode_len();
    let mut dot: usize = 0;
    let mut seen: usize = 0;
    for c in it: name.chars()
        invariant
            it.seq() == name@,
            len == name@.len(),
            seen == it.index(),
            seen <= len,
            dot <= seen,
            dot > 0 <==> last_dot(name@.take(seen as int)) > 0,
            dot > 0 ==> dot == last_dot(name@.take(seen as int)),
    {
        proof {
            assert(name@.take(seen + 1).drop_last() =~= name@.take(seen as int));
        }
        if c == '.' {
            dot = seen;
        }
        seen += 1;
    }
    proof {
        assert(name@.take(len as int) =~= name@);
        lemma_last_dot_bounds(name@);
    }
    if dot > 0 {
        Some((name.substring_char(0, dot), name.substring_char(dot + 1, len)))
    } else {
        None
    }
}

/// The namespace path of a relative directory.
pub fn namespace_of(rel_dir: &str) -> (namespace: String)
    ensures
        namespace@ == namespace_path(rel_dir@),
{
    let path = get_module_path(rel_dir);
    let mut namespace = String::new();
    let mut current = String::new();
    let mut any = false;
    for c in it: path.as_str().chars()
        invariant
            it.seq() == path@,
            current@ == open_segment(path@.take(it.index() as int)),
            namespace@ == joined(closed_segments(path@.take(it.index() as int)), "::"@),
            any == (closed_segments(path@.take(it.index() as int)).len() > 0),
    {
        proof {
            assert(path@.take(it.index() + 1).drop_last() =~= path@.take(it.index() as int));
        }
        if c == '/' {
            if !current.as_str().is_empty() {
                let ghost closed = closed_segments(path@.take(it.index() as int));
                if any {
                    namespace.append("::");
                }
                namespace.append(current.as_str());
                proof {
                    assert(closed.push(current@).drop_last() =~= closed);
                    assert(Seq::<char>::empty() + current@ =~= current@);
                }
                any = true;
                current = String::new();
            }
        } else {
            current.push(c);
        }
    }
    proof {
        assert(path@.take(path@.len() as int) =~= path@);
    }
    if !current.as_str().is_empty() {
        let ghost closed = closed_segments(path@);
        if any {
            namespace.append("::");
        }
        namespace.append(current.as_str());
        proof {
            assert(closed.push(current@).drop_last() =~= closed);
            assert(Seq::<char>::empty() + current@ =~= current@);
        }
    }
    namespace
}

/// The reference under which the flat index lists a record.
pub fn qualified_reference(rel_dir: &str, identifier: &str) -> (qualified: String)
    ensures
        qualified@ == reference(rel_dir@, identifier@),
{
    let mut qualified = String::from_str("&");
    if !rel_dir.is_empty() {
        let namespace = namespace_of(rel_dir);
        qualified.append(namespace.as_str());
        qualified.append("::");
    }
    qualified.append(identifier);
    qualified
}

/// The public path of a file from its parts.
pub fn url_path(rel_dir: &str, stem: &str, hash: &str, extension: &str) -> (url: String)
    ensures
        url@ == public_path(rel_dir@, stem@, hash@, extension@),
{
    let mut url = String::from_str("/static/");
    if !rel_dir.is_empty() {
        let backslash: [char; 1] = ['\\'];
        assert(backslash@ =~= seq!['\\']);
        let dir = replace_chars(rel_dir, backslash.as_slice(), '/');
        url.append(dir.as_str());
        url.append("/");
    }
    url.append(stem);
    url.append("-");
    url.append(hash);
    url.append(".");
    url.append(extension);
    url
}

} // verus!
