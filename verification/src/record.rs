//! The declaration of one file's record, and its reference in the index.

use crate::digest::{calculate_hash, content_hash};
use crate::mime::{mime_of, mime_type_from_extension};
use crate::names::{
    extension, file_identifier, file_stem, has_extension, identifier, public_path,
    qualified_reference, reference, split_file_name, url_path,
};
use crate::snapshot::{AssetFile, FileModel};
use crate::text::{repeat, repeat_str, texts};
use vstd::prelude::*;
use vstd::string::StringExecFns;

verus! {

/// The indentation of a declaration at a nesting level: four spaces a level.
pub open spec fn indentation(level: nat) -> Seq<char> {
    repeat("    "@, level)
}

/// The text of one record's declaration: a comment that names the file's
/// location, then the `StaticFile` with location, public path and MIME type.
pub open spec fn record_text(
    indent: Seq<char>,
    location: Seq<char>,
    identifier: Seq<char>,
    path: Seq<char>,
    mime: Seq<char>,
) -> Seq<char> {
    "\n"@ + indent + "/// From \""@ + location + "\"\n"@ + indent
        + "#[allow(non_upper_case_globals)]\n"@ + indent + "pub static "@ + identifier
        + ": StaticFile = StaticFile {\n"@ + indent + "    file_name: \""@ + location + "\",\n"@
        + indent + "    name: \""@ + path + "\",\n"@ + indent + "    mime: \""@ + mime + "\",\n"@
        + indent + "};\n"@
}

/// The public path of a file in a relative directory.
pub open spec fn file_public_path(file: FileModel, rel_dir: Seq<char>) -> Seq<char> {
    public_path(rel_dir, file_stem(file.name), content_hash(file.content), extension(file.name))
}

/// The declaration of a file in a relative directory, at a nesting level.
pub open spec fn file_record(file: FileModel, rel_dir: Seq<char>, level: nat) -> Seq<char> {
    record_text(
        indentation(level),
        file.location,
        identifier(file.name),
        file_public_path(file, rel_dir),
        mime_of(extension(file.name)),
    )
}

/// The index's reference to a file in a relative directory.
pub open spec fn file_reference(file: FileModel, rel_dir: Seq<char>) -> Seq<char> {
    reference(rel_dir, identifier(file.name))
}

/// The declaration of a record from its parts.
pub fn record_code(indent: &str, location: &str, identifier: &str, path: &str, mime: &str) -> (code:
    String)
    ensures
        code@ == record_text(indent@, location@, identifier@, path@, mime@),
{
    let mut code = String::from_str("\n");
    code.append(indent);
    code.append("/// From \"");
    code.append(location);
    code.append("\"\n");
    code.append(indent);
    code.append("#[allow(non_upper_case_globals)]\n");
    code.append(indent);
    code.append("pub static ");
    code.append(identifier);
    code.append(": StaticFile = StaticFile {\n");
    code.append(indent);
    code.append("    file_name: \"");
    code.append(location);
    code.append("\",\n");
    code.append(indent);
    code.append("    name: \"");
    code.append(path);
    code.append("\",\n");
    code.append(indent);
    code.append("    mime: \"");
    code.append(mime);
    code.append("\",\n");
    code.append(indent);
    code.append("};\n");
    code
}

/// Appends the declaration of `file` to `output`, and its reference to
/// `static_files`. `rel_dir` is the file's directory relative to the root
/// of its asset directory, and empty for a file at that root.
pub fn process_file(
    file: &AssetFile,
    rel_dir: &str,
    output: &mut String,
    static_files: &mut Vec<String>,
    indent_level: usize,
)
    requires
        has_extension(file@.name),
    ensures
        final(output)@ == old(output)@ + file_record(file@, rel_dir@, indent_level as nat),
        texts(final(static_files)@) == texts(old(static_files)@).push(
            file_reference(file@, rel_dir@),
        ),
{
    let hash = calculate_hash(file.content.as_slice());
    let var_name = file_identifier(file.name.as_str());
    let (stem, ext) = split_file_name(file.name.as_str()).unwrap();
    let url = url_path(rel_dir, stem, hash.as_str(), ext);
    let mime = mime_type_from_extension(ext);
    let indent = repeat_str("    ", indent_level);
    let code = record_code(
        indent.as_str(),
        file.location.as_str(),
        var_name.as_str(),
        url.as_str(),
        mime,
    );
    output.append(code.as_str());
    let qualified = qualified_reference(rel_dir, var_name.as_str());
    proof {
        assert(texts(static_files@.push(qualified)) =~= texts(static_files@).push(qualified@));
    }
    static_files.push(qualified);
}

} // verus!
