//! The MIME type of a file, by its extension.

use vstd::prelude::*;

verus! {

/// The MIME type for an extension: a fixed table, and
/// `application/octet-stream` for everything the table does not list.
pub open spec fn mime_of(extension: Seq<char>) -> Seq<char> {
    if extension == "svg"@ {
        "image/svg+xml"@
    } else if extension == "png"@ {
        "image/png"@
    } else if extension == "jpg"@ || extension == "jpeg"@ {
        "image/jpeg"@
    } else if extension == "webp"@ {
        "image/webp"@
    } else if extension == "css"@ {
        "text/css"@
    } else if extension == "js"@ {
        "application/javascript"@
    } else if extension == "wasm"@ {
        "application/wasm"@
    } else {
        "application/octet-stream"@
    }
}

/// The MIME type for `extension`. The comparison is exact: an extension in
/// upper case is not in the table.
pub fn mime_type_from_extension(extension: &str) -> (mime: &'static str)
    ensures
        mime@ == mime_of(extension@),
{
    if extension.eq("svg") {
        "image/svg+xml"
    } else if extension.eq("png") {
        "image/png"
    } else if extension.eq("jpg") || extension.eq("jpeg") {
        "image/jpeg"
    } else if extension.eq("webp") {
        "image/webp"
    } else if extension.eq("css") {
        "text/css"
    } else if extension.eq("js") {
        "application/javascript"
    } else if extension.eq("wasm") {
        "application/wasm"
    } else {
        "application/octet-stream"
    }
}

/// Whether `extension` is one of the eight that the table lists.
pub open spec fn is_listed(extension: Seq<char>) -> bool {
    ||| extension == "svg"@
    ||| extension == "png"@
    ||| extension == "jpg"@
    ||| extension == "jpeg"@
    ||| extension == "webp"@
    ||| extension == "css"@
    ||| extension == "js"@
    ||| extension == "wasm"@
}

/// The table is total and unambiguous: each of the eight listed extensions
/// has the type written beside it, whatever the order in which the table is
/// searched, and any other extension has `application/octet-stream`.
pub proof fn lemma_mime_table(extension: Seq<char>)
    ensures
        mime_of("svg"@) == "image/svg+xml"@,
        mime_of("png"@) == "image/png"@,
        mime_of("jpg"@) == "image/jpeg"@,
        mime_of("jpeg"@) == "image/jpeg"@,
        mime_of("webp"@) == "image/webp"@,
        mime_of("css"@) == "text/css"@,
        mime_of("js"@) == "application/javascript"@,
        mime_of("wasm"@) == "application/wasm"@,
        !is_listed(extension) ==> mime_of(extension) == "application/octet-stream"@,
{
    reveal_strlit("svg");
    reveal_strlit("png");
    reveal_strlit("jpg");
    reveal_strlit("jpeg");
    reveal_strlit("webp");
    reveal_strlit("css");
    reveal_strlit("js");
    reveal_strlit("wasm");
    assert("svg"@.len() == 3 && "svg"@[0] == 's');
    assert("png"@.len() == 3 && "png"@[0] == 'p');
    assert("jpg"@.len() == 3 && "jpg"@[0] == 'j');
    assert("jpeg"@.len() == 4 && "jpeg"@[0] == 'j');
    assert("webp"@.len() == 4 && "webp"@[0] == 'w');
    assert("css"@.len() == 3 && "css"@[0] == 'c');
    assert("js"@.len() == 2);
    assert("wasm"@.len() == 4 && "wasm"@[1] == 'a');
    assert("webp"@[1] == 'e');
}

} // verus!
