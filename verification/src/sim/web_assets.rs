//! Which file of the web interface answers a path.

use vstd::prelude::*;

use crate::text::{characters, same_text};

verus! {

/// What a path is answered with.
#[derive(Debug, Clone, Copy, PartialEq, Eq, Structural)]
pub enum AssetAnswer {
    /// The file of that path.
    File,
    /// The start page.
    Index,
    NotFound,
}

/// Where a text goes on after the slashes that it begins with.
pub open spec fn after_slashes(path: Seq<char>, i: int) -> int
    decreases path.len() - i,
{
    if 0 <= i < path.len() && path[i] == '/' {
        after_slashes(path, i + 1)
    } else {
        i
    }
}

/// The file that a path names: the path without leading slashes.
pub open spec fn file_name(path: Seq<char>) -> Seq<char> {
    path.subrange(after_slashes(path, 0), path.len() as int)
}

/// The path belongs to the programming interface.
pub open spec fn is_api(path: Seq<char>) -> bool {
    path.len() >= 4 && path.take(4) == "/api"@
}

/// The file that a path names.
pub fn asset_name(path: &str) -> (r: &str)
    ensures
        r@ == file_name(path@),
{
    let cs = characters(path);
    let mut i: usize = 0;
    while i < cs.len() && cs[i] == '/'
        invariant
            cs@ == path@,
            i <= cs@.len(),
            after_slashes(path@, 0) == after_slashes(path@, i as int),
        decreases cs@.len() - i,
    {
        i = i + 1;
    }
    path.substring_char(i, cs.len())
}

/// What a path is answered with, given whether its file and the start page
/// exist: the file, else the start page for a path outside the programming
/// interface.
pub fn index_or_static(path: &str, file_exists: bool, index_exists: bool) -> (r: AssetAnswer)
    ensures
        r == (if file_exists {
            AssetAnswer::File
        } else if !is_api(path@) && index_exists {
            AssetAnswer::Index
        } else {
            AssetAnswer::NotFound
        }),
{
    if file_exists {
        return AssetAnswer::File;
    }
    let api = path.unicode_len() >= 4 && same_text(path.substring_char(0, 4), "/api");
    assert(api ==> path@.subrange(0, 4) =~= path@.take(4));
    assert(path@.len() >= 4 ==> path@.subrange(0, 4) =~= path@.take(4));
    if !api && index_exists {
        AssetAnswer::Index
    } else {
        AssetAnswer::NotFound
    }
}

/// The media type of a file extension.
pub open spec fn mime_of(ext: Seq<char>) -> Seq<char> {
    if ext == "html"@ {
        "text/html; charset=utf-8"@
    } else if ext == "js"@ || ext == "mjs"@ {
        "application/javascript; charset=utf-8"@
    } else if ext == "css"@ {
        "text/css; charset=utf-8"@
    } else if ext == "json"@ || ext == "map"@ {
        "application/json"@
    } else if ext == "svg"@ {
        "image/svg+xml"@
    } else if ext == "png"@ {
        "image/png"@
    } else if ext == "jpg"@ || ext == "jpeg"@ {
        "image/jpeg"@
    } else if ext == "webp"@ {
        "image/webp"@
    } else if ext == "ico"@ {
        "image/x-icon"@
    } else if ext == "woff"@ {
        "font/woff"@
    } else if ext == "woff2"@ {
        "font/woff2"@
    } else if ext == "ttf"@ {
        "font/ttf"@
    } else if ext == "txt"@ {
        "text/plain; charset=utf-8"@
    } else {
        "application/octet-stream"@
    }
}

/// The media type of a file extension.
pub fn mime_for(ext: &str) -> (r: &'static str)
    ensures
        r@ == mime_of(ext@),
{
    if same_text(ext, "html") {
        "text/html; charset=utf-8"
    } else if same_text(ext, "js") || same_text(ext, "mjs") {
        "application/javascript; charset=utf-8"
    } else if same_text(ext, "css") {
        "text/css; charset=utf-8"
    } else if same_text(ext, "json") || same_text(ext, "map") {
        "application/json"
    } else if same_text(ext, "svg") {
        "image/svg+xml"
    } else if same_text(ext, "png") {
        "image/png"
    } else if same_text(ext, "jpg") || same_text(ext, "jpeg") {
        "image/jpeg"
    } else if same_text(ext, "webp") {
        "image/webp"
    } else if same_text(ext, "ico") {
        "image/x-icon"
    } else if same_text(ext, "woff") {
        "font/woff"
    } else if same_text(ext, "woff2") {
        "font/woff2"
    } else if same_text(ext, "ttf") {
        "font/ttf"
    } else if same_text(ext, "txt") {
        "text/plain; charset=utf-8"
    } else {
        "application/octet-stream"
    }
}

} // verus!
