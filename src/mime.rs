//! The media type reported for a file, chosen by its extension.
use crate::project_folders::text_equals;
use vstd::prelude::*;

verus! {

/// What `str::to_lowercase` makes of `s`.
pub uninterp spec fn lower_of(s: Seq<char>) -> Seq<char>;

/// Relies on `str::to_lowercase`: the full Unicode lowercase mapping,
/// which depends on the characters alone; an empty string stays empty.
#[verifier::external_body]
fn lowercase(s: &str) -> (r: String)
    ensures
        r@ == lower_of(s@),
        s@.len() == 0 ==> r@.len() == 0,
{
    s.to_lowercase()
}

/// The media type of files whose extension, already in lower case, is
/// `ext`; `application/octet-stream` for any extension not listed.
pub open spec fn media_type_of(ext: Seq<char>) -> Seq<char> {
    if ext == "jpg"@ || ext == "jpeg"@ {
        "image/jpeg"@
    } else if ext == "png"@ {
        "image/png"@
    } else if ext == "gif"@ {
        "image/gif"@
    } else if ext == "webp"@ {
        "image/webp"@
    } else if ext == "svg"@ {
        "image/svg+xml"@
    } else if ext == "pdf"@ {
        "application/pdf"@
    } else if ext == "doc"@ {
        "application/msword"@
    } else if ext == "docx"@ {
        "application/vnd.openxmlformats-officedocument.wordprocessingml.document"@
    } else if ext == "xls"@ {
        "application/vnd.ms-excel"@
    } else if ext == "xlsx"@ {
        "application/vnd.openxmlformats-officedocument.spreadsheetml.sheet"@
    } else if ext == "ppt"@ {
        "application/vnd.ms-powerpoint"@
    } else if ext == "pptx"@ {
        "application/vnd.openxmlformats-officedocument.presentationml.presentation"@
    } else if ext == "zip"@ {
        "application/zip"@
    } else if ext == "rar"@ {
        "application/x-rar-compressed"@
    } else if ext == "7z"@ {
        "application/x-7z-compressed"@
    } else if ext == "mp3"@ {
        "audio/mpeg"@
    } else if ext == "wav"@ {
        "audio/wav"@
    } else if ext == "mp4"@ {
        "video/mp4"@
    } else if ext == "avi"@ {
        "video/x-msvideo"@
    } else if ext == "mov"@ {
        "video/quicktime"@
    } else if ext == "psd"@ {
        "image/vnd.adobe.photoshop"@
    } else if ext == "ai"@ || ext == "eps"@ {
        "application/postscript"@
    } else if ext == "obj"@ {
        "model/obj"@
    } else if ext == "blend"@ {
        "application/x-blender"@
    } else if ext == "txt"@ {
        "text/plain"@
    } else if ext == "json"@ {
        "application/json"@
    } else if ext == "xml"@ {
        "application/xml"@
    } else if ext == "html"@ {
        "text/html"@
    } else if ext == "css"@ {
        "text/css"@
    } else if ext == "js"@ {
        "application/javascript"@
    } else {
        "application/octet-stream"@
    }
}

/// The media type for the lower-case extension `ext`.
pub fn mime_type_for_lowercase(ext: &str) -> (r: String)
    ensures
        r@ == media_type_of(ext@),
{
    let mime =     if text_equals(ext, "jpg") || text_equals(ext, "jpeg") {
        "image/jpeg"
    } else if text_equals(ext, "png") {
        "image/png"
    } else if text_equals(ext, "gif") {
        "image/gif"
    } else if text_equals(ext, "webp") {
        "image/webp"
    } else if text_equals(ext, "svg") {
        "image/svg+xml"
    } else if text_equals(ext, "pdf") {
        "application/pdf"
    } else if text_equals(ext, "doc") {
        "application/msword"
    } else if text_equals(ext, "docx") {
        "application/vnd.openxmlformats-officedocument.wordprocessingml.document"
    } else if text_equals(ext, "xls") {
        "application/vnd.ms-excel"
    } else if text_equals(ext, "xlsx") {
        "application/vnd.openxmlformats-officedocument.spreadsheetml.sheet"
    } else if text_equals(ext, "ppt") {
        "application/vnd.ms-powerpoint"
    } else if text_equals(ext, "pptx") {
        "application/vnd.openxmlformats-officedocument.presentationml.presentation"
    } else if text_equals(ext, "zip") {
        "application/zip"
    } else if text_equals(ext, "rar") {
        "application/x-rar-compressed"
    } else if text_equals(ext, "7z") {
        "application/x-7z-compressed"
    } else if text_equals(ext, "mp3") {
        "audio/mpeg"
    } else if text_equals(ext, "wav") {
        "audio/wav"
    } else if text_equals(ext, "mp4") {
        "video/mp4"
    } else if text_equals(ext, "avi") {
        "video/x-msvideo"
    } else if text_equals(ext, "mov") {
        "video/quicktime"
    } else if text_equals(ext, "psd") {
        "image/vnd.adobe.photoshop"
    } else if text_equals(ext, "ai") || text_equals(ext, "eps") {
        "application/postscript"
    } else if text_equals(ext, "obj") {
        "model/obj"
    } else if text_equals(ext, "blend") {
        "application/x-blender"
    } else if text_equals(ext, "txt") {
        "text/plain"
    } else if text_equals(ext, "json") {
        "application/json"
    } else if text_equals(ext, "xml") {
        "application/xml"
    } else if text_equals(ext, "html") {
        "text/html"
    } else if text_equals(ext, "css") {
        "text/css"
    } else if text_equals(ext, "js") {
        "application/javascript"
    } else {
        "application/octet-stream"
    };
    String::from_str(mime)
}

/// The media type for extension `ext`, compared without regard to case.
pub fn mime_type_for_extension(ext: &str) -> (r: String)
    ensures
        r@ == media_type_of(lower_of(ext@)),
{
    let lower = lowercase(ext);
    mime_type_for_lowercase(lower.as_str())
}

} // verus!
