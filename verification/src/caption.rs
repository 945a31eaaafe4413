//! Captions: the text of a sidecar file, followed by a static caption.
//!
//! The sidecar of a media file is the file of the same name with the
//! extension `txt`. A sidecar that is missing or cannot be read counts as
//! empty.

use vstd::prelude::*;

verus! {

/// The path that `path` becomes when its extension is replaced by
/// `extension`, or gets it where it has none, as
/// `std::path::Path::with_extension` gives it on the platform that the
/// library is built for.
pub uninterp spec fn with_extension_of(path: Seq<char>, extension: Seq<char>) -> Seq<char>;

/// The extension of sidecar files.
pub open spec fn sidecar_extension() -> Seq<char> {
    "txt"@
}

/// The path of the sidecar of the media file `path`.
pub open spec fn sidecar_of(path: Seq<char>) -> Seq<char> {
    with_extension_of(path, sidecar_extension())
}

/// What a sidecar contributes to the caption: its text, and nothing where
/// there is none.
pub open spec fn sidecar_content(sidecar: Option<String>) -> Seq<char> {
    match sidecar {
        Some(text) => text@,
        None => Seq::empty(),
    }
}

/// The caption of a file: the sidecar's text, then the static caption, with
/// nothing between them.
pub open spec fn caption_of(sidecar: Option<String>, static_caption: Seq<char>) -> Seq<char> {
    sidecar_content(sidecar) + static_caption
}

/// Whether `c` separates the components of a path on some platform.
pub open spec fn is_separator(c: char) -> bool {
    c == '/' || c == '\\'
}

/// `std::path::Path::with_extension` on the path that `path` writes. The
/// result is named: it depends on the two texts alone. The standard library
/// panics on an extension that holds a path separator, so such an extension
/// is ruled out.
#[verifier::external_body]
fn with_extension(path: &str, extension: &str) -> (changed: String)
    requires
        forall|i: int| 0 <= i < extension@.len() ==> !is_separator(#[trigger] extension@[i]),
    ensures
        changed@ == with_extension_of(path@, extension@),
{
    std::path::Path::new(path).with_extension(extension).to_string_lossy().into_owned()
}

/// The path of the sidecar of the media file `path`.
pub fn sidecar_path(path: &str) -> (sidecar: String)
    ensures
        sidecar@ == sidecar_of(path@),
{
    proof {
        reveal_strlit("txt");
    }
    with_extension(path, "txt")
}

/// What the sidecar contributes to the caption, from what was read of it:
/// `None` where it is missing or unreadable.
pub fn get_caption(sidecar: &Option<String>) -> (content: String)
    ensures
        content@ == sidecar_content(*sidecar),
{
    match sidecar {
        Some(text) => text.clone(),
        None => String::new(),
    }
}

/// Composes the caption of a file from what was read of its sidecar, `None`
/// where it is missing or unreadable, and the static caption.
pub fn compose(sidecar: &Option<String>, static_caption: &str) -> (caption: String)
    ensures
        caption@ == sidecar_content(*sidecar) + static_caption@,
{
    let mut caption = get_caption(sidecar);
    caption.append(static_caption);
    caption
}

} // verus!
