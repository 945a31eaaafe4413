//! Media kinds, and the classification of files by the extension of their
//! name.
//!
//! The extension is compared in lower case with four fixed sets. A file
//! whose extension is in none of them is a document; whether documents are
//! sent or passed over is the caller's policy.

use crate::text::same_text;
use vstd::prelude::*;

verus! {

/// The kind of a media file. It decides how the file is sent.
#[derive(Clone, Copy, Debug, PartialEq, Eq, Structural)]
pub enum MediaKind {
    Image,
    Video,
    Audio,
    Animation,
    Document,
}

/// What to do with a file that is neither image, video, audio nor animation.
#[derive(Clone, Copy, Debug, PartialEq, Eq, Structural)]
pub enum UnknownPolicy {
    /// Pass over it.
    Skip,
    /// Send it as a document.
    SendAsDocument,
}

/// The extension of the file that `path` names, without its dot, as
/// `std::path::Path::extension` finds it on the platform that the library
/// is built for; none where the name has none.
pub uninterp spec fn extension_of(path: Seq<char>) -> Option<Seq<char>>;

/// `text` in lower case, as `str::to_lowercase` gives it.
pub uninterp spec fn lowercase_of(text: Seq<char>) -> Seq<char>;

/// The extensions of images.
pub open spec fn is_image_extension(e: Seq<char>) -> bool {
    e == "jpg"@ || e == "jpeg"@ || e == "png"@ || e == "webp"@
}

/// The extensions of videos.
pub open spec fn is_video_extension(e: Seq<char>) -> bool {
    e == "mp4"@ || e == "mov"@ || e == "avi"@ || e == "mkv"@
}

/// The extensions of audio files.
pub open spec fn is_audio_extension(e: Seq<char>) -> bool {
    e == "mp3"@ || e == "m4a"@ || e == "ogg"@ || e == "wav"@ || e == "flac"@
}

/// The extensions of animations.
pub open spec fn is_animation_extension(e: Seq<char>) -> bool {
    e == "gif"@
}

/// The kind of a file with the extension `e`, which is in lower case.
pub open spec fn kind_of_extension(e: Seq<char>) -> MediaKind {
    if is_image_extension(e) {
        MediaKind::Image
    } else if is_video_extension(e) {
        MediaKind::Video
    } else if is_audio_extension(e) {
        MediaKind::Audio
    } else if is_animation_extension(e) {
        MediaKind::Animation
    } else {
        MediaKind::Document
    }
}

/// The extension of `path` in lower case; empty where it has none.
pub open spec fn lowered_extension(path: Seq<char>) -> Seq<char> {
    match extension_of(path) {
        Some(e) => lowercase_of(e),
        None => Seq::empty(),
    }
}

/// The kind of the file that `path` names.
pub open spec fn kind_of_path(path: Seq<char>) -> MediaKind {
    kind_of_extension(lowered_extension(path))
}

/// Whether files of the kind `kind` are sent under the policy `policy`.
pub open spec fn is_sent(kind: MediaKind, policy: UnknownPolicy) -> bool {
    kind != MediaKind::Document || policy == UnknownPolicy::SendAsDocument
}

/// Classification looks at nothing but the extension in lower case: two
/// paths that agree in it are of one kind.
pub proof fn lemma_kind_follows_extension(a: Seq<char>, b: Seq<char>)
    requires
        lowered_extension(a) == lowered_extension(b),
    ensures
        kind_of_path(a) == kind_of_path(b),
{
}

/// `std::path::Path::extension` on the path that `path` writes. The result
/// is named: it depends on the text of the path alone.
#[verifier::external_body]
fn path_extension(path: &str) -> (extension: Option<String>)
    ensures
        match extension {
            Some(e) => extension_of(path@) == Some(e@),
            None => extension_of(path@) is None,
        },
{
    match std::path::Path::new(path).extension() {
        Some(e) => Some(e.to_string_lossy().into_owned()),
        None => None,
    }
}

/// `str::to_lowercase`. The result is named: it depends on the text alone.
#[verifier::external_body]
fn lowercase(text: &str) -> (lowered: String)
    ensures
        lowered@ == lowercase_of(text@),
{
    text.to_lowercase()
}

/// The kind of a file with the extension `extension`, which is in lower
/// case.
pub fn kind_for_extension(extension: &str) -> (kind: MediaKind)
    ensures
        kind == kind_of_extension(extension@),
{
    if same_text(extension, "jpg") || same_text(extension, "jpeg") || same_text(extension, "png")
        || same_text(extension, "webp") {
        MediaKind::Image
    } else if same_text(extension, "mp4") || same_text(extension, "mov") || same_text(
        extension,
        "avi",
    ) || same_text(extension, "mkv") {
        MediaKind::Video
    } else if same_text(extension, "mp3") || same_text(extension, "m4a") || same_text(
        extension,
        "ogg",
    ) || same_text(extension, "wav") || same_text(extension, "flac") {
        MediaKind::Audio
    } else if same_text(extension, "gif") {
        MediaKind::Animation
    } else {
        MediaKind::Document
    }
}

/// Classifies a file by the extension of its name. Every path has exactly
/// one kind, and the same path has the same kind each time.
pub fn classify(path: &str) -> (kind: MediaKind)
    ensures
        kind == kind_of_path(path@),
{
    match path_extension(path) {
        Some(extension) => {
            let lowered = lowercase(extension.as_str());
            kind_for_extension(lowered.as_str())
        },
        None => {
            proof {
                reveal_strlit("");
                assert(""@ =~= Seq::<char>::empty());
            }
            kind_for_extension("")
        },
    }
}

/// Whether a file of the kind `kind` is sent under the policy `policy`.
pub fn admits(kind: MediaKind, policy: UnknownPolicy) -> (sent: bool)
    ensures
        sent == is_sent(kind, policy),
{
    kind != MediaKind::Document || policy == UnknownPolicy::SendAsDocument
}

} // verus!
