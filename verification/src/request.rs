//! Media files and the requests that send them.
//!
//! Discovery turns the candidate paths into media files: it classifies each
//! one, composes its caption and leaves out what the policy passes over,
//! keeping the order. A request is built for one media file; it carries the
//! caption where the mode of dispatch gives one to that file, and what
//! probing and thumbnailing found where the file is a video.

use crate::caption::{caption_of, compose};
use crate::kind::{admits, classify, is_sent, kind_of_path, MediaKind, UnknownPolicy};
use crate::probe::VideoMetadata;
use crate::thumbnail::{thumbnail_view, Thumbnail, ThumbnailView};
use vstd::prelude::*;

verus! {

/// How a batch is dispatched.
#[derive(Clone, Copy, Debug, PartialEq, Eq, Structural)]
pub enum Mode {
    /// All files in one album, with one call.
    Group,
    /// One file after the other, each with its own call.
    Sequential,
}

/// A path that was enumerated, with the text of its sidecar file, `None`
/// where that is missing or cannot be read.
#[derive(Debug)]
pub struct Candidate {
    pub path: String,
    pub sidecar: Option<String>,
}

/// A media file: its path, its kind and its caption.
#[derive(Debug)]
pub struct MediaFile {
    pub path: String,
    pub kind: MediaKind,
    pub caption: String,
}

/// What a media file is, as plain values.
pub struct MediaFileView {
    pub path: Seq<char>,
    pub kind: MediaKind,
    pub caption: Seq<char>,
}

impl View for MediaFile {
    type V = MediaFileView;

    open spec fn view(&self) -> MediaFileView {
        MediaFileView { path: self.path@, kind: self.kind, caption: self.caption@ }
    }
}

/// What was found out about a video before it is sent.
#[derive(Debug)]
pub struct Enrichment {
    pub metadata: VideoMetadata,
    pub thumbnail: Option<Thumbnail>,
}

/// What an enrichment is, as plain values.
pub struct EnrichmentView {
    pub metadata: VideoMetadata,
    pub thumbnail: Option<ThumbnailView>,
}

impl View for Enrichment {
    type V = EnrichmentView;

    open spec fn view(&self) -> EnrichmentView {
        EnrichmentView { metadata: self.metadata, thumbnail: thumbnail_view(self.thumbnail) }
    }
}

/// The plain values of an enrichment that may be missing.
pub open spec fn enrichment_view(enrichment: Option<Enrichment>) -> Option<EnrichmentView> {
    match enrichment {
        Some(e) => Some(e@),
        None => None,
    }
}

/// A request to send one file. The kind says which call of the messaging
/// client sends it. Only a video has metadata, a thumbnail, or the mark
/// that it can be streamed.
#[derive(Debug)]
pub struct SendRequest {
    pub kind: MediaKind,
    pub path: String,
    pub caption: Option<String>,
    pub metadata: VideoMetadata,
    pub thumbnail: Option<Thumbnail>,
    pub supports_streaming: bool,
}

/// What a request is, as plain values.
pub struct RequestView {
    pub kind: MediaKind,
    pub path: Seq<char>,
    pub caption: Option<Seq<char>>,
    pub metadata: VideoMetadata,
    pub thumbnail: Option<ThumbnailView>,
    pub supports_streaming: bool,
}

impl View for SendRequest {
    type V = RequestView;

    open spec fn view(&self) -> RequestView {
        RequestView {
            kind: self.kind,
            path: self.path@,
            caption: match self.caption {
                Some(text) => Some(text@),
                None => None,
            },
            metadata: self.metadata,
            thumbnail: thumbnail_view(self.thumbnail),
            supports_streaming: self.supports_streaming,
        }
    }
}

impl RequestView {
    /// Whether the request keeps to its kind: one that is no video has no
    /// metadata, no thumbnail and no mark for streaming.
    pub open spec fn well_formed(self) -> bool {
        self.kind != MediaKind::Video ==> {
            &&& self.metadata == VideoMetadata::absent()
            &&& self.thumbnail is None
            &&& !self.supports_streaming
        }
    }
}

/// The media file that a candidate becomes.
pub open spec fn media_file_of(
    path: Seq<char>,
    sidecar: Option<String>,
    static_caption: Seq<char>,
) -> MediaFileView {
    MediaFileView {
        path,
        kind: kind_of_path(path),
        caption: caption_of(sidecar, static_caption),
    }
}

/// The media files that a sequence of candidates becomes: those that the
/// policy lets through, in the order of the candidates.
pub open spec fn discovered(
    candidates: Seq<Candidate>,
    static_caption: Seq<char>,
    policy: UnknownPolicy,
) -> Seq<MediaFileView>
    decreases candidates.len(),
{
    if candidates.len() == 0 {
        Seq::empty()
    } else {
        let before = discovered(candidates.drop_last(), static_caption, policy);
        let last = candidates.last();
        if is_sent(kind_of_path(last.path@), policy) {
            before.push(media_file_of(last.path@, last.sidecar, static_caption))
        } else {
            before
        }
    }
}

/// The plain values of a sequence of media files.
pub open spec fn file_views(files: Seq<MediaFile>) -> Seq<MediaFileView> {
    Seq::new(files.len(), |i: int| files[i]@)
}

/// Whether a file carries its caption: in a group the first file does, and
/// no other; sent one by one, every video does, and no other file.
pub open spec fn carries_caption(mode: Mode, kind: MediaKind, position: int) -> bool {
    match mode {
        Mode::Group => position == 0,
        Mode::Sequential => kind == MediaKind::Video,
    }
}

/// The request that sends `file`, with its caption or without, and with
/// what was found out about it where it is a video.
pub open spec fn request_for(
    file: MediaFileView,
    with_caption: bool,
    enrichment: Option<EnrichmentView>,
) -> RequestView {
    let video = file.kind == MediaKind::Video;
    RequestView {
        kind: file.kind,
        path: file.path,
        caption: if with_caption {
            Some(file.caption)
        } else {
            None
        },
        metadata: match enrichment {
            Some(e) => if video {
                e.metadata
            } else {
                VideoMetadata::absent()
            },
            None => VideoMetadata::absent(),
        },
        thumbnail: match enrichment {
            Some(e) => if video {
                e.thumbnail
            } else {
                None
            },
            None => None,
        },
        supports_streaming: video,
    }
}

/// A request keeps to its kind, whatever it is built from.
pub proof fn lemma_request_keeps_to_kind(
    file: MediaFileView,
    with_caption: bool,
    enrichment: Option<EnrichmentView>,
)
    ensures
        request_for(file, with_caption, enrichment).well_formed(),
        request_for(file, with_caption, enrichment).path == file.path,
        request_for(file, with_caption, enrichment).kind == file.kind,
{
}

/// Makes the media file of one candidate.
pub fn media_file(path: &str, sidecar: &Option<String>, static_caption: &str) -> (file: MediaFile)
    ensures
        file@ == media_file_of(path@, *sidecar, static_caption@),
{
    MediaFile {
        path: String::from_str(path),
        kind: classify(path),
        caption: compose(sidecar, static_caption),
    }
}

/// Turns the candidates into media files: classifies each one, composes its
/// caption, and leaves out those that the policy passes over. The order of
/// the candidates is kept.
pub fn discover(candidates: &Vec<Candidate>, static_caption: &str, policy: UnknownPolicy) -> (files:
    Vec<MediaFile>)
    ensures
        file_views(files@) == discovered(candidates@, static_caption@, policy),
{
    let mut files: Vec<MediaFile> = Vec::new();
    let mut i: usize = 0;
    while i < candidates.len()
        invariant
            i <= candidates.len(),
            file_views(files@) == discovered(candidates@.take(i as int), static_caption@, policy),
        decreases candidates.len() - i,
    {
        let candidate = &candidates[i];
        let file = media_file(candidate.path.as_str(), &candidate.sidecar, static_caption);
        proof {
            assert(candidates@.take(i + 1).drop_last() =~= candidates@.take(i as int));
            assert(candidates@.take(i + 1).last() == candidates@[i as int]);
        }
        if admits(file.kind, policy) {
            let ghost before = files@;
            files.push(file);
            assert(file_views(files@) =~= file_views(before).push(file@));
        }
        i += 1;
    }
    assert(candidates@.take(candidates.len() as int) =~= candidates@);
    files
}

/// Builds the request that sends `file`. An enrichment is used where the
/// file is a video, and dropped where it is not.
pub fn build_request(file: &MediaFile, with_caption: bool, enrichment: Option<Enrichment>) -> (request:
    SendRequest)
    ensures
        request@ == request_for(file@, with_caption, enrichment_view(enrichment)),
        request@.well_formed(),
{
    let video = file.kind == MediaKind::Video;
    let caption = if with_caption {
        Some(file.caption.clone())
    } else {
        None
    };
    let mut metadata = VideoMetadata::none();
    let mut thumbnail: Option<Thumbnail> = None;
    match enrichment {
        Some(e) => {
            if video {
                metadata = e.metadata;
                thumbnail = e.thumbnail;
            }
        },
        None => {},
    }
    SendRequest {
        kind: file.kind,
        path: file.path.clone(),
        caption,
        metadata,
        thumbnail,
        supports_streaming: video,
    }
}

} // verus!
