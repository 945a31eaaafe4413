//! Thumbnails for videos.
//!
//! A frame-extraction tool writes the first frame of a video to a temporary
//! file with a fresh name. The frame is decoded, scaled to fit a box of
//! `THUMBNAIL_EDGE` pixels and encoded again as JPEG. Nothing here fails:
//! where a step cannot be done there is no thumbnail.

use crate::probe::{texts, ToolCall};
use vstd::prelude::*;

verus! {

/// The edge of the box that a thumbnail fits in, in pixels.
pub const THUMBNAIL_EDGE: u32 = 320;

/// The quality at which a thumbnail is encoded, from 1 to 100.
pub const THUMBNAIL_QUALITY: u8 = 100;

/// A thumbnail: the bytes of a JPEG image, and the file name under which it
/// is sent.
#[derive(Debug)]
pub struct Thumbnail {
    pub bytes: Vec<u8>,
    pub file_name: String,
}

/// The file name that every thumbnail is sent under.
pub open spec fn thumbnail_file_name() -> Seq<char> {
    "thumb.jpg"@
}

/// Whether `bytes` begin as every JPEG stream does, with the marker for the
/// start of an image.
pub open spec fn starts_as_jpeg(bytes: Seq<u8>) -> bool {
    bytes.len() >= 2 && bytes[0] == 0xFF && bytes[1] == 0xD8
}

/// Whether `c` is a digit of lower-case hexadecimal notation.
pub open spec fn is_lower_hex(c: char) -> bool {
    '0' <= c <= '9' || 'a' <= c <= 'f'
}

/// Whether `t` has the shape of a hyphenated identifier: thirty-two
/// lower-case hexadecimal digits in groups of 8, 4, 4, 4 and 12, with a
/// hyphen between two groups.
pub open spec fn is_token(t: Seq<char>) -> bool {
    &&& t.len() == 36
    &&& forall|i: int|
        0 <= i < 36 ==> if i == 8 || i == 13 || i == 18 || i == 23 {
            #[trigger] t[i] == '-'
        } else {
            is_lower_hex(t[i])
        }
}

/// The name of the temporary file that holds the frame, for a given token.
pub open spec fn frame_name(token: Seq<char>) -> Seq<char> {
    "temp_thumb_"@ + token + ".jpg"@
}

/// The name of the frame-extraction tool.
pub open spec fn frame_program() -> Seq<char> {
    "ffmpeg"@
}

/// The arguments that make the frame-extraction tool write the first frame
/// of `video` to `output`: the input, the time to seek to, one frame, the
/// quality, and the output, which is overwritten.
pub open spec fn frame_args(video: Seq<char>, output: Seq<char>) -> Seq<Seq<char>> {
    seq![
        "-hide_banner"@,
        "-v"@,
        "error"@,
        "-y"@,
        "-i"@,
        video,
        "-ss"@,
        "00:00:00.000"@,
        "-frames:v"@,
        "1"@,
        "-update"@,
        "1"@,
        "-q:v"@,
        "2"@,
        output,
    ]
}

/// Different tokens give different file names: two invocations collide only
/// where their tokens are the same.
pub proof fn lemma_frame_names_differ(a: Seq<char>, b: Seq<char>)
    requires
        frame_name(a) == frame_name(b),
    ensures
        a == b,
{
    let p = "temp_thumb_"@;
    let q = ".jpg"@;
    assert(frame_name(a).len() == p.len() + a.len() + q.len());
    assert(frame_name(b).len() == p.len() + b.len() + q.len());
    assert forall|i: int| 0 <= i < a.len() implies a[i] == b[i] by {
        assert(frame_name(a)[p.len() + i] == a[i]);
        assert(frame_name(b)[p.len() + i] == b[i]);
    }
    assert(a =~= b);
}

#[verifier::external_type_specification]
#[verifier::external_body]
pub struct ExDynamicImage(image::DynamicImage);

/// The image that `image::ImageReader`, told that the format is JPEG,
/// decodes the bytes `frame` to; none where it reports an error. What it
/// decodes them to depends on the bytes alone.
pub uninterp spec fn decoded_image(frame: Seq<u8>) -> Option<image::DynamicImage>;

/// The image that `image::DynamicImage::thumbnail` makes of `image` for the
/// bounds `width` and `height`: `image` scaled to the largest size that
/// fits in them, its aspect ratio kept.
pub uninterp spec fn scaled_image(
    image: image::DynamicImage,
    width: u32,
    height: u32,
) -> image::DynamicImage;

/// The bytes that `image::codecs::jpeg::JpegEncoder` writes for `image` at
/// the quality `quality`.
pub uninterp spec fn jpeg_bytes(image: image::DynamicImage, quality: u8) -> Seq<u8>;

/// The width and the height of the picture that `image` holds, in pixels.
pub uninterp spec fn image_size(image: image::DynamicImage) -> (nat, nat);

/// The largest width and height that a JPEG stream can record.
pub const JPEG_MAX_EDGE: u32 = 65535;

/// Whether a picture of the size `size` can be written as JPEG: whether its
/// width and its height are at least one and at most `JPEG_MAX_EDGE`.
pub open spec fn fits_jpeg(size: (nat, nat)) -> bool {
    1 <= size.0 <= JPEG_MAX_EDGE && 1 <= size.1 <= JPEG_MAX_EDGE
}

/// Whether a picture of the size `size` fits the box of a thumbnail, and
/// has no edge shorter than one pixel.
pub open spec fn fits_box(size: (nat, nat)) -> bool {
    1 <= size.0 <= THUMBNAIL_EDGE && 1 <= size.1 <= THUMBNAIL_EDGE
}

/// Whether a picture of the size `scaled` keeps the aspect ratio of one of
/// the size `source`, up to one pixel of rounding on the shorter edge: the
/// products of one picture's width and the other's height differ by no
/// more than the longer edge of the source.
pub open spec fn keeps_aspect(source: (nat, nat), scaled: (nat, nat)) -> bool {
    let skew = scaled.0 * source.1 - scaled.1 * source.0;
    let longer = if source.0 >= source.1 {
        source.0
    } else {
        source.1
    };
    -longer <= skew <= longer
}

/// Whether the codec decodes the bytes `frame`.
pub open spec fn jpeg_decodes(frame: Seq<u8>) -> bool {
    decoded_image(frame) is Some
}

/// The picture of the thumbnail of a frame that the codec decodes: the
/// decoded frame, scaled to fit the box of `THUMBNAIL_EDGE` pixels.
pub open spec fn thumbnail_picture(frame: Seq<u8>) -> image::DynamicImage {
    scaled_image(decoded_image(frame).unwrap(), THUMBNAIL_EDGE, THUMBNAIL_EDGE)
}

/// The bytes of the thumbnail of a frame that the codec decodes: its
/// picture, encoded as JPEG at the quality `THUMBNAIL_QUALITY`.
pub open spec fn thumbnail_bytes(frame: Seq<u8>) -> Seq<u8> {
    jpeg_bytes(thumbnail_picture(frame), THUMBNAIL_QUALITY)
}

/// What a thumbnail is, as plain values.
pub struct ThumbnailView {
    pub bytes: Seq<u8>,
    pub file_name: Seq<char>,
}

/// The plain values of a thumbnail that may be missing.
pub open spec fn thumbnail_view(thumbnail: Option<Thumbnail>) -> Option<ThumbnailView> {
    match thumbnail {
        Some(t) => Some(ThumbnailView { bytes: t.bytes@, file_name: t.file_name@ }),
        None => None,
    }
}

/// The thumbnail that is made of what was read of the frame. There is one
/// where there is a frame and the codec decodes it: the frame's picture,
/// scaled and encoded again, under the fixed file name.
pub open spec fn thumbnail_of(frame: Option<Seq<u8>>) -> Option<ThumbnailView> {
    match frame {
        Some(bytes) => if jpeg_decodes(bytes) {
            Some(ThumbnailView { bytes: thumbnail_bytes(bytes), file_name: thumbnail_file_name() })
        } else {
            None
        },
        None => None,
    }
}

/// The bytes of a frame that may be missing, as plain values.
pub open spec fn frame_view(frame: Option<Vec<u8>>) -> Option<Seq<u8>> {
    match frame {
        Some(bytes) => Some(bytes@),
        None => None,
    }
}

/// `uuid::Uuid::new_v4`, written out in its hyphenated form. The identifier
/// is random, so nothing is claimed of its value: only that the text has
/// the shape that the crate gives to every identifier.
#[verifier::external_body]
fn fresh_token() -> (token: String)
    ensures
        is_token(token@),
{
    uuid::Uuid::new_v4().to_string()
}

/// `image::ImageReader::with_format` and `decode`, on bytes in memory and
/// with the JPEG format. There is no image where the crate reports an
/// error. The result is named: the format is given and the limits are the
/// crate's constants, so it depends on the bytes alone.
#[verifier::external_body]
fn decode_jpeg(frame: &[u8]) -> (image: Option<image::DynamicImage>)
    ensures
        image == decoded_image(frame@),
{
    image::ImageReader::with_format(std::io::Cursor::new(frame), image::ImageFormat::Jpeg)
        .decode()
        .ok()
}

/// `image::DynamicImage::thumbnail`: the image scaled to the largest size
/// that fits in `width` by `height`, its aspect ratio kept. The result is
/// named: it depends on the image and the bounds alone. Of its size it is
/// claimed that it fits in those bounds, as the crate documents, and that
/// neither of its edges is shorter than one pixel, which the crate sees to
/// when it computes the new size. It is also claimed that the aspect ratio
/// is kept up to rounding: the crate multiplies both edges by the smaller
/// of the two ratios of bound to edge and rounds each product, so that one
/// edge is its bound and the other is off by less than a pixel.
#[verifier::external_body]
fn scale_to_fit(image: &image::DynamicImage, width: u32, height: u32) -> (scaled:
    image::DynamicImage)
    requires
        width >= 1,
        height >= 1,
    ensures
        scaled == scaled_image(*image, width, height),
        1 <= image_size(scaled).0 <= width,
        1 <= image_size(scaled).1 <= height,
        keeps_aspect(image_size(*image), image_size(scaled)),
{
    image.thumbnail(width, height)
}

/// `image::DynamicImage::write_with_encoder` with a
/// `image::codecs::jpeg::JpegEncoder` of the given quality that writes to
/// memory. There are no bytes where the crate reports an error, and the one
/// error that it reports when it writes to memory is that of a size that
/// JPEG cannot record: images of other colour types than the encoder takes
/// are converted first. The bytes are named: they depend on the image and
/// the quality alone. They begin with the marker for the start of an
/// image, which the encoder writes before anything else.
#[verifier::external_body]
fn encode_jpeg(image: &image::DynamicImage, quality: u8) -> (bytes: Option<Vec<u8>>)
    ensures
        bytes is Some <==> fits_jpeg(image_size(*image)),
        bytes matches Some(b) ==> b@ == jpeg_bytes(*image, quality),
        bytes matches Some(b) ==> starts_as_jpeg(b@),
{
    let mut out: Vec<u8> = Vec::new();
    let encoder = image::codecs::jpeg::JpegEncoder::new_with_quality(&mut out, quality);
    match image.write_with_encoder(encoder) {
        Ok(()) => Some(out),
        Err(_) => None,
    }
}

/// The name of the temporary file for the token `token`.
pub fn frame_name_for(token: &str) -> (name: String)
    ensures
        name@ == frame_name(token@),
{
    let mut name = String::from_str("temp_thumb_");
    name.append(token);
    name.append(".jpg");
    name
}

/// A fresh name for the temporary file that holds the frame. The name is
/// that of some token; which one is left to chance.
pub fn temp_frame_name() -> (name: String)
    ensures
        exists|token: Seq<char>| is_token(token) && name@ == #[trigger] frame_name(token),
{
    let token = fresh_token();
    frame_name_for(token.as_str())
}

/// The call that makes the frame-extraction tool write the first frame of
/// `video` to `output`.
pub fn frame_extraction(video: &str, output: &str) -> (call: ToolCall)
    ensures
        call@ == (frame_program(), frame_args(video@, output@)),
{
    let mut args: Vec<String> = Vec::new();
    args.push(String::from_str("-hide_banner"));
    args.push(String::from_str("-v"));
    args.push(String::from_str("error"));
    args.push(String::from_str("-y"));
    args.push(String::from_str("-i"));
    args.push(String::from_str(video));
    args.push(String::from_str("-ss"));
    args.push(String::from_str("00:00:00.000"));
    args.push(String::from_str("-frames:v"));
    args.push(String::from_str("1"));
    args.push(String::from_str("-update"));
    args.push(String::from_str("1"));
    args.push(String::from_str("-q:v"));
    args.push(String::from_str("2"));
    args.push(String::from_str(output));
    assert(texts(args@) =~= frame_args(video@, output@));
    ToolCall { program: String::from_str("ffmpeg"), args }
}

/// Makes the thumbnail of an encoded image: the bytes under the fixed file
/// name. Without an image there is no thumbnail.
pub fn thumbnail_from(encoded: Option<Vec<u8>>) -> (thumbnail: Option<Thumbnail>)
    ensures
        encoded is None <==> thumbnail is None,
        encoded matches Some(bytes) ==> thumbnail matches Some(t) && t.bytes == bytes
            && t.file_name@ == thumbnail_file_name(),
{
    match encoded {
        Some(bytes) => Some(Thumbnail { bytes, file_name: String::from_str("thumb.jpg") }),
        None => None,
    }
}

/// Decodes a frame, scales it to fit the thumbnail box and encodes it as
/// JPEG. There are bytes exactly where the codec decodes the frame: what it
/// decodes is scaled to a size that can always be encoded. The bytes are
/// those of the scaled picture, which fits the box.
fn render_thumbnail(frame: &[u8]) -> (bytes: Option<Vec<u8>>)
    ensures
        bytes is Some <==> jpeg_decodes(frame@),
        bytes matches Some(b) ==> b@ == thumbnail_bytes(frame@),
        bytes matches Some(b) ==> starts_as_jpeg(b@) && fits_box(
            image_size(thumbnail_picture(frame@)),
        ) && keeps_aspect(
            image_size(decoded_image(frame@).unwrap()),
            image_size(thumbnail_picture(frame@)),
        ),
{
    match decode_jpeg(frame) {
        Some(image) => {
            let scaled = scale_to_fit(&image, THUMBNAIL_EDGE, THUMBNAIL_EDGE);
            encode_jpeg(&scaled, THUMBNAIL_QUALITY)
        },
        None => None,
    }
}

/// The thumbnail for a frame that the extraction tool wrote, or for none
/// where the tool failed or its file could not be read. There is a
/// thumbnail exactly where there is a frame and the codec decodes it. Its
/// bytes are the decoded frame, scaled to fit the box of `THUMBNAIL_EDGE`
/// pixels and encoded as JPEG at the quality `THUMBNAIL_QUALITY`; it bears
/// the fixed file name. The scaled picture fits the box and keeps the
/// frame's aspect ratio up to rounding.
pub fn generate_thumbnail(frame: Option<Vec<u8>>) -> (thumbnail: Option<Thumbnail>)
    ensures
        thumbnail_view(thumbnail) == thumbnail_of(frame_view(frame)),
        thumbnail matches Some(t) ==> starts_as_jpeg(t.bytes@),
        frame matches Some(f) ==> (jpeg_decodes(f@) ==> fits_box(
            image_size(thumbnail_picture(f@)),
        ) && keeps_aspect(
            image_size(decoded_image(f@).unwrap()),
            image_size(thumbnail_picture(f@)),
        )),
{
    match frame {
        Some(bytes) => thumbnail_from(render_thumbnail(bytes.as_slice())),
        None => None,
    }
}

/// What the driver of a frame job is to do next.
#[derive(Debug)]
pub enum FrameAction {
    /// Run the frame-extraction tool.
    Extract { call: ToolCall },
    /// Read the temporary file.
    Read { path: String },
    /// Remove the temporary file, if it is there.
    Remove { path: String },
    /// Nothing more: the job can be finished.
    Finish,
}

/// What a frame action is, as plain values.
pub enum FrameActionView {
    Extract { program: Seq<char>, args: Seq<Seq<char>> },
    Read { path: Seq<char> },
    Remove { path: Seq<char> },
    Finish,
}

impl View for FrameAction {
    type V = FrameActionView;

    open spec fn view(&self) -> FrameActionView {
        match self {
            FrameAction::Extract { call } => FrameActionView::Extract {
                program: call@.0,
                args: call@.1,
            },
            FrameAction::Read { path } => FrameActionView::Read { path: path@ },
            FrameAction::Remove { path } => FrameActionView::Remove { path: path@ },
            FrameAction::Finish => FrameActionView::Finish,
        }
    }
}

/// What an action of the driver of a frame job ended in.
#[derive(Debug)]
pub enum FrameEvent {
    /// The tool was run; `success` tells whether it started and exited
    /// with success.
    Extracted { success: bool },
    /// The temporary file was read, or could not be.
    Read { bytes: Option<Vec<u8>> },
    /// The temporary file is gone, or never was there.
    Removed,
}

/// What a frame event is, as plain values.
pub enum FrameEventView {
    Extracted { success: bool },
    Read { bytes: Option<Seq<u8>> },
    Removed,
}

impl View for FrameEvent {
    type V = FrameEventView;

    open spec fn view(&self) -> FrameEventView {
        match self {
            FrameEvent::Extracted { success } => FrameEventView::Extracted { success: *success },
            FrameEvent::Read { bytes } => FrameEventView::Read {
                bytes: match bytes {
                    Some(b) => Some(b@),
                    None => None,
                },
            },
            FrameEvent::Removed => FrameEventView::Removed,
        }
    }
}

/// Where a frame job stands: which event it waits for.
#[derive(Clone, Copy, Debug, PartialEq, Eq, Structural)]
pub enum FrameStage {
    Extracting,
    Reading,
    Removing,
    Done,
}

/// The state of a frame job, as plain values: the temporary file, the
/// stage, and the frame that was read from the file, if any.
pub struct FrameJobView {
    pub temp: Seq<char>,
    pub stage: FrameStage,
    pub frame: Option<Seq<u8>>,
}

/// Whether a frame job at `stage` waits for `event`.
pub open spec fn frame_accepts(stage: FrameStage, event: FrameEventView) -> bool {
    match stage {
        FrameStage::Extracting => event is Extracted,
        FrameStage::Reading => event is Read,
        FrameStage::Removing => event is Removed,
        FrameStage::Done => false,
    }
}

/// The state of a frame job after an event that it waits for, and the next
/// action. The file is read where the tool succeeded. Whether the tool
/// succeeded or not, and whether the file could be read or not, the file is
/// removed next; only then is the job done.
pub open spec fn frame_step_of(job: FrameJobView, event: FrameEventView) -> (
    FrameJobView,
    FrameActionView,
) {
    match event {
        FrameEventView::Extracted { success } => if success {
            (
                FrameJobView { stage: FrameStage::Reading, ..job },
                FrameActionView::Read { path: job.temp },
            )
        } else {
            (
                FrameJobView { stage: FrameStage::Removing, ..job },
                FrameActionView::Remove { path: job.temp },
            )
        },
        FrameEventView::Read { bytes } => (
            FrameJobView { stage: FrameStage::Removing, frame: bytes, ..job },
            FrameActionView::Remove { path: job.temp },
        ),
        FrameEventView::Removed => (
            FrameJobView { stage: FrameStage::Done, ..job },
            FrameActionView::Finish,
        ),
    }
}

/// The state that a sequence of events leads a frame job to, and whether
/// the removal of the temporary file has been asked for on the way. An
/// event that the job does not wait for changes nothing.
pub open spec fn frame_run(job: FrameJobView, events: Seq<FrameEventView>) -> (FrameJobView, bool)
    decreases events.len(),
{
    if events.len() == 0 {
        (job, false)
    } else {
        let before = frame_run(job, events.drop_last());
        if frame_accepts(before.0.stage, events.last()) {
            let after = frame_step_of(before.0, events.last());
            (after.0, before.1 || after.1 == FrameActionView::Remove { path: job.temp })
        } else {
            before
        }
    }
}

/// The temporary file is removed on every path: whatever the events of a
/// frame job are, it is not done, and has no frame to make a thumbnail of,
/// unless the removal of its temporary file has been asked for.
pub proof fn lemma_temp_file_is_removed(job: FrameJobView, events: Seq<FrameEventView>)
    requires
        job.stage == FrameStage::Extracting,
        job.frame is None,
    ensures
        frame_run(job, events).0.temp == job.temp,
        frame_run(job, events).0.stage == FrameStage::Done ==> frame_run(job, events).1,
        frame_run(job, events).0.stage == FrameStage::Removing ==> frame_run(job, events).1,
        frame_run(job, events).0.frame is Some ==> frame_run(job, events).1,
    decreases events.len(),
{
    if events.len() > 0 {
        lemma_temp_file_is_removed(job, events.drop_last());
    }
}

/// Makes the thumbnail of one video. The job decides; its driver runs the
/// tool and touches the file.
pub struct FrameJob {
    temp: String,
    stage: FrameStage,
    frame: Option<Vec<u8>>,
}

impl View for FrameJob {
    type V = FrameJobView;

    closed spec fn view(&self) -> FrameJobView {
        FrameJobView {
            temp: self.temp@,
            stage: self.stage,
            frame: match self.frame {
                Some(b) => Some(b@),
                None => None,
            },
        }
    }
}

impl FrameJob {
    /// Starts the job for `video`: picks a fresh temporary file and asks
    /// for the frame to be written to it.
    pub fn start(video: &str) -> (r: (FrameJob, FrameAction))
        ensures
            r.0@.stage == FrameStage::Extracting,
            r.0@.frame is None,
            exists|token: Seq<char>| is_token(token) && r.0@.temp == #[trigger] frame_name(token),
            r.1@ == (FrameActionView::Extract {
                program: frame_program(),
                args: frame_args(video@, r.0@.temp),
            }),
    {
        let temp = temp_frame_name();
        let call = frame_extraction(video, temp.as_str());
        (FrameJob { temp, stage: FrameStage::Extracting, frame: None }, FrameAction::Extract { call })
    }

    /// Takes the event that the last action ended in, and says what to do
    /// next. An event that the job does not wait for is refused, and
    /// changes nothing.
    pub fn step(&mut self, event: FrameEvent) -> (next: Option<FrameAction>)
        ensures
            next is Some <==> frame_accepts(old(self)@.stage, event@),
            match next {
                Some(action) => (final(self)@, action@) == frame_step_of(old(self)@, event@),
                None => final(self)@ == old(self)@,
            },
    {
        match event {
            FrameEvent::Extracted { success } => {
                if self.stage != FrameStage::Extracting {
                    return None;
                }
                if success {
                    self.stage = FrameStage::Reading;
                    Some(FrameAction::Read { path: self.temp.clone() })
                } else {
                    self.stage = FrameStage::Removing;
                    Some(FrameAction::Remove { path: self.temp.clone() })
                }
            },
            FrameEvent::Read { bytes } => {
                if self.stage != FrameStage::Reading {
                    return None;
                }
                self.frame = bytes;
                self.stage = FrameStage::Removing;
                Some(FrameAction::Remove { path: self.temp.clone() })
            },
            FrameEvent::Removed => {
                if self.stage != FrameStage::Removing {
                    return None;
                }
                self.stage = FrameStage::Done;
                Some(FrameAction::Finish)
            },
        }
    }

    /// The path of the temporary file.
    pub fn temp_path(&self) -> (path: &str)
        ensures
            path@ == self@.temp,
    {
        self.temp.as_str()
    }

    /// The stage that the job is in.
    pub fn stage(&self) -> (stage: FrameStage)
        ensures
            stage == self@.stage,
    {
        self.stage
    }

    /// Ends the job and makes the thumbnail. There is one exactly where
    /// the job is done, so not before the temporary file has been dealt
    /// with, and a frame was read that the codec decodes. It is the
    /// thumbnail of that frame.
    pub fn finish(self) -> (thumbnail: Option<Thumbnail>)
        ensures
            thumbnail_view(thumbnail) == if self@.stage == FrameStage::Done {
                thumbnail_of(self@.frame)
            } else {
                None
            },
            thumbnail matches Some(t) ==> starts_as_jpeg(t.bytes@),
    {
        if self.stage == FrameStage::Done {
            generate_thumbnail(self.frame)
        } else {
            None
        }
    }
}

} // verus!
