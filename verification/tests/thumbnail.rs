use media_dispatch::thumbnail::{
    frame_extraction, frame_name_for, generate_thumbnail, temp_frame_name, thumbnail_from,
    FrameAction, FrameEvent, FrameJob, FrameStage, THUMBNAIL_EDGE, THUMBNAIL_QUALITY,
};

fn jpeg_of(width: u32, height: u32) -> Vec<u8> {
    let picture = image::RgbImage::from_fn(width, height, |x, y| {
        image::Rgb([(x % 256) as u8, (y % 256) as u8, ((x + y) % 256) as u8])
    });
    let mut bytes: Vec<u8> = Vec::new();
    let encoder = image::codecs::jpeg::JpegEncoder::new_with_quality(&mut bytes, 90);
    image::DynamicImage::ImageRgb8(picture).write_with_encoder(encoder).unwrap();
    bytes
}

#[test]
fn the_constants_are_those_of_the_thumbnail() {
    assert_eq!(THUMBNAIL_EDGE, 320);
    assert_eq!(THUMBNAIL_QUALITY, 100);
}

#[test]
fn the_frame_name_wraps_the_token() {
    assert_eq!(frame_name_for("abc"), "temp_thumb_abc.jpg");
    assert_eq!(frame_name_for(""), "temp_thumb_.jpg");
    assert_eq!(
        frame_name_for("67e55044-10b1-426f-9247-bb680e5fe0c8"),
        "temp_thumb_67e55044-10b1-426f-9247-bb680e5fe0c8.jpg"
    );
}

#[test]
fn different_tokens_give_different_names() {
    assert_ne!(frame_name_for("a"), frame_name_for("b"));
    assert_ne!(frame_name_for("a"), frame_name_for("a.jpg"));
}

#[test]
fn a_fresh_name_has_the_shape_of_an_identifier() {
    let name = temp_frame_name();
    assert!(name.starts_with("temp_thumb_"));
    assert!(name.ends_with(".jpg"));
    let token = &name["temp_thumb_".len()..name.len() - ".jpg".len()];
    assert_eq!(token.len(), 36);
    for (i, c) in token.chars().enumerate() {
        if i == 8 || i == 13 || i == 18 || i == 23 {
            assert_eq!(c, '-');
        } else {
            assert!(c.is_ascii_digit() || ('a'..='f').contains(&c));
        }
    }
}

#[test]
fn fresh_names_do_not_repeat() {
    let mut names: Vec<String> = Vec::new();
    for _ in 0..200 {
        let name = temp_frame_name();
        assert!(!names.contains(&name));
        names.push(name);
    }
}

#[test]
fn the_frame_tool_is_asked_for_one_frame() {
    let call = frame_extraction("in put.mp4", "temp_thumb_x.jpg");
    assert_eq!(call.program, "ffmpeg");
    assert_eq!(
        call.args,
        vec![
            "-hide_banner", "-v", "error", "-y", "-i", "in put.mp4", "-ss", "00:00:00.000",
            "-frames:v", "1", "-update", "1", "-q:v", "2", "temp_thumb_x.jpg",
        ]
    );
}

#[test]
fn encoded_bytes_become_a_thumbnail() {
    let thumbnail = thumbnail_from(Some(vec![1, 2, 3])).unwrap();
    assert_eq!(thumbnail.bytes, vec![1, 2, 3]);
    assert_eq!(thumbnail.file_name, "thumb.jpg");
    assert!(thumbnail_from(None).is_none());
}

#[test]
fn a_wide_frame_is_scaled_to_the_box() {
    let frame = jpeg_of(640, 480);
    let thumbnail = generate_thumbnail(Some(frame.clone())).unwrap();
    assert_ne!(thumbnail.bytes, frame);
    assert_eq!(thumbnail.bytes[..2], [0xFF, 0xD8]);
    let picture =
        image::load_from_memory_with_format(&thumbnail.bytes, image::ImageFormat::Jpeg).unwrap();
    assert_eq!((picture.width(), picture.height()), (320, 240));
}

#[test]
fn a_tall_frame_is_scaled_to_the_box() {
    let frame = jpeg_of(300, 900);
    let thumbnail = generate_thumbnail(Some(frame)).unwrap();
    assert_eq!(thumbnail.file_name, "thumb.jpg");
    let picture =
        image::load_from_memory_with_format(&thumbnail.bytes, image::ImageFormat::Jpeg).unwrap();
    assert_eq!((picture.width(), picture.height()), (107, 320));
}

#[test]
fn a_frame_that_does_not_decode_gives_no_thumbnail() {
    assert!(generate_thumbnail(Some(b"this is no picture".to_vec())).is_none());
    assert!(generate_thumbnail(Some(Vec::new())).is_none());
    assert!(generate_thumbnail(Some(vec![0xff, 0xd8, 0xff])).is_none());
}

#[test]
fn a_missing_frame_gives_no_thumbnail() {
    assert!(generate_thumbnail(None).is_none());
}

fn removal_of(action: Option<FrameAction>) -> String {
    match action {
        Some(FrameAction::Remove { path }) => path,
        other => panic!("expected a removal, got {:?}", other),
    }
}

#[test]
fn a_frame_job_extracts_reads_removes_and_finishes() {
    let (mut job, first) = FrameJob::start("clip.mp4");
    let temp = job.temp_path().to_string();
    assert!(temp.starts_with("temp_thumb_") && temp.ends_with(".jpg"));
    match first {
        FrameAction::Extract { call } => {
            assert_eq!(call.program, "ffmpeg");
            assert_eq!(call.args[5], "clip.mp4");
            assert_eq!(call.args[14], temp);
            assert_eq!(call.args.len(), 15);
        }
        other => panic!("expected an extraction, got {:?}", other),
    }
    assert_eq!(job.stage(), FrameStage::Extracting);
    match job.step(FrameEvent::Extracted { success: true }) {
        Some(FrameAction::Read { path }) => assert_eq!(path, temp),
        other => panic!("expected a read, got {:?}", other),
    }
    assert_eq!(job.stage(), FrameStage::Reading);
    assert_eq!(removal_of(job.step(FrameEvent::Read { bytes: Some(jpeg_of(64, 32)) })), temp);
    assert_eq!(job.stage(), FrameStage::Removing);
    assert!(matches!(job.step(FrameEvent::Removed), Some(FrameAction::Finish)));
    assert_eq!(job.stage(), FrameStage::Done);
    let thumbnail = job.finish().unwrap();
    assert_eq!(thumbnail.file_name, "thumb.jpg");
    let picture =
        image::load_from_memory_with_format(&thumbnail.bytes, image::ImageFormat::Jpeg).unwrap();
    assert_eq!((picture.width(), picture.height()), (320, 160));
}

#[test]
fn a_failed_extraction_still_removes_the_file() {
    let (mut job, _) = FrameJob::start("clip.mp4");
    let temp = job.temp_path().to_string();
    assert_eq!(removal_of(job.step(FrameEvent::Extracted { success: false })), temp);
    assert!(matches!(job.step(FrameEvent::Removed), Some(FrameAction::Finish)));
    assert!(job.finish().is_none());
}

#[test]
fn an_unreadable_frame_still_removes_the_file() {
    let (mut job, _) = FrameJob::start("clip.mp4");
    let temp = job.temp_path().to_string();
    assert!(matches!(
        job.step(FrameEvent::Extracted { success: true }),
        Some(FrameAction::Read { .. })
    ));
    assert_eq!(removal_of(job.step(FrameEvent::Read { bytes: None })), temp);
    assert!(matches!(job.step(FrameEvent::Removed), Some(FrameAction::Finish)));
    assert!(job.finish().is_none());
}

#[test]
fn a_frame_job_gives_no_thumbnail_before_the_removal() {
    let (mut job, _) = FrameJob::start("clip.mp4");
    assert!(job.step(FrameEvent::Extracted { success: true }).is_some());
    assert!(job.step(FrameEvent::Read { bytes: Some(jpeg_of(16, 16)) }).is_some());
    assert_eq!(job.stage(), FrameStage::Removing);
    assert!(job.finish().is_none());
}

#[test]
fn a_frame_job_refuses_events_out_of_turn() {
    let (mut job, _) = FrameJob::start("clip.mp4");
    assert!(job.step(FrameEvent::Removed).is_none());
    assert!(job.step(FrameEvent::Read { bytes: None }).is_none());
    assert_eq!(job.stage(), FrameStage::Extracting);
    assert!(job.step(FrameEvent::Extracted { success: false }).is_some());
    assert!(job.step(FrameEvent::Extracted { success: true }).is_none());
    assert!(job.step(FrameEvent::Removed).is_some());
    assert!(job.step(FrameEvent::Removed).is_none());
    assert_eq!(job.stage(), FrameStage::Done);
}

fn size_of(bytes: &[u8]) -> (u32, u32) {
    let picture = image::load_from_memory_with_format(bytes, image::ImageFormat::Jpeg).unwrap();
    (picture.width(), picture.height())
}

#[test]
fn every_frame_that_decodes_gives_a_thumbnail() {
    for (width, height) in [(1, 1), (1, 1000), (2000, 1), (7, 3), (320, 320), (321, 5), (4000, 3000)] {
        let thumbnail = generate_thumbnail(Some(jpeg_of(width, height)));
        assert!(thumbnail.is_some(), "no thumbnail for {} x {}", width, height);
        let (w, h) = size_of(&thumbnail.unwrap().bytes);
        assert!(1 <= w && w <= 320 && 1 <= h && h <= 320);
        let skew = i64::from(w) * i64::from(height) - i64::from(h) * i64::from(width);
        assert!(skew.abs() <= i64::from(width.max(height)));
    }
}

#[test]
fn a_narrow_frame_keeps_an_edge_of_one_pixel() {
    assert_eq!(size_of(&generate_thumbnail(Some(jpeg_of(1, 1000))).unwrap().bytes), (1, 320));
    assert_eq!(size_of(&generate_thumbnail(Some(jpeg_of(2000, 1))).unwrap().bytes), (320, 1));
}

#[test]
fn a_small_frame_is_scaled_up_to_the_box() {
    assert_eq!(size_of(&generate_thumbnail(Some(jpeg_of(32, 16))).unwrap().bytes), (320, 160));
}

#[test]
fn a_grey_frame_gives_a_thumbnail() {
    let picture = image::GrayImage::from_fn(90, 60, |x, y| image::Luma([((x * y) % 256) as u8]));
    let mut frame: Vec<u8> = Vec::new();
    let encoder = image::codecs::jpeg::JpegEncoder::new_with_quality(&mut frame, 80);
    image::DynamicImage::ImageLuma8(picture).write_with_encoder(encoder).unwrap();
    let thumbnail = generate_thumbnail(Some(frame)).unwrap();
    assert_eq!(thumbnail.bytes[..2], [0xFF, 0xD8]);
    assert_eq!(size_of(&thumbnail.bytes), (320, 213));
}

#[test]
fn a_finished_job_gives_a_thumbnail_for_every_frame_that_decodes() {
    let (mut job, _) = FrameJob::start("clip.mp4");
    assert!(job.step(FrameEvent::Extracted { success: true }).is_some());
    assert!(job.step(FrameEvent::Read { bytes: Some(jpeg_of(1, 700)) }).is_some());
    assert!(job.step(FrameEvent::Removed).is_some());
    assert_eq!(size_of(&job.finish().unwrap().bytes), (1, 320));
    let (mut job, _) = FrameJob::start("clip.mp4");
    assert!(job.step(FrameEvent::Extracted { success: true }).is_some());
    assert!(job.step(FrameEvent::Read { bytes: Some(b"no picture".to_vec()) }).is_some());
    assert!(job.step(FrameEvent::Removed).is_some());
    assert!(job.finish().is_none());
}

#[test]
fn the_thumbnail_is_the_frame_scaled_and_encoded_again() {
    for (width, height) in [(640, 480), (300, 900), (32, 16), (1, 1000)] {
        let frame = jpeg_of(width, height);
        let decoded =
            image::ImageReader::with_format(std::io::Cursor::new(&frame), image::ImageFormat::Jpeg)
                .decode()
                .unwrap();
        let scaled = decoded.thumbnail(320, 320);
        let mut expected: Vec<u8> = Vec::new();
        let encoder = image::codecs::jpeg::JpegEncoder::new_with_quality(&mut expected, 100);
        scaled.write_with_encoder(encoder).unwrap();
        let thumbnail = generate_thumbnail(Some(frame.clone())).unwrap();
        assert_eq!(thumbnail.bytes, expected);
        assert_eq!(generate_thumbnail(Some(frame)).unwrap().bytes, expected);
    }
}

#[test]
fn the_quality_and_the_box_are_those_of_the_thumbnail() {
    let frame = jpeg_of(640, 480);
    let decoded = image::load_from_memory_with_format(&frame, image::ImageFormat::Jpeg).unwrap();
    let thumbnail = generate_thumbnail(Some(frame)).unwrap();
    let mut lesser: Vec<u8> = Vec::new();
    let encoder = image::codecs::jpeg::JpegEncoder::new_with_quality(&mut lesser, 75);
    decoded.thumbnail(320, 320).write_with_encoder(encoder).unwrap();
    assert_ne!(thumbnail.bytes, lesser);
    let mut smaller: Vec<u8> = Vec::new();
    let encoder = image::codecs::jpeg::JpegEncoder::new_with_quality(&mut smaller, 100);
    decoded.thumbnail(160, 160).write_with_encoder(encoder).unwrap();
    assert_ne!(thumbnail.bytes, smaller);
}

#[test]
fn scaling_keeps_the_aspect_ratio_up_to_rounding() {
    let edges = [1u32, 2, 3, 5, 7, 64, 159, 160, 161, 319, 320, 321, 479, 640, 641, 700];
    for &width in edges.iter() {
        for &height in edges.iter() {
            let scaled = image::DynamicImage::new_luma8(width, height).thumbnail(320, 320);
            let (w, h) = (scaled.width(), scaled.height());
            assert!(1 <= w && w <= 320 && 1 <= h && h <= 320);
            assert!(w == 320 || h == 320);
            let skew = i64::from(w) * i64::from(height) - i64::from(h) * i64::from(width);
            assert!(skew.abs() <= i64::from(width.max(height)), "{} x {}", width, height);
        }
    }
    for (width, height) in [(1u32, 5000u32), (5000, 1), (3, 4001), (4001, 3), (0, 9), (9, 0), (0, 0)] {
        let scaled = image::DynamicImage::new_luma8(width, height).thumbnail(320, 320);
        let (w, h) = (scaled.width(), scaled.height());
        assert!(1 <= w && w <= 320 && 1 <= h && h <= 320);
        let skew = i64::from(w) * i64::from(height) - i64::from(h) * i64::from(width);
        assert!(skew.abs() <= i64::from(width.max(height)), "{} x {}", width, height);
    }
}
