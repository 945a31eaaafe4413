use media_dispatch::kind::{MediaKind, UnknownPolicy};
use media_dispatch::probe::VideoMetadata;
use media_dispatch::request::{build_request, discover, media_file, Candidate, Enrichment};
use media_dispatch::thumbnail::Thumbnail;

fn candidate(path: &str, sidecar: Option<&str>) -> Candidate {
    Candidate { path: path.to_string(), sidecar: sidecar.map(|s| s.to_string()) }
}

fn absent() -> VideoMetadata {
    VideoMetadata { width: None, height: None, duration: None }
}

#[test]
fn a_media_file_is_classified_and_captioned() {
    let file = media_file("b.mp4", &Some("hello ".to_string()), "#batch");
    assert_eq!(file.path, "b.mp4");
    assert_eq!(file.kind, MediaKind::Video);
    assert_eq!(file.caption, "hello #batch");
    let file = media_file("a.JPG", &None, "#batch");
    assert_eq!(file.path, "a.JPG");
    assert_eq!(file.kind, MediaKind::Image);
    assert_eq!(file.caption, "#batch");
}

#[test]
fn discovery_keeps_the_order_and_skips_the_unknown() {
    let candidates = vec![
        candidate("z.mp4", None),
        candidate("notes.pdf", Some("x")),
        candidate("a.jpg", Some("first ")),
        candidate("README", None),
        candidate("m.gif", None),
    ];
    let files = discover(&candidates, "tail", UnknownPolicy::Skip);
    let seen: Vec<(&str, MediaKind, &str)> =
        files.iter().map(|f| (f.path.as_str(), f.kind, f.caption.as_str())).collect();
    assert_eq!(
        seen,
        vec![
            ("z.mp4", MediaKind::Video, "tail"),
            ("a.jpg", MediaKind::Image, "first tail"),
            ("m.gif", MediaKind::Animation, "tail"),
        ]
    );
}

#[test]
fn discovery_can_send_the_unknown_as_documents() {
    let candidates = vec![
        candidate("z.mp4", None),
        candidate("notes.pdf", Some("x")),
        candidate("README", None),
    ];
    let files = discover(&candidates, "", UnknownPolicy::SendAsDocument);
    let seen: Vec<(&str, MediaKind, &str)> =
        files.iter().map(|f| (f.path.as_str(), f.kind, f.caption.as_str())).collect();
    assert_eq!(
        seen,
        vec![
            ("z.mp4", MediaKind::Video, ""),
            ("notes.pdf", MediaKind::Document, "x"),
            ("README", MediaKind::Document, ""),
        ]
    );
}

#[test]
fn discovery_of_nothing_is_nothing() {
    assert!(discover(&Vec::new(), "tail", UnknownPolicy::Skip).is_empty());
    let only_unknown = vec![candidate("a.bin", None)];
    assert!(discover(&only_unknown, "tail", UnknownPolicy::Skip).is_empty());
}

#[test]
fn a_video_request_carries_what_was_found() {
    let file = media_file("b.mp4", &Some("hello ".to_string()), "#batch");
    let enrichment = Enrichment {
        metadata: VideoMetadata { width: Some(1280), height: Some(720), duration: Some(94) },
        thumbnail: Some(Thumbnail { bytes: vec![9, 8, 7], file_name: "thumb.jpg".to_string() }),
    };
    let request = build_request(&file, true, Some(enrichment));
    assert_eq!(request.kind, MediaKind::Video);
    assert_eq!(request.path, "b.mp4");
    assert_eq!(request.caption.as_deref(), Some("hello #batch"));
    assert_eq!(
        request.metadata,
        VideoMetadata { width: Some(1280), height: Some(720), duration: Some(94) }
    );
    let thumbnail = request.thumbnail.unwrap();
    assert_eq!(thumbnail.bytes, vec![9, 8, 7]);
    assert_eq!(thumbnail.file_name, "thumb.jpg");
    assert!(request.supports_streaming);
}

#[test]
fn a_video_without_enrichment_is_still_a_request() {
    let file = media_file("b.mp4", &None, "");
    let request = build_request(&file, false, None);
    assert_eq!(request.kind, MediaKind::Video);
    assert_eq!(request.caption, None);
    assert_eq!(request.metadata, absent());
    assert!(request.thumbnail.is_none());
    assert!(request.supports_streaming);
}

#[test]
fn enrichment_applies_to_videos_only() {
    let file = media_file("a.jpg", &None, "#batch");
    let enrichment = Enrichment {
        metadata: VideoMetadata { width: Some(1), height: Some(2), duration: Some(3) },
        thumbnail: Some(Thumbnail { bytes: vec![1], file_name: "thumb.jpg".to_string() }),
    };
    let request = build_request(&file, true, Some(enrichment));
    assert_eq!(request.kind, MediaKind::Image);
    assert_eq!(request.path, "a.jpg");
    assert_eq!(request.caption.as_deref(), Some("#batch"));
    assert_eq!(request.metadata, absent());
    assert!(request.thumbnail.is_none());
    assert!(!request.supports_streaming);
}

#[test]
fn a_request_without_caption_has_none() {
    let file = media_file("a.jpg", &Some("text".to_string()), "#batch");
    let request = build_request(&file, false, None);
    assert_eq!(request.caption, None);
}
