use media_dispatch::dispatch::{
    caption_due, empty_batch_message, failure_message, Action, Dispatcher, Event, Outcome, Stage,
    THROTTLE_MILLIS,
};
use media_dispatch::kind::{MediaKind, UnknownPolicy};
use media_dispatch::probe::{get_video_metadata, VideoMetadata};
use media_dispatch::request::{discover, Candidate, Enrichment, MediaFile, Mode, SendRequest};
use media_dispatch::thumbnail::Thumbnail;

fn files_of(paths: &[(&str, Option<&str>)], static_caption: &str) -> Vec<MediaFile> {
    let candidates: Vec<Candidate> = paths
        .iter()
        .map(|(p, s)| Candidate { path: p.to_string(), sidecar: s.map(|t| t.to_string()) })
        .collect();
    discover(&candidates, static_caption, UnknownPolicy::SendAsDocument)
}

fn no_enrichment() -> Enrichment {
    Enrichment {
        metadata: VideoMetadata { width: None, height: None, duration: None },
        thumbnail: None,
    }
}

fn failed(reason: &str) -> Outcome {
    Outcome::Failed { reason: reason.to_string() }
}

fn sent_request(action: Option<Action>) -> SendRequest {
    match action {
        Some(Action::Send { request }) => request,
        other => panic!("expected a send, got {:?}", other),
    }
}

fn outcome_list(dispatcher: &Dispatcher) -> Vec<(String, Option<String>)> {
    dispatcher
        .outcomes()
        .iter()
        .map(|o| {
            (
                o.path.clone(),
                match &o.outcome {
                    Outcome::Sent => None,
                    Outcome::Failed { reason } => Some(reason.clone()),
                },
            )
        })
        .collect()
}

/// Drives a sequential run to its end; `fails` tells which paths fail to send.
fn drive(mode: Mode, files: Vec<MediaFile>, fails: &[&str]) -> (Dispatcher, Vec<String>) {
    let mut log: Vec<String> = Vec::new();
    let (mut dispatcher, first) = Dispatcher::start(mode, files);
    let mut action = first;
    for _ in 0..1000 {
        let event = match action {
            Action::Enrich { path } => {
                log.push(format!("enrich {}", path));
                Event::Enriched { enrichment: no_enrichment() }
            }
            Action::Send { request } => {
                log.push(format!("send {}", request.path));
                if fails.contains(&request.path.as_str()) {
                    Event::Sent { outcome: failed("boom") }
                } else {
                    Event::Sent { outcome: Outcome::Sent }
                }
            }
            Action::SendGroup { requests } => {
                let paths: Vec<&str> = requests.iter().map(|r| r.path.as_str()).collect();
                log.push(format!("send group {}", paths.join(",")));
                if fails.is_empty() {
                    Event::Sent { outcome: Outcome::Sent }
                } else {
                    Event::Sent { outcome: failed("boom") }
                }
            }
            Action::Notify { text } => {
                log.push(format!("notify {}", text));
                Event::Notified
            }
            Action::Wait { millis } => {
                log.push(format!("wait {}", millis));
                Event::Waited
            }
            Action::ReportEmpty => {
                log.push("report empty".to_string());
                return (dispatcher, log);
            }
            Action::Finish => {
                log.push("finish".to_string());
                return (dispatcher, log);
            }
        };
        action = dispatcher.step(event).unwrap();
    }
    panic!("the run did not end");
}

#[test]
fn the_pause_is_a_little_over_a_second() {
    assert_eq!(THROTTLE_MILLIS, 1100);
}

#[test]
fn the_texts_of_the_reports() {
    assert_eq!(failure_message("b.mp4", "timeout"), "Failed to send b.mp4: timeout");
    assert_eq!(failure_message("", ""), "Failed to send : ");
    assert_eq!(empty_batch_message(), "No valid media found to send.");
}

#[test]
fn who_carries_a_caption() {
    assert!(caption_due(Mode::Group, MediaKind::Image, 0));
    assert!(caption_due(Mode::Group, MediaKind::Video, 0));
    assert!(!caption_due(Mode::Group, MediaKind::Video, 1));
    assert!(!caption_due(Mode::Group, MediaKind::Image, 7));
    assert!(caption_due(Mode::Sequential, MediaKind::Video, 0));
    assert!(caption_due(Mode::Sequential, MediaKind::Video, 5));
    assert!(!caption_due(Mode::Sequential, MediaKind::Image, 0));
    assert!(!caption_due(Mode::Sequential, MediaKind::Audio, 0));
    assert!(!caption_due(Mode::Sequential, MediaKind::Animation, 1));
    assert!(!caption_due(Mode::Sequential, MediaKind::Document, 0));
}

#[test]
fn sequential_video_carries_the_composed_caption_and_photo_none() {
    let files = files_of(&[("a.jpg", None), ("b.mp4", Some("hello "))], "#batch");
    let (mut dispatcher, first) = Dispatcher::start(Mode::Sequential, files);
    let photo = sent_request(Some(first));
    assert_eq!(photo.kind, MediaKind::Image);
    assert_eq!(photo.path, "a.jpg");
    assert_eq!(photo.caption, None);
    assert!(matches!(
        dispatcher.step(Event::Sent { outcome: Outcome::Sent }),
        Some(Action::Wait { millis: 1100 })
    ));
    match dispatcher.step(Event::Waited) {
        Some(Action::Enrich { path }) => assert_eq!(path, "b.mp4"),
        other => panic!("expected enrichment, got {:?}", other),
    }
    let video = sent_request(dispatcher.step(Event::Enriched { enrichment: no_enrichment() }));
    assert_eq!(video.kind, MediaKind::Video);
    assert_eq!(video.path, "b.mp4");
    assert_eq!(video.caption.as_deref(), Some("hello #batch"));
}

#[test]
fn group_photo_first_carries_the_caption_and_the_video_none() {
    let files = files_of(&[("a.jpg", None), ("b.mp4", Some("hello "))], "#batch");
    let (mut dispatcher, first) = Dispatcher::start(Mode::Group, files);
    match first {
        Action::Enrich { path } => assert_eq!(path, "b.mp4"),
        other => panic!("expected enrichment, got {:?}", other),
    }
    match dispatcher.step(Event::Enriched { enrichment: no_enrichment() }) {
        Some(Action::SendGroup { requests }) => {
            assert_eq!(requests.len(), 2);
            assert_eq!(requests[0].path, "a.jpg");
            assert_eq!(requests[0].kind, MediaKind::Image);
            assert_eq!(requests[0].caption.as_deref(), Some("#batch"));
            assert_eq!(requests[1].path, "b.mp4");
            assert_eq!(requests[1].kind, MediaKind::Video);
            assert_eq!(requests[1].caption, None);
        }
        other => panic!("expected the album, got {:?}", other),
    }
}

#[test]
fn video_is_sent_without_metadata_when_probing_is_unavailable() {
    let files = files_of(&[("b.mp4", None)], "");
    let (mut dispatcher, first) = Dispatcher::start(Mode::Sequential, files);
    assert!(matches!(first, Action::Enrich { .. }));
    let metadata = get_video_metadata(&None, &None);
    assert_eq!(metadata, VideoMetadata { width: None, height: None, duration: None });
    let request =
        sent_request(dispatcher.step(Event::Enriched {
            enrichment: Enrichment { metadata, thumbnail: None },
        }));
    assert_eq!(request.kind, MediaKind::Video);
    assert_eq!(request.path, "b.mp4");
    assert_eq!(request.metadata.width, None);
    assert_eq!(request.metadata.height, None);
    assert_eq!(request.metadata.duration, None);
    assert!(request.thumbnail.is_none());
    assert!(request.supports_streaming);
}

#[test]
fn enrichment_reaches_the_video_request() {
    let files = files_of(&[("b.mp4", None)], "cap");
    let (mut dispatcher, _) = Dispatcher::start(Mode::Sequential, files);
    let enrichment = Enrichment {
        metadata: VideoMetadata { width: Some(640), height: Some(360), duration: Some(12) },
        thumbnail: Some(Thumbnail { bytes: vec![1, 2], file_name: "thumb.jpg".to_string() }),
    };
    let request = sent_request(dispatcher.step(Event::Enriched { enrichment }));
    assert_eq!(
        request.metadata,
        VideoMetadata { width: Some(640), height: Some(360), duration: Some(12) }
    );
    assert_eq!(request.thumbnail.unwrap().bytes, vec![1, 2]);
    assert_eq!(request.caption.as_deref(), Some("cap"));
}

#[test]
fn a_failed_item_is_reported_and_the_rest_is_sent() {
    let files = files_of(&[("one.jpg", None), ("two.jpg", None), ("three.jpg", None)], "");
    let (dispatcher, log) = drive(Mode::Sequential, files, &["two.jpg"]);
    assert_eq!(
        log,
        vec![
            "send one.jpg",
            "wait 1100",
            "send two.jpg",
            "notify Failed to send two.jpg: boom",
            "wait 1100",
            "send three.jpg",
            "wait 1100",
            "finish",
        ]
    );
    assert!(dispatcher.is_done());
    assert_eq!(
        outcome_list(&dispatcher),
        vec![
            ("one.jpg".to_string(), None),
            ("two.jpg".to_string(), Some("boom".to_string())),
            ("three.jpg".to_string(), None),
        ]
    );
    assert_eq!(log.iter().filter(|l| l.starts_with("notify")).count(), 1);
}

#[test]
fn every_item_is_attempted_when_all_fail() {
    let files = files_of(&[("a.jpg", None), ("b.mp4", None), ("c.gif", None)], "");
    let (dispatcher, log) = drive(Mode::Sequential, files, &["a.jpg", "b.mp4", "c.gif"]);
    assert_eq!(log.iter().filter(|l| l.starts_with("send ")).count(), 3);
    assert_eq!(log.iter().filter(|l| l.starts_with("notify ")).count(), 3);
    assert_eq!(log.iter().filter(|l| l.starts_with("wait ")).count(), 3);
    let outcomes = dispatcher.into_outcomes();
    assert_eq!(outcomes.len(), 3);
    assert!(outcomes.iter().all(|o| matches!(o.outcome, Outcome::Failed { .. })));
}

#[test]
fn outcomes_follow_the_order_of_the_input() {
    let paths = ["z.mp4", "a.jpg", "m.pdf", "b.mp3", "y.gif", "c.mkv"];
    let input: Vec<(&str, Option<&str>)> = paths.iter().map(|p| (*p, None)).collect();
    let (dispatcher, _) = drive(Mode::Sequential, files_of(&input, ""), &["m.pdf"]);
    let seen: Vec<String> = dispatcher.outcomes().iter().map(|o| o.path.clone()).collect();
    assert_eq!(seen, paths);
    let (dispatcher, _) = drive(Mode::Group, files_of(&input, ""), &[]);
    let seen: Vec<String> = dispatcher.outcomes().iter().map(|o| o.path.clone()).collect();
    assert_eq!(seen, paths);
}

#[test]
fn an_empty_batch_is_reported_and_nothing_is_sent() {
    let (mut dispatcher, first) = Dispatcher::start(Mode::Sequential, Vec::new());
    assert!(matches!(first, Action::ReportEmpty));
    assert!(dispatcher.is_done());
    assert_eq!(dispatcher.stage(), Stage::Done);
    assert!(dispatcher.step(Event::Waited).is_none());
    assert!(dispatcher.step(Event::Sent { outcome: Outcome::Sent }).is_none());
    assert!(dispatcher.outcomes().is_empty());
    let (dispatcher, log) = drive(Mode::Group, Vec::new(), &[]);
    assert_eq!(log, vec!["report empty"]);
    assert!(dispatcher.is_done());
    assert_eq!(dispatcher.mode(), Mode::Group);
}

#[test]
fn the_album_goes_out_with_one_call() {
    let files = files_of(&[("a.jpg", Some("x")), ("b.mp4", None), ("c.png", None), ("d.mov", None)], "!");
    let (dispatcher, log) = drive(Mode::Group, files, &[]);
    assert_eq!(
        log,
        vec!["enrich b.mp4", "enrich d.mov", "send group a.jpg,b.mp4,c.png,d.mov", "finish"]
    );
    assert!(outcome_list(&dispatcher).iter().all(|(_, failure)| failure.is_none()));
    assert_eq!(dispatcher.outcomes().len(), 4);
}

#[test]
fn a_failed_album_fails_every_file() {
    let files = files_of(&[("a.jpg", None), ("c.png", None)], "");
    let (dispatcher, log) = drive(Mode::Group, files, &["anything"]);
    assert_eq!(log, vec!["send group a.jpg,c.png", "finish"]);
    assert_eq!(
        outcome_list(&dispatcher),
        vec![
            ("a.jpg".to_string(), Some("boom".to_string())),
            ("c.png".to_string(), Some("boom".to_string())),
        ]
    );
}

#[test]
fn an_event_that_is_not_awaited_changes_nothing() {
    let files = files_of(&[("a.jpg", None), ("b.jpg", None)], "");
    let (mut dispatcher, first) = Dispatcher::start(Mode::Sequential, files);
    assert!(matches!(first, Action::Send { .. }));
    assert_eq!(dispatcher.stage(), Stage::Sending);
    assert!(dispatcher.step(Event::Waited).is_none());
    assert!(dispatcher.step(Event::Notified).is_none());
    assert!(dispatcher.step(Event::Enriched { enrichment: no_enrichment() }).is_none());
    assert_eq!(dispatcher.stage(), Stage::Sending);
    assert!(dispatcher.outcomes().is_empty());
    assert!(matches!(
        dispatcher.step(Event::Sent { outcome: failed("no") }),
        Some(Action::Notify { .. })
    ));
    assert_eq!(dispatcher.stage(), Stage::Notifying);
    assert!(dispatcher.step(Event::Sent { outcome: Outcome::Sent }).is_none());
    assert_eq!(dispatcher.outcomes().len(), 1);
    assert!(matches!(dispatcher.step(Event::Notified), Some(Action::Wait { millis: 1100 })));
    assert_eq!(dispatcher.stage(), Stage::Throttling);
    assert!(matches!(dispatcher.step(Event::Waited), Some(Action::Send { .. })));
    assert_eq!(dispatcher.files().len(), 2);
}

#[test]
fn a_pause_follows_the_last_file_too() {
    let files = files_of(&[("a.jpg", None)], "");
    let (dispatcher, log) = drive(Mode::Sequential, files, &[]);
    assert_eq!(log, vec!["send a.jpg", "wait 1100", "finish"]);
    assert!(dispatcher.is_done());
}
