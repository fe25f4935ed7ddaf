use tuun::config::DiscordConfig;
use tuun::json::Json;
use tuun::mpv::{DURATION_ATTEMPTS, GET_DURATION, GET_PATH, PATH_ATTEMPTS};
use tuun::track::{Length, Track};
use tuun::update::{Answer, UpdateStep};

const REPORT: &str = r#"{"name": "metadata", "data": {"Title": "T", "artist": "A"}}"#;

fn json(text: &str) -> Json {
    Json::parse(text).unwrap()
}

fn told(track: &mut Track, step: UpdateStep, reply: Option<&str>) -> UpdateStep {
    let reply = reply.map(json);
    let length = Length {
        exact: String::new(),
        shown: "2.500".to_string(),
        placeholder: false,
        nanos: Some(2_500_000_000),
    };
    let answer = Answer { reply: reply.as_ref(), tag: None, length };
    track.update(step, answer, &json(REPORT), &DiscordConfig::default())
}

#[test]
fn without_metadata_nothing_is_done() {
    for message in ["null", r#"{"name": "metadata"}"#, r#"{"data": null}"#, r#"{"data": []}"#] {
        let step = UpdateStep::first(&json(message));
        assert_eq!(step, UpdateStep::Done);
        assert_eq!(step.command(), None);
    }
}

#[test]
fn metadata_is_read_in_steps() {
    let mut track = Track::default();
    let step = UpdateStep::first(&json(REPORT));
    assert_eq!(step.command().as_deref(), Some(GET_PATH));
    let step = told(&mut track, step, Some(r#"{"data": "/m/a.mp3"}"#));
    assert_eq!(step, UpdateStep::ReadTag);
    assert_eq!(step.command(), None);
    assert!(track.is_default());
    let step = told(&mut track, step, None);
    assert_eq!(step, UpdateStep::AskLength(DURATION_ATTEMPTS));
    assert_eq!(step.command().as_deref(), Some(GET_DURATION));
    assert_eq!(track.title, "T");
    assert_eq!(track.artist, "A");
    assert_eq!(track.arturl, DiscordConfig::default().fallback_art);
    assert_eq!(track.duration.exact, "1000");
    let step = told(&mut track, step, Some(r#"{"data": 2.5}"#));
    assert_eq!(step, UpdateStep::Done);
    assert_eq!(track.duration.exact, "2.5");
    assert_eq!(track.duration.shown, "2.500");
    assert_eq!(track.duration.nanos, Some(2_500_000_000));
    assert!(!track.duration.placeholder);
    let before = format!("{track:?}");
    assert_eq!(told(&mut track, step, Some(r#"{"data": 9}"#)), UpdateStep::Done);
    assert_eq!(format!("{track:?}"), before);
}

#[test]
fn the_path_is_asked_for_so_many_times() {
    let mut track = Track::default();
    let mut step = UpdateStep::first(&json(REPORT));
    for i in 0..PATH_ATTEMPTS {
        assert_eq!(step, UpdateStep::AskPath(PATH_ATTEMPTS - i));
        let reply = if i % 2 == 0 { None } else { Some("{}") };
        step = told(&mut track, step, reply);
    }
    assert_eq!(step, UpdateStep::ReadTag);
    assert!(track.is_default());
}

#[test]
fn a_length_that_is_never_told_stays() {
    let mut track = Track::default();
    let mut step = UpdateStep::ReadTag;
    let mut asked = 0;
    step = told(&mut track, step, None);
    while let UpdateStep::AskLength(_) = step {
        asked += 1;
        step = told(&mut track, step, Some(r#"{"data": null}"#));
    }
    assert_eq!(asked, DURATION_ATTEMPTS);
    assert_eq!(step, UpdateStep::Done);
    assert_eq!(track.title, "T");
    assert_eq!(track.duration.exact, "1000");
}

#[test]
fn no_reply_to_the_question_for_the_length_is_a_failure() {
    let mut track = Track::default();
    let step = told(&mut track, UpdateStep::ReadTag, None);
    let step = told(&mut track, step, Some("{}"));
    let step = told(&mut track, step, None);
    assert_eq!(step, UpdateStep::Failed);
    assert_eq!(track.title, "T");
    assert_eq!(track.duration.exact, "1000");
    assert_eq!(told(&mut track, step, Some(r#"{"data": 1}"#)), UpdateStep::Failed);
    assert_eq!(track.duration.exact, "1000");
}
