use tuun::args::Args;
use tuun::config::GeneralConfig;
use tuun::json::Json;
use tuun::mpv::{
    album_art_flag, final_video_track, first_command, get_external_cover, get_filepath, handle_events,
    has_readable_tag, launch, load_next, prequeue, queue, set_video, starting_playlist,
    subscriptions, use_external_cover_art, video_add, CoverStep, PathError,
    QueueStep, Reaction,
    EXTERNAL_COVER_ART_SEARCH_LIMIT, GET_DURATION, GET_PATH, GET_TRACK_LIST, PLAYLIST_NEXT,
};
use tuun::track::Track;

fn json(text: &str) -> Json {
    Json::parse(text).unwrap()
}

#[test]
fn every_property_is_observed_once() {
    let commands = subscriptions();
    assert_eq!(commands.len(), 7);
    let names = ["filename", "pause", "loop-file", "mute", "playback-time", "metadata", "volume"];
    for (i, name) in names.iter().enumerate() {
        let expected = format!(r#"{{"command": ["observe_property", {}, "{name}"]}}"#, i + 1);
        assert_eq!(commands[i], expected);
    }
}

#[test]
fn commands_are_json() {
    for command in subscriptions() {
        assert!(Json::parse(&command).is_some());
    }
    for command in [GET_PATH, GET_DURATION, GET_TRACK_LIST, PLAYLIST_NEXT] {
        assert!(Json::parse(command).unwrap().get("command").is_some());
    }
    for command in [load_next("a"), video_add("a", "yes"), set_video(1)] {
        assert!(Json::parse(&command).unwrap().get("command").is_some());
    }
}

#[test]
fn events_call_for_reactions() {
    for (message, reaction) in [
        (r#"{"event": "start-file"}"#, Reaction::Ignore),
        (r#"{"event": "end-file", "reason": "quit"}"#, Reaction::Quit),
        (r#"{"event": "end-file", "reason": "eof"}"#, Reaction::Ignore),
        (r#"{"event": "end-file"}"#, Reaction::Ignore),
        (r#"{"event": "property-change", "reason": "quit"}"#, Reaction::PropertyChange),
        (r#"{"event": "seek"}"#, Reaction::Ignore),
        (r#"{"event": 1, "reason": "quit"}"#, Reaction::Ignore),
        (r#"{"reason": "quit"}"#, Reaction::Ignore),
        ("[]", Reaction::Ignore),
    ] {
        assert_eq!(handle_events(&json(message)), reaction, "{message}");
    }
}

#[test]
fn the_path_is_read_from_a_reply() {
    let reply = json(r#"{"data": "/m/a.mp3", "error": "success"}"#);
    assert_eq!(Track::query_filepath(Some(&reply)), Ok("/m/a.mp3".to_string()));
    assert_eq!(get_filepath(Some(&reply)), Some("/m/a.mp3".to_string()));
}

#[test]
fn a_missing_path_has_its_reason() {
    assert_eq!(Track::query_filepath(None), Err(PathError::Failed));
    for text in ["[]", "null", r#""data""#, "3"] {
        assert_eq!(Track::query_filepath(Some(&json(text))), Err(PathError::InvalidJson));
        assert_eq!(get_filepath(Some(&json(text))), None);
    }
    for text in ["{}", r#"{"data": null}"#, r#"{"data": 1}"#] {
        assert_eq!(Track::query_filepath(Some(&json(text))), Err(PathError::Missing));
        assert_eq!(get_filepath(Some(&json(text))), None);
    }
    assert_eq!(get_filepath(None), None);
}

#[test]
fn path_errors_are_told_in_words() {
    assert_eq!(PathError::Failed.message(), "Failed to query path");
    assert_eq!(PathError::InvalidJson.message(), "Invalid JSON");
    assert_eq!(PathError::Missing.message(), "Filename not present");
}

#[test]
fn tags_are_read_from_mp3_files() {
    assert!(has_readable_tag(Some("/m/a.mp3")));
    assert!(has_readable_tag(Some("/m/a.MP3")));
    assert!(has_readable_tag(Some("/m/a")));
    assert!(has_readable_tag(Some("/m/.flac")));
    assert!(!has_readable_tag(Some("/m/a.flac")));
    assert!(!has_readable_tag(Some("/m/a.mp3.flac")));
    assert!(!has_readable_tag(None));
}

#[test]
fn cover_art_is_the_first_entry_so_named() {
    let names = |list: &[&str]| list.iter().map(|n| Some(n.to_string())).collect::<Vec<_>>();
    assert_eq!(get_external_cover(&names(&["a.mp3", "cover.png", "cover.jpg"])), Some(1));
    assert_eq!(get_external_cover(&names(&["Cover.png", "my cover.png"])), None);
    assert_eq!(get_external_cover(&vec![None, Some("covers".to_string())]), Some(1));
    assert_eq!(get_external_cover(&vec![]), None);
}

#[test]
fn only_so_many_entries_are_looked_at() {
    assert_eq!(EXTERNAL_COVER_ART_SEARCH_LIMIT, 128);
    let mut names: Vec<Option<String>> = vec![None; 200];
    names[128] = Some("cover.png".to_string());
    assert_eq!(get_external_cover(&names), None);
    names[127] = Some("cover.png".to_string());
    assert_eq!(get_external_cover(&names), Some(127));
}

#[test]
fn moving_pictures_are_no_album_art() {
    assert_eq!(album_art_flag("/m/cover.mp4").as_deref(), Some("no"));
    assert_eq!(album_art_flag("/m/cover.gif").as_deref(), Some("no"));
    assert_eq!(album_art_flag("/m/cover.GIF").as_deref(), Some("yes"));
    assert_eq!(album_art_flag("/m/cover.png").as_deref(), Some("yes"));
    assert_eq!(album_art_flag("/m/cover"), None);
}

#[test]
fn commands_are_written_out() {
    assert_eq!(
        video_add("/m/cover.png", "yes"),
        r#"{ "command": ["video-add", "/m/cover.png", "", "", "yes"] }"#
    );
    assert_eq!(set_video(12), r#"{ "command": ["set_property", "vid", 12] }"#);
    assert_eq!(load_next("/m/a.mp3"), r#"{ "command": ["loadfile", "/m/a.mp3", "insert-next"] }"#);
}

const TRACKS: &str = r#"{"data": [
    {"id": 1, "type": "audio", "title": "artist picture"},
    {"id": 2, "type": "video", "title": "artist picture"},
    {"id": 3, "type": "video", "title": "Artist Picture"},
    {"id": 4, "type": "video", "title": "cover"},
    {"id": 5, "type": "video"}
]}"#;

#[test]
fn the_last_picture_of_the_artist_is_shown() {
    assert_eq!(final_video_track(&json(TRACKS)), Some(3));
}

#[test]
fn there_may_be_no_track_to_show() {
    for text in [
        r#"{"data": []}"#,
        r#"{"data": {}}"#,
        "{}",
        "[]",
        r#"{"data": [{"type": "video", "title": "artist picture"}]}"#,
        r#"{"data": [{"id": -1, "type": "video", "title": "artist picture"}]}"#,
        r#"{"data": [{"id": 1.5, "type": "video", "title": "artist picture"}]}"#,
        r#"{"data": [{"id": 2, "type": "video", "title": "artist picture"},
                     {"id": "3", "type": "video", "title": "artist picture"}]}"#,
    ] {
        assert_eq!(final_video_track(&json(text)), None, "{text}");
    }
}

#[test]
fn cover_art_is_added_and_shown_in_steps() {
    let reply = json("{}");
    let step = use_external_cover_art(Some("/m/cover.gif"));
    assert_eq!(step.command(), Some(video_add("/m/cover.gif", "no")));
    let step = step.next(Some(&reply));
    assert_eq!(step.command().as_deref(), Some(GET_TRACK_LIST));
    let step = step.next(Some(&json(TRACKS)));
    assert_eq!(step.command(), Some(set_video(3)));
    let step = step.next(Some(&reply));
    assert!(matches!(step, CoverStep::Done));
    assert_eq!(step.command(), None);
    assert!(matches!(step.next(None), CoverStep::Done));
}

#[test]
fn cover_art_is_given_up_where_a_step_fails() {
    assert!(matches!(use_external_cover_art(None), CoverStep::GaveUp));
    assert!(matches!(use_external_cover_art(Some("/m/cover")), CoverStep::GaveUp));
    let start = || use_external_cover_art(Some("/m/cover.png"));
    assert!(matches!(start().next(None), CoverStep::GaveUp));
    let listing = || start().next(Some(&json("{}")));
    assert!(matches!(listing().next(None), CoverStep::GaveUp));
    assert!(matches!(listing().next(Some(&json("{}"))), CoverStep::GaveUp));
    let showing = listing().next(Some(&json(TRACKS)));
    let failed = showing.next(None);
    assert!(matches!(failed, CoverStep::GaveUp));
    assert_eq!(failed.command(), None);
    assert!(matches!(failed.next(Some(&json("{}"))), CoverStep::GaveUp));
}

fn general() -> GeneralConfig {
    GeneralConfig::default_with("/music".to_string())
}

#[test]
fn the_command_line_names_the_playlist() {
    let args = Args { shuffle: None, playlist: Some("/p.tpl".to_string()) };
    assert_eq!(starting_playlist(&args, &general()), "/p.tpl");
    let args = Args { shuffle: None, playlist: None };
    assert_eq!(starting_playlist(&args, &general()), "/tmp/tuun/all.tpl");
}

#[test]
fn the_queue_goes_before_the_playlist() {
    let args = Args { shuffle: None, playlist: Some("/p.tpl".to_string()) };
    assert_eq!(prequeue(&args, &general(), false), vec!["--playlist=/p.tpl"]);
    assert_eq!(
        prequeue(&args, &general(), true),
        vec!["--playlist=/tmp/tuun/quu.tpl", "--playlist=/p.tpl"]
    );
    let args = Args { shuffle: None, playlist: None };
    assert_eq!(prequeue(&args, &general(), false), vec!["--playlist=/tmp/tuun/all.tpl"]);
}

#[test]
fn mpv_is_launched_with_arguments() {
    let args = Args { shuffle: Some(false), playlist: Some("/p.tpl".to_string()) };
    assert_eq!(
        launch(&args, &general(), true),
        vec![
            "--shuffle=no",
            "--really-quiet",
            "--geometry=350x350+1400+80",
            "--title=tuun-mpv",
            "--loop-playlist=inf",
            "--input-ipc-server=/tmp/tuun/mpvsocket",
            "--playlist=/tmp/tuun/quu.tpl",
            "--playlist=/p.tpl",
        ]
    );
}

#[test]
fn shuffling_is_configured_unless_the_command_line_says() {
    let mut general = general();
    for configured in [true, false] {
        general.shuffle = configured;
        for (asked, expected) in [(None, configured), (Some(true), true), (Some(false), false)] {
            let args = Args { shuffle: asked, playlist: None };
            let flag = if expected { "--shuffle=yes" } else { "--shuffle=no" };
            assert_eq!(launch(&args, &general, false)[0], flag);
        }
    }
}

#[test]
fn each_line_of_the_queue_is_a_song() {
    assert_eq!(queue("/a.mp3\n /b.mp3\t\r\n/c.mp3"), vec![
        load_next("/a.mp3"),
        load_next("/b.mp3"),
        load_next("/c.mp3"),
    ]);
    assert_eq!(queue("/a.mp3\n"), vec![load_next("/a.mp3")]);
    assert_eq!(queue(""), Vec::<String>::new());
    assert_eq!(queue("\n"), vec![load_next("")]);
    assert_eq!(queue("a\n\nb"), vec![load_next("a"), load_next(""), load_next("b")]);
}

#[test]
fn the_queue_has_the_lines_of_std() {
    for songs in ["", "a", "a\n", "a\n\n", "\n\na", "a\r\nb\r\n", "\r", "a\n\r", " x \n y "] {
        let expected: Vec<String> = songs.lines().map(|line| load_next(line.trim())).collect();
        assert_eq!(queue(songs), expected, "{songs:?}");
    }
}

#[test]
fn queued_songs_are_played_at_once() {
    assert_eq!(first_command(true).as_deref(), Some(r#"{ "command": ["playlist-next"] }"#));
    assert_eq!(first_command(false), None);
}

#[test]
fn the_queue_is_sent_in_order_and_removed() {
    let mut step = QueueStep::first(3);
    for i in 0..3 {
        assert_eq!(step, QueueStep::Send(i));
        assert_eq!(step.next(false, 3), QueueStep::Failed);
        step = step.next(true, 3);
    }
    assert_eq!(step, QueueStep::Remove);
    assert_eq!(step.next(false, 3), QueueStep::Failed);
    assert_eq!(step.next(true, 3), QueueStep::Queued);
    assert_eq!(QueueStep::Queued.next(false, 3), QueueStep::Queued);
    assert_eq!(QueueStep::Failed.next(true, 3), QueueStep::Failed);
}

#[test]
fn an_empty_queue_is_removed() {
    assert_eq!(QueueStep::first(0), QueueStep::Remove);
}
