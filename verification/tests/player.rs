use tuun::color::Theme;
use tuun::config::Config;
use tuun::json::Json;
use tuun::player::{playback_time, Action, Player, Reading};
use tuun::track::Progress;

fn config(lastfm: bool, discord: bool) -> Config {
    let mut config = Config::default_with(String::new());
    config.lastfm.used = lastfm;
    config.discord.used = discord;
    config
}

fn reading(at_start: bool, now_playing_due: bool, scrobble_due: bool) -> Reading {
    Reading {
        volume: 0,
        progress: Progress { shown: if at_start { "0.000" } else { "9.000" }.to_string(), at_start },
        now_playing_due,
        scrobble_due,
    }
}

/// What is asked for besides the refreshing of the queue, which comes first.
fn refreshed(actions: Vec<Action>) -> Vec<Action> {
    assert_eq!(actions[0], Action::RefreshQueue);
    actions[1..].to_vec()
}

fn report(player: &mut Player, message: &str) -> Vec<Action> {
    let json = Json::parse(message).unwrap();
    refreshed(player.handle_properties(&json, reading(true, true, true), &config(true, true)))
}

fn play(player: &mut Player, reading: Reading, config: &Config) -> Vec<Action> {
    let json = Json::parse(r#"{"event": "property-change", "name": "playback-time", "data": 9}"#);
    refreshed(player.handle_properties(&json.unwrap(), reading, config))
}

#[test]
fn pausing_is_noted() {
    let mut player = Player::default();
    assert!(report(&mut player, r#"{"name": "pause", "data": true}"#).is_empty());
    assert!(player.paused);
    assert!(report(&mut player, r#"{"name": "pause", "data": "no"}"#).is_empty());
    assert!(player.paused);
    assert!(report(&mut player, r#"{"name": "pause", "data": false}"#).is_empty());
    assert!(!player.paused);
}

#[test]
fn muting_is_noted() {
    let mut player = Player::default();
    assert!(report(&mut player, r#"{"name": "mute", "data": true}"#).is_empty());
    assert!(player.muted);
    assert!(report(&mut player, r#"{"name": "mute"}"#).is_empty());
    assert!(player.muted);
    assert!(report(&mut player, r#"{"name": "mute", "data": false}"#).is_empty());
    assert!(!player.muted);
}

#[test]
fn looping_is_noted() {
    for (data, looped) in [
        ("true", true),
        ("false", false),
        (r#""inf""#, true),
        (r#""no""#, false),
        ("3", false),
        ("null", false),
        (r#"["inf"]"#, false),
    ] {
        let mut player = Player { looped: !looped, ..Player::default() };
        let message = format!(r#"{{"name": "loop-file", "data": {data}}}"#);
        assert!(report(&mut player, &message).is_empty());
        assert_eq!(player.looped, looped, "{data}");
    }
    let mut player = Player { looped: true, ..Player::default() };
    report(&mut player, r#"{"name": "loop-file"}"#);
    assert!(player.looped);
}

#[test]
fn the_volume_is_noted_where_it_is_a_number() {
    let mut player = Player::default();
    let loud = || Reading { volume: 63, ..reading(false, false, false) };
    let json = Json::parse(r#"{"name": "volume", "data": 63.7}"#).unwrap();
    assert!(refreshed(player.handle_properties(&json, loud(), &config(false, false))).is_empty());
    assert_eq!(player.volume, 63);
    let json = Json::parse(r#"{"name": "volume", "data": "63"}"#).unwrap();
    let louder = Reading { volume: 99, ..reading(false, false, false) };
    assert!(refreshed(player.handle_properties(&json, louder, &config(false, false))).is_empty());
    assert_eq!(player.volume, 63);
}

#[test]
fn new_metadata_is_to_be_read() {
    let mut player = Player::default();
    assert_eq!(report(&mut player, r#"{"name": "metadata", "data": {}}"#), vec![Action::UpdateMetadata]);
    assert_eq!(report(&mut player, r#"{"name": "metadata"}"#), vec![Action::UpdateMetadata]);
}

#[test]
fn other_reports_change_nothing() {
    let mut player = Player { scrobbled: true, ..Player::default() };
    let before = format!("{player:?}");
    for message in [
        r#"{"name": "filename", "data": "a.mp3"}"#,
        r#"{"name": "speed", "data": 1}"#,
        r#"{"name": 7, "data": true}"#,
        r#"{"data": true}"#,
        "[]",
        "null",
    ] {
        assert!(report(&mut player, message).is_empty());
    }
    assert_eq!(format!("{player:?}"), before);
}

#[test]
fn all_that_is_due_is_done_in_order() {
    let mut player = Player::default();
    assert_eq!(
        play(&mut player, reading(false, true, true), &config(true, true)),
        vec![
            Action::Display,
            Action::UseExternalCoverArt,
            Action::LastfmNowPlaying,
            Action::RichPresence,
            Action::LastfmScrobble,
        ]
    );
    assert_eq!(player.track.progress.shown, "9.000");
    assert!(player.scrobbled && player.now_playing_set && player.external_cover_art_set);
}

#[test]
fn services_that_are_not_used_are_not_told() {
    let mut player = Player::default();
    assert_eq!(
        play(&mut player, reading(false, true, true), &config(false, false)),
        vec![Action::Display, Action::UseExternalCoverArt]
    );
    assert!(player.scrobbled && player.now_playing_set);
    let mut player = Player::default();
    assert_eq!(
        play(&mut player, reading(false, true, true), &config(false, true)),
        vec![Action::Display, Action::UseExternalCoverArt, Action::RichPresence]
    );
    let mut player = Player::default();
    assert_eq!(
        play(&mut player, reading(false, true, true), &config(true, false)),
        vec![
            Action::Display,
            Action::UseExternalCoverArt,
            Action::LastfmNowPlaying,
            Action::LastfmScrobble,
        ]
    );
}

#[test]
fn each_play_of_a_track_counts_once() {
    let config = config(true, true);
    let mut player = Player::default();
    let mut actions = vec![];
    for _ in 0..3 {
        actions.extend(play(&mut player, reading(true, false, false), &config));
        actions.extend(play(&mut player, reading(false, false, false), &config));
        actions.extend(report(&mut player, r#"{"name": "pause", "data": true}"#));
        actions.extend(play(&mut player, reading(false, true, false), &config));
        actions.extend(play(&mut player, reading(false, true, true), &config));
        actions.extend(play(&mut player, reading(false, true, true), &config));
    }
    let count = |wanted: Action| actions.iter().filter(|a| **a == wanted).count();
    assert_eq!(count(Action::Display), 15);
    assert_eq!(count(Action::UseExternalCoverArt), 3);
    assert_eq!(count(Action::LastfmNowPlaying), 3);
    assert_eq!(count(Action::RichPresence), 3);
    assert_eq!(count(Action::LastfmScrobble), 3);
}

#[test]
fn a_track_that_begins_is_fresh() {
    let config = config(true, true);
    let mut played = Player::default();
    play(&mut played, reading(false, true, true), &config);
    let mut fresh = Player::default();
    assert_eq!(
        play(&mut played, reading(true, true, true), &config),
        play(&mut fresh, reading(true, true, true), &config)
    );
    assert_eq!(format!("{played:?}"), format!("{fresh:?}"));
}

#[test]
fn the_queue_is_refreshed_once_at_every_report() {
    let mut player = Player::default();
    for message in [
        "null",
        r#"{"name": "filename"}"#,
        r#"{"name": "metadata"}"#,
        r#"{"name": "playback-time", "data": 3}"#,
    ] {
        let json = Json::parse(message).unwrap();
        let reading = reading(false, true, true);
        let actions = player.handle_properties(&json, reading, &config(true, true));
        assert_eq!(actions[0], Action::RefreshQueue);
        assert!(!actions[1..].contains(&Action::RefreshQueue));
    }
}

#[test]
fn a_time_that_is_no_number_is_the_start() {
    for message in [
        r#"{"name": "playback-time"}"#,
        r#"{"name": "playback-time", "data": null}"#,
        r#"{"name": "playback-time", "data": "9"}"#,
    ] {
        let json = Json::parse(message).unwrap();
        assert_eq!(playback_time(&json), "0");
        let mut player = Player::default();
        play(&mut player, reading(false, true, true), &config(true, true));
        let actions = player.handle_properties(
            &json,
            reading(false, false, false),
            &config(true, true),
        );
        assert_eq!(refreshed(actions), vec![Action::Display, Action::UseExternalCoverArt]);
        assert_eq!(player.track.progress.shown, "0.000");
        assert!(player.track.progress.at_start);
        assert!(!player.scrobbled && !player.now_playing_set);
    }
    let json = Json::parse(r#"{"name": "playback-time", "data": 1.5}"#).unwrap();
    assert_eq!(playback_time(&json), "1.5");
}

#[test]
fn the_player_is_shown_in_the_configured_colors() {
    let colors = config(false, false).color;
    let player = Player { looped: true, volume: 7, ..Player::default() };
    let theme = Theme::from_config(&colors);
    assert_eq!(player.display(&colors), player.track.format_metadata(&theme, true, false, 7));
    assert!(player.display(&colors).starts_with("\x1b[1m\x1b[38;2;205;205;221mTUUN"));
}

#[test]
fn another_track_in_between_changes_nothing() {
    let config = config(true, true);
    let mut player = Player::default();
    let mut scrobbles = 0;
    for i in 0..4 {
        player.track.title = format!("title {i}");
        let actions = play(&mut player, reading(i == 0, true, i > 0), &config);
        scrobbles += actions.iter().filter(|a| **a == Action::LastfmScrobble).count();
    }
    assert_eq!(scrobbles, 1);
    assert_eq!(player.track.title, "title 3");
}
