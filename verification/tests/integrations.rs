use id3::TagLike;
use tuun::config::{Config, DiscordConfig, LastFMConfig};
use tuun::integrations::{
    auth_lastfm_scrobbler, construct_small_assets, create_rpc_payload, discord_rpc, lastfm_listen,
    moments_can_be_told,
    ActivityType, ConnectStep, LastFM, LastFMError, PresenceStep, StatusDisplayType,
    LONGEST,
};
use tuun::tag::TagData;
use tuun::track::Track;

fn track() -> Track {
    Track {
        artist: "A, B".to_string(),
        title: "T".to_string(),
        album: "Al".to_string(),
        arturl: "https://art".to_string(),
        ..Track::default()
    }
}

#[test]
fn credentials_come_from_the_configuration() {
    let config = LastFMConfig {
        apikey: "k".to_string(),
        secret: "s".to_string(),
        user: "u".to_string(),
        password: "p".to_string(),
        ..LastFMConfig::default()
    };
    let expected = LastFM { apikey: "k", secret: "s", username: "u", password: "p" };
    assert_eq!(LastFM::new(&config), expected);
    assert_eq!(auth_lastfm_scrobbler(&config), Ok(expected));
}

#[test]
fn nothing_is_authenticated_without_credentials() {
    let config = LastFMConfig::default();
    assert!(LastFM::new(&config).is_default());
    assert_eq!(LastFM::new(&config), LastFM::default());
    assert_eq!(auth_lastfm_scrobbler(&config), Err(LastFMError::NoCredentials));
    assert_eq!(
        LastFMError::NoCredentials.message(),
        "Cowardly refusing to authenticate without credentials"
    );
}

#[test]
fn one_credential_is_enough_to_try() {
    for field in 0..4 {
        let mut config = LastFMConfig::default();
        let text = match field {
            0 => &mut config.apikey,
            1 => &mut config.secret,
            2 => &mut config.user,
            _ => &mut config.password,
        };
        text.push('x');
        assert!(auth_lastfm_scrobbler(&config).is_ok());
    }
}

#[test]
fn lastfm_is_told_the_primary_artist() {
    let listen = lastfm_listen(&track(), &vec![], true).unwrap();
    assert_eq!(listen.artist, "A");
    assert_eq!(listen.title, "T");
    assert_eq!(listen.album, "Al");
    let listen = lastfm_listen(&track(), &vec!["A, B".to_string()], true).unwrap();
    assert_eq!(listen.artist, "A, B");
}

#[test]
fn lastfm_is_not_told_before_authentication() {
    let refused = lastfm_listen(&track(), &vec![], false);
    assert!(matches!(refused, Err(LastFMError::NotInitialized)));
    assert_eq!(LastFMError::NotInitialized.message(), "Scrobbler is not initialized");
}

fn steps(mut step: PresenceStep, outcomes: &[bool]) -> Vec<PresenceStep> {
    let mut all = vec![step];
    for ok in outcomes {
        step = step.next(*ok);
        all.push(step);
    }
    all
}

#[test]
fn discord_is_cleared_before_it_shows_a_track() {
    let start = discord_rpc(&DiscordConfig::default(), &track());
    assert_eq!(
        steps(start, &[true, true]),
        vec![PresenceStep::Clear, PresenceStep::Show, PresenceStep::Done]
    );
}

#[test]
fn discord_is_connected_anew_where_a_step_fails() {
    let start = discord_rpc(&DiscordConfig::default(), &track());
    for last in [true, false] {
        assert_eq!(
            steps(start, &[false, false, false, false, last]),
            vec![
                PresenceStep::Clear,
                PresenceStep::ReconnectToShow,
                PresenceStep::Show,
                PresenceStep::ReconnectToShowAgain,
                PresenceStep::ShowAgain,
                PresenceStep::Done,
            ]
        );
    }
    assert_eq!(PresenceStep::Done.next(false), PresenceStep::Done);
}

#[test]
fn discord_is_left_alone_where_there_is_nothing_to_show() {
    let unused = DiscordConfig { used: false, ..DiscordConfig::default() };
    assert_eq!(discord_rpc(&unused, &track()), PresenceStep::Done);
    assert_eq!(discord_rpc(&DiscordConfig::default(), &Track::default()), PresenceStep::Done);
}

#[test]
fn every_run_of_five_steps_has_done_with_discord() {
    for bits in 0..32u32 {
        let mut presence = PresenceStep::Clear;
        let mut connection = ConnectStep::Lock;
        for i in 0..5 {
            presence = presence.next(bits >> i & 1 == 1);
            connection = connection.next(bits >> i & 1 == 1);
        }
        assert_eq!(presence, PresenceStep::Done);
        assert!(matches!(connection, ConnectStep::Connected | ConnectStep::Failed));
    }
}

#[test]
fn a_connection_is_made_in_steps() {
    let lock = ConnectStep::Lock;
    assert_eq!(lock.next(false), ConnectStep::Failed);
    let receive = lock.next(true);
    assert_eq!(receive, ConnectStep::Receive);
    assert_eq!(receive.next(true), ConnectStep::Connect);
    let close = receive.next(false);
    assert_eq!(close, ConnectStep::Close);
    assert_eq!(close.next(false), ConnectStep::Failed);
    let reconnect = close.next(true);
    assert_eq!(reconnect, ConnectStep::Reconnect);
    assert_eq!(reconnect.next(false), ConnectStep::Failed);
    let connect = reconnect.next(true);
    assert_eq!(connect, ConnectStep::Connect);
    assert_eq!(connect.next(false), ConnectStep::Failed);
    assert_eq!(connect.next(true), ConnectStep::Connected);
    assert_eq!(ConnectStep::Connected.next(false), ConnectStep::Connected);
    assert_eq!(ConnectStep::Failed.next(true), ConnectStep::Failed);
}

fn tag(publisher: Option<&str>) -> TagData {
    let mut tag = id3::Tag::new();
    if let Some(name) = publisher {
        tag.set_text("TPUB", name);
    }
    TagData::from_id3(&tag)
}

fn assets(track: &Track, tag: Option<&TagData>) -> (String, String, String) {
    let small = construct_small_assets(track, tag, &DiscordConfig::default(), &vec![]);
    (small.text, small.image, small.url)
}

#[test]
fn the_small_picture_is_configured_where_the_artist_has_none() {
    let config = DiscordConfig::default();
    let configured = (config.small_text, config.small_image, config.small_url);
    assert_eq!(assets(&track(), Some(&tag(Some("Label")))), configured);
    let mut pictured = track();
    pictured.artist_pfp = Some("https://pfp".to_string());
    assert_eq!(assets(&pictured, None), configured);
}

#[test]
fn the_small_picture_is_that_of_the_artist() {
    let mut pictured = track();
    pictured.artist_pfp = Some("https://pfp".to_string());
    let small = assets(&pictured, Some(&tag(Some("Label"))));
    let github = "https://github.com/tox-wtf/tuun".to_string();
    assert_eq!(small, ("Label".to_string(), "https://pfp".to_string(), github));
    pictured.artist_url = Some("https://artist".to_string());
    let small = assets(&pictured, Some(&tag(None)));
    let expected = ("A".to_string(), "https://pfp".to_string(), "https://artist".to_string());
    assert_eq!(small, expected);
}

fn lasting(nanos: u128) -> Track {
    let mut lasting = track();
    lasting.duration.nanos = Some(nanos);
    lasting
}

fn config() -> Config {
    Config::default_with(String::new())
}

#[test]
fn discord_shows_the_track() {
    let payload = create_rpc_payload(&lasting(2_500_000_000), None, &config(), 5_000_999_999, 1_000_000_000);
    assert_eq!(payload.state, "A, B");
    assert_eq!(payload.details, "T");
    assert_eq!(payload.large_image, "https://art");
    assert_eq!(payload.large_text, "Al");
    assert_eq!(payload.large_url, "https://art");
    assert_eq!(payload.small.text, config().discord.small_text);
    assert_eq!(payload.small.image, config().discord.small_image);
    assert_eq!(payload.small.url, config().discord.small_url);
    assert_eq!(payload.activity_type, ActivityType::Listening);
    assert_eq!(payload.status_display_type, StatusDisplayType::Details);
    assert_eq!(payload.start, 4000);
    assert_eq!(payload.end, 6500);
    assert_eq!(payload.state_url, None);
    assert_eq!(payload.details_url, None);
}

#[test]
fn the_artist_is_linked_only_where_the_title_is() {
    for (artist_url, srcurl, state_url) in [
        (None, None, None),
        (Some("https://a"), None, None),
        (None, Some("https://s"), None),
        (Some("https://a"), Some("https://s"), Some("https://a")),
    ] {
        let mut linked = track();
        linked.artist_url = artist_url.map(str::to_string);
        linked.srcurl = srcurl.map(str::to_string);
        let payload = create_rpc_payload(&linked, None, &config(), 0, 0);
        assert_eq!(payload.state_url.as_deref(), state_url);
        assert_eq!(payload.details_url.as_deref(), srcurl);
    }
}

#[test]
fn moments_are_those_of_std() {
    let longest = std::time::Duration::MAX;
    assert_eq!(LONGEST, longest.as_nanos());
    let payload = create_rpc_payload(&lasting(0), None, &config(), LONGEST, 0);
    assert_eq!(payload.start, longest.as_millis() as i64);
    assert_eq!(payload.end, payload.start);
    let payload = create_rpc_payload(&lasting(LONGEST), None, &config(), 7, 7);
    assert_eq!(payload.start, 0);
    assert_eq!(payload.end, longest.as_millis() as i64);
}

#[test]
fn a_track_of_unknown_length_lasts_a_thousand_seconds() {
    let payload = create_rpc_payload(&track(), None, &config(), 2_000_000, 0);
    assert_eq!(payload.start, 2);
    assert_eq!(payload.end, 1_000_002);
}

#[test]
fn discord_shows_the_artist_beside_the_track() {
    let mut pictured = track();
    pictured.artist_pfp = Some("https://pfp".to_string());
    let label = tag(Some("Label"));
    let payload = create_rpc_payload(&pictured, Some(&label), &config(), 0, 0);
    assert_eq!(payload.small.text, "Label");
    assert_eq!(payload.small.image, "https://pfp");
    let bare = tag(None);
    let payload = create_rpc_payload(&pictured, Some(&bare), &config(), 0, 0);
    assert_eq!(payload.small.text, "A");
}

#[test]
fn moments_that_cannot_be_told_are_known() {
    assert!(moments_can_be_told(&lasting(5), 3, 3));
    assert!(!moments_can_be_told(&lasting(5), 3, 4));
    assert!(moments_can_be_told(&lasting(5), LONGEST - 5, 0));
    assert!(!moments_can_be_told(&lasting(5), LONGEST - 4, 0));
    assert!(!moments_can_be_told(&lasting(u128::MAX), u128::MAX, 0));
    assert!(!moments_can_be_told(&lasting(0), u128::MAX, 0));
    let mut endless = track();
    endless.duration.nanos = None;
    assert!(!moments_can_be_told(&endless, 0, 0));
}
