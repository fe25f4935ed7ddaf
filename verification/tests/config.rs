use tuun::config::{
    config_path, default_config_path, get_fallback_config_dir, get_fallback_music_dir, ColorConfig,
    Config, DiscordConfig, GeneralConfig, LastFMConfig, VERSION,
};

fn text(s: &str) -> Option<String> {
    Some(s.to_string())
}

#[test]
fn lastfm_is_off_unless_configured() {
    let config = LastFMConfig::default();
    assert!(!config.used);
    assert_eq!(config.apikey, "");
    assert_eq!(config.secret, "");
    assert_eq!(config.user, "");
    assert_eq!(config.password, "");
    assert_eq!(config.scrobble_percent, 44);
}

#[test]
fn discord_is_on_unless_configured() {
    let config = DiscordConfig::default();
    assert!(config.used);
    assert_eq!(config.client_id, "1272345557276295310");
    assert!(config.fallback_art.starts_with("https://w7.pngwing.com/"));
    assert!(config.small_image.ends_with("4c3f854b1aa44e41850908d06c17bd25"));
    assert_eq!(config.small_text, "tuun 5.0.0");
    assert_eq!(config.small_url, "https://github.com/tox-wtf/tuun");
    assert_eq!(config.timeout, 100);
}

#[test]
fn colors_have_defaults() {
    let config = ColorConfig::default();
    assert_eq!(config.primary, "#cdcddd");
    assert_eq!(config.secondary, "#333333");
    assert_eq!(config.tertiary, "#e5e5f5");
    let copy = config.clone();
    assert_eq!(format!("{copy:?}"), format!("{config:?}"));
}

#[test]
fn general_settings_have_defaults() {
    let config = GeneralConfig::default_with("/music".to_string());
    assert_eq!(config.artists_with_commas.len(), 7);
    assert_eq!(config.artists_with_commas[0], "Tyler, The Creator");
    assert_eq!(config.artists_with_commas[6], "Muira,");
    assert!(config.shuffle);
    assert_eq!(config.playlist, "/tmp/tuun/all.tpl");
    assert_eq!(config.music_dir, "/music");
    assert_eq!(config.recent_length, 350);
    assert_eq!(config.mpv_socket_poll_timeout, 96);
    assert_eq!(config.now_playing_delay, 2345);
}

fn loaded(music_dir: &str, playlist: &str) -> (String, String) {
    let mut read = Config::default_with(music_dir.to_string());
    read.general.playlist = playlist.to_string();
    read.lastfm.user = "~".to_string();
    let config = Config::load(read, "/home/u");
    assert_eq!(config.lastfm.user, "~");
    (config.general.music_dir, config.general.playlist)
}

#[test]
fn home_is_allowed_in_paths() {
    assert_eq!(
        loaded("~/Music", "$HOME/list.tpl"),
        ("/home/u/Music".to_string(), "/home/u/list.tpl".to_string())
    );
    assert_eq!(
        loaded("/~/~", "~$HOME$HOME"),
        ("//home/u/~".to_string(), "/home/u/home/u$HOME".to_string())
    );
}

#[test]
fn other_paths_stay() {
    assert_eq!(loaded("/m", "HOME"), ("/m".to_string(), "HOME".to_string()));
}

#[test]
fn a_home_that_names_home_is_replaced_again() {
    let mut read = Config::default_with("~/m".to_string());
    read.general.playlist = String::new();
    let config = Config::load(read, "/$HOME");
    assert_eq!(config.general.music_dir, "//$HOME/m");
}

#[test]
fn the_environment_names_the_configuration_directory() {
    assert_eq!(get_fallback_config_dir(text("/xdg"), text("/home/u")), text("/xdg"));
    assert_eq!(get_fallback_config_dir(text(""), None), text(""));
    assert_eq!(get_fallback_config_dir(None, text("/home/u")), text("/home/u/.config"));
    assert_eq!(get_fallback_config_dir(None, None), None);
}

#[test]
fn the_environment_names_the_music_directory() {
    assert_eq!(get_fallback_music_dir(text("/xdg"), text("/home/u")), text("/xdg"));
    assert_eq!(get_fallback_music_dir(None, text("/home/u/")), text("/home/u/Music"));
    assert_eq!(get_fallback_music_dir(None, None), None);
}

#[test]
fn configuration_files_have_their_places() {
    assert_eq!(config_path("/home/u/.config"), "/home/u/.config/tuun/config.toml");
    assert_eq!(default_config_path("/usr/share/data"), "/usr/share/data/default_config.toml");
    assert_eq!(VERSION, "5.0.0");
}
