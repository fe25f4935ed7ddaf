//! The configuration: what it holds, what it holds where the file says nothing, and where the file
//! is.

use vstd::prelude::*;

use crate::paths;
use crate::text;

verus! {

broadcast use vstd::string::group_string_axioms;

/// The version of the player.
pub const VERSION: &'static str = "5.0.0";

/// How to reach Last.fm.
#[derive(Debug)]
pub struct LastFMConfig {
    pub used: bool,
    pub apikey: String,
    pub secret: String,
    pub user: String,
    pub password: String,
    /// How much of a track has to be played before it is scrobbled, in percent.
    pub scrobble_percent: u8,
}

/// How to reach Discord, and what to show there.
#[derive(Debug)]
pub struct DiscordConfig {
    pub used: bool,
    pub client_id: String,
    pub fallback_art: String,
    pub small_image: String,
    pub small_text: String,
    pub small_url: String,
    /// Timeout in milliseconds for discord ipc socket connections
    pub timeout: u64,
}

/// The colors of the display, in hexadecimal.
#[derive(Debug)]
pub struct ColorConfig {
    pub primary: String,
    pub secondary: String,
    pub tertiary: String,
}

/// What concerns the player itself.
#[derive(Debug)]
pub struct GeneralConfig {
    /// Artists whose names hold a comma.
    pub artists_with_commas: Vec<String>,
    pub shuffle: bool,
    pub playlist: String,
    pub music_dir: String,
    /// How many songs the playlist of recent songs holds at most.
    pub recent_length: usize,
    /// How long to wait between two looks for mpv's socket, in milliseconds.
    pub mpv_socket_poll_timeout: usize,
    /// How long a track has to be playing before it is announced, in milliseconds.
    pub now_playing_delay: usize,
}

/// The whole configuration.
#[derive(Debug)]
pub struct Config {
    pub lastfm: LastFMConfig,
    pub discord: DiscordConfig,
    pub general: GeneralConfig,
    pub color: ColorConfig,
}

impl LastFMConfig {
    /// The settings for Last.fm where the file says nothing.
    pub open spec fn is_default_config(self) -> bool {
        &&& !self.used
        &&& self.apikey@ == Seq::<char>::empty()
        &&& self.secret@ == Seq::<char>::empty()
        &&& self.user@ == Seq::<char>::empty()
        &&& self.password@ == Seq::<char>::empty()
        &&& self.scrobble_percent == 44
    }
}

impl Default for LastFMConfig {
    fn default() -> (config: Self)
        ensures
            config.is_default_config(),
    {
        LastFMConfig {
            used: false,
            apikey: String::new(),
            secret: String::new(),
            user: String::new(),
            password: String::new(),
            scrobble_percent: 44,
        }
    }
}

impl DiscordConfig {
    /// The settings for Discord where the file says nothing.
    pub open spec fn is_default_config(self) -> bool {
        &&& self.used
        &&& self.client_id@ == "1272345557276295310"@
        &&& self.fallback_art@
            == "https://w7.pngwing.com/pngs/387/453/png-transparent-phonograph-record-lp-record-45-rpm-album-concerts-miscellaneous-photography-sound-thumbnail.png"@
        &&& self.small_image@
            == "https://cdn.discordapp.com/avatars/495603896803262507/4c3f854b1aa44e41850908d06c17bd25"@
        &&& self.small_text@ == "tuun "@ + VERSION@
        &&& self.small_url@ == "https://github.com/tox-wtf/tuun"@
        &&& self.timeout == 100
    }
}

impl Default for DiscordConfig {
    fn default() -> (config: Self)
        ensures
            config.is_default_config(),
    {
        DiscordConfig {
            used: true,
            client_id: "1272345557276295310".to_owned(),
            fallback_art: "https://w7.pngwing.com/pngs/387/453/png-transparent-phonograph-record-lp-record-45-rpm-album-concerts-miscellaneous-photography-sound-thumbnail.png".to_owned(),
            small_image: "https://cdn.discordapp.com/avatars/495603896803262507/4c3f854b1aa44e41850908d06c17bd25".to_owned(),
            small_text: "tuun ".to_owned().concat(VERSION),
            small_url: "https://github.com/tox-wtf/tuun".to_owned(),
            timeout: 100,
        }
    }
}

impl ColorConfig {
    /// The colors where the file says nothing.
    pub open spec fn is_default_config(self) -> bool {
        &&& self.primary@ == "#cdcddd"@
        &&& self.secondary@ == "#333333"@
        &&& self.tertiary@ == "#e5e5f5"@
    }
}

impl Default for ColorConfig {
    fn default() -> (config: Self)
        ensures
            config.is_default_config(),
    {
        ColorConfig {
            primary: "#cdcddd".to_owned(),
            secondary: "#333333".to_owned(),
            tertiary: "#e5e5f5".to_owned(),
        }
    }
}

impl Clone for ColorConfig {
    fn clone(&self) -> (copy: Self)
        ensures
            copy == *self,
    {
        ColorConfig {
            primary: self.primary.clone(),
            secondary: self.secondary.clone(),
            tertiary: self.tertiary.clone(),
        }
    }
}

impl GeneralConfig {
    /// The general settings where the file says nothing, for the given music directory.
    pub open spec fn is_default_config(self, music_dir: Seq<char>) -> bool {
        &&& text::views(self.artists_with_commas@) == seq![
            "Tyler, The Creator"@,
            "Everything, Now!"@,
            "Wow, Owls!"@,
            "Go Robot, Go!"@,
            "What Price, Wonderland?"@,
            "Hey, Revolution!"@,
            "Muira,"@,
        ]
        &&& self.shuffle
        &&& self.playlist@ == "/tmp/tuun/all.tpl"@
        &&& self.music_dir@ == music_dir
        &&& self.recent_length == 350
        &&& self.mpv_socket_poll_timeout == 96
        &&& self.now_playing_delay == 2345
    }

    /// The general settings where the file says nothing, for the given music directory.
    pub fn default_with(music_dir: String) -> (config: GeneralConfig)
        ensures
            config.is_default_config(music_dir@),
    {
        let artists_with_commas: Vec<String> = vec![
            "Tyler, The Creator".to_owned(),
            "Everything, Now!".to_owned(),
            "Wow, Owls!".to_owned(),
            "Go Robot, Go!".to_owned(),
            "What Price, Wonderland?".to_owned(),
            "Hey, Revolution!".to_owned(),
            "Muira,".to_owned(),
        ];
        assert(text::views(artists_with_commas@) =~= seq![
            "Tyler, The Creator"@,
            "Everything, Now!"@,
            "Wow, Owls!"@,
            "Go Robot, Go!"@,
            "What Price, Wonderland?"@,
            "Hey, Revolution!"@,
            "Muira,"@,
        ]);
        GeneralConfig {
            artists_with_commas,
            shuffle: true,
            playlist: "/tmp/tuun/all.tpl".to_owned(),
            music_dir,
            recent_length: 350,
            mpv_socket_poll_timeout: 96,
            now_playing_delay: 2345,
        }
    }
}

/// A configured path with the first `~` and then the first `$HOME` replaced by the home directory.
pub open spec fn expanded(path: Seq<char>, home: Seq<char>) -> Seq<char> {
    text::replace_first(text::replace_first(path, "~"@, home), "$HOME"@, home)
}

/// A configured path with the first `~` and then the first `$HOME` replaced by the home directory.
fn expand(path: &str, home: &str) -> (full: String)
    ensures
        full@ == expanded(path@, home@),
{
    let without_tilde = text::replace_first_in(path, "~", home);
    text::replace_first_in(without_tilde.as_str(), "$HOME", home)
}

impl Config {
    /// The configuration where the file says nothing, for the given music directory.
    pub open spec fn is_default_config(self, music_dir: Seq<char>) -> bool {
        &&& self.lastfm.is_default_config()
        &&& self.discord.is_default_config()
        &&& self.general.is_default_config(music_dir)
        &&& self.color.is_default_config()
    }

    /// The configuration where the file says nothing, for the given music directory.
    pub fn default_with(music_dir: String) -> (config: Config)
        ensures
            config.is_default_config(music_dir@),
    {
        Config {
            lastfm: LastFMConfig::default(),
            discord: DiscordConfig::default(),
            general: GeneralConfig::default_with(music_dir),
            color: ColorConfig::default(),
        }
    }

    /// Allows `~` and `$HOME` in the paths of a configuration that was just read.
    pub fn load(read: Config, home_dir: &str) -> (config: Config)
        ensures
            config.lastfm == read.lastfm,
            config.discord == read.discord,
            config.color == read.color,
            config.general.music_dir@ == expanded(read.general.music_dir@, home_dir@),
            config.general.playlist@ == expanded(read.general.playlist@, home_dir@),
            config.general.artists_with_commas == read.general.artists_with_commas,
            config.general.shuffle == read.general.shuffle,
            config.general.recent_length == read.general.recent_length,
            config.general.mpv_socket_poll_timeout == read.general.mpv_socket_poll_timeout,
            config.general.now_playing_delay == read.general.now_playing_delay,
    {
        let mut config = read;
        config.general.music_dir = expand(config.general.music_dir.as_str(), home_dir);
        config.general.playlist = expand(config.general.playlist.as_str(), home_dir);
        config
    }
}

/// The directory of configuration files: the one that the environment names, or else the one in
/// the home directory.
pub open spec fn config_dir(
    xdg_config_home: Option<Seq<char>>,
    home_dir: Option<Seq<char>>,
) -> Option<Seq<char>> {
    match (xdg_config_home, home_dir) {
        (Some(dir), _) => Some(dir),
        (None, Some(home)) => Some(paths::joined(home, ".config"@)),
        (None, None) => None,
    }
}

/// The directory of music: the one that the environment names, or else the one in the home
/// directory.
pub open spec fn music_dir(
    xdg_music_dir: Option<Seq<char>>,
    home_dir: Option<Seq<char>>,
) -> Option<Seq<char>> {
    match (xdg_music_dir, home_dir) {
        (Some(dir), _) => Some(dir),
        (None, Some(home)) => Some(paths::joined(home, "Music"@)),
        (None, None) => None,
    }
}

/// The directory of configuration files: `XDG_CONFIG_HOME` of the environment, or else the one in
/// the home directory.
pub fn get_fallback_config_dir(
    xdg_config_home: Option<String>,
    home_dir: Option<String>,
) -> (dir: Option<String>)
    ensures
        text::opt_view(dir) == config_dir(
            text::opt_view(xdg_config_home),
            text::opt_view(home_dir),
        ),
{
    match (xdg_config_home, home_dir) {
        (Some(dir), _) => Some(dir),
        (None, Some(home)) => Some(paths::join_path(home.as_str(), ".config")),
        (None, None) => None,
    }
}

/// The directory of music: `XDG_MUSIC_DIR` of the environment, or else the one in the home
/// directory. It is for a configuration that names none.
pub fn get_fallback_music_dir(
    xdg_music_dir: Option<String>,
    home_dir: Option<String>,
) -> (dir: Option<String>)
    ensures
        text::opt_view(dir) == music_dir(text::opt_view(xdg_music_dir), text::opt_view(home_dir)),
{
    match (xdg_music_dir, home_dir) {
        (Some(dir), _) => Some(dir),
        (None, Some(home)) => Some(paths::join_path(home.as_str(), "Music")),
        (None, None) => None,
    }
}

/// Where the configuration file is, in a directory of configuration files.
pub fn config_path(config_dir: &str) -> (path: String)
    ensures
        path@ == paths::joined(config_dir@, "tuun/config.toml"@),
{
    paths::join_path(config_dir, "tuun/config.toml")
}

/// Where the configuration file to start from is, in the directory of installed data.
pub fn default_config_path(data_dir: &str) -> (path: String)
    ensures
        path@ == paths::joined(data_dir@, "default_config.toml"@),
{
    paths::join_path(data_dir, "default_config.toml")
}

/// A path that holds neither `~` nor `$HOME` stays as it is configured.
pub proof fn law_plain_paths_stay(path: Seq<char>, home: Seq<char>)
    requires
        forall|i: int| !text::occurs_at(path, "~"@, i),
        forall|i: int| !text::occurs_at(path, "$HOME"@, i),
    ensures
        expanded(path, home) == path,
{
    assert forall|i: int| !text::first_at(path, "~"@, i) by {
        assert(!text::occurs_at(path, "~"@, i));
    }
    assert forall|i: int| !text::first_at(path, "$HOME"@, i) by {
        assert(!text::occurs_at(path, "$HOME"@, i));
    }
}

/// A path that begins with `~` is in the home directory, with one `$HOME` more replaced if there is
/// one to replace.
pub proof fn law_tilde_is_home(rest: Seq<char>, home: Seq<char>)
    ensures
        expanded("~"@ + rest, home) == text::replace_first(home + rest, "$HOME"@, home),
        (forall|i: int| !text::occurs_at(home + rest, "$HOME"@, i)) ==> expanded("~"@ + rest, home)
            == home + rest,
{
    reveal_strlit("~");
    let path = "~"@ + rest;
    assert(path.subrange(0, 1) =~= "~"@);
    text::lemma_find_is(path, "~"@, 0);
    assert(path.subrange(0, 0) + home + path.subrange(1, path.len() as int) =~= home + rest);
    if forall|i: int| !text::occurs_at(home + rest, "$HOME"@, i) {
        assert forall|i: int| !text::first_at(home + rest, "$HOME"@, i) by {
            assert(!text::occurs_at(home + rest, "$HOME"@, i));
        }
    }
}

/// A path that begins with `$HOME` is in the home directory, with one `~` more replaced if there is
/// one to replace.
pub proof fn law_home_is_home(rest: Seq<char>, home: Seq<char>)
    ensures
        expanded("$HOME"@ + rest, home) == home + text::replace_first(rest, "~"@, home),
        !rest.contains('~') ==> expanded("$HOME"@ + rest, home) == home + rest,
{
    reveal_strlit("~");
    reveal_strlit("$HOME");
    let path = "$HOME"@ + rest;
    let without_tilde = "$HOME"@ + text::replace_first(rest, "~"@, home);
    assert forall|i: int| #[trigger] text::occurs_at(path, "~"@, i) == text::occurs_at(
        rest,
        "~"@,
        i - 5,
    ) by {
        if 0 <= i < path.len() {
            assert(path.subrange(i, i + 1)[0] == path[i]);
            assert(path.subrange(i, i + 1) =~= seq![path[i]]);
            assert("~"@ =~= seq!['~']);
            if i >= 5 {
                assert(rest.subrange(i - 5, i - 4) =~= seq![path[i]]);
            }
        }
    }
    match text::find(rest, "~"@) {
        Some(k) => {
            assert(text::first_at(rest, "~"@, k));
            assert(text::occurs_at(path, "~"@, k + 5));
            assert forall|j: int| 0 <= j < k + 5 implies !text::occurs_at(path, "~"@, j) by {
                if j >= 5 {
                    assert(!text::occurs_at(rest, "~"@, j - 5));
                }
            }
            text::lemma_find_is(path, "~"@, k + 5);
            assert(text::replace_first(path, "~"@, home) =~= without_tilde);
            assert(rest.subrange(k, k + 1)[0] == '~');
            assert(rest[k] == '~');
        },
        None => {
            assert forall|i: int| !text::first_at(path, "~"@, i) by {
                if text::first_at(path, "~"@, i) {
                    assert forall|j: int| 0 <= j < i - 5 implies !text::occurs_at(rest, "~"@, j) by {
                        assert(!text::occurs_at(path, "~"@, j + 5));
                    }
                    assert(text::first_at(rest, "~"@, i - 5));
                }
            }
        },
    }
    let replaced = text::replace_first(rest, "~"@, home);
    assert(text::replace_first(path, "~"@, home) == without_tilde);
    assert(without_tilde.subrange(0, 5) =~= "$HOME"@);
    text::lemma_find_is(without_tilde, "$HOME"@, 0);
    assert(without_tilde.subrange(0, 0) + home + without_tilde.subrange(
        5,
        without_tilde.len() as int,
    ) =~= home + replaced);
}

/// The first `~` of a path, wherever it stands, gives way to the home directory; nothing else but one
/// `$HOME` does.
pub proof fn law_the_first_tilde_is_expanded(front: Seq<char>, back: Seq<char>, home: Seq<char>)
    requires
        !front.contains('~'),
    ensures
        expanded(front + seq!['~'] + back, home) == text::replace_first(
            front + home + back,
            seq!['$', 'H', 'O', 'M', 'E'],
            home,
        ),
        expanded(front, home) == text::replace_first(
            front,
            seq!['$', 'H', 'O', 'M', 'E'],
            home,
        ),
{
    reveal_strlit("~");
    reveal_strlit("$HOME");
    assert("~"@ =~= seq!['~']);
    assert("$HOME"@ =~= seq!['$', 'H', 'O', 'M', 'E']);
    let path = front + seq!['~'] + back;
    assert forall|j: int| 0 <= j < front.len() implies #[trigger] path.subrange(j, j + 1)
        != seq!['~'] by {
        assert(path.subrange(j, j + 1)[0] == front[j]);
        assert(front.contains(front[j]));
    }
    text::law_the_first_occurrence_is_replaced(front, seq!['~'], back, home);
    text::lemma_absent_char(front, '~');
    text::law_nothing_else_is_replaced(front, seq!['~'], home);
}

/// The directories that the environment names are taken as they are; else they are `.config` and
/// `Music` in the home directory; and without a home directory there are none.
pub proof fn law_directories_are_fallen_back_on(
    named: Seq<char>,
    home: Option<Seq<char>>,
    base: Seq<char>,
)
    ensures
        config_dir(Some(named), home) == Some(named),
        music_dir(Some(named), home) == Some(named),
        config_dir(None, None) is None,
        music_dir(None, None) is None,
        base.len() > 0 && base[base.len() - 1] != '/' ==> {
            &&& config_dir(None, Some(base)) == Some(base + "/.config"@)
            &&& music_dir(None, Some(base)) == Some(base + "/Music"@)
        },
        config_dir(None, Some(base)) == Some(paths::joined(base, ".config"@)),
        music_dir(None, Some(base)) == Some(paths::joined(base, "Music"@)),
{
    reveal_strlit("/.config");
    reveal_strlit(".config");
    reveal_strlit("/Music");
    reveal_strlit("Music");
    assert(base.push('/') + ".config"@ =~= base + "/.config"@);
    assert(base.push('/') + "Music"@ =~= base + "/Music"@);
}

/// What a configuration holds where the file says nothing.
pub proof fn law_defaults(config: Config, music_dir: Seq<char>)
    requires
        config.is_default_config(music_dir),
    ensures
        !config.lastfm.used,
        config.lastfm.apikey@.len() == 0,
        config.lastfm.secret@.len() == 0,
        config.lastfm.user@.len() == 0,
        config.lastfm.password@.len() == 0,
        config.lastfm.scrobble_percent == 44,
        config.discord.used,
        config.discord.client_id@ == "1272345557276295310"@,
        config.discord.fallback_art@
            == "https://w7.pngwing.com/pngs/387/453/png-transparent-phonograph-record-lp-record-45-rpm-album-concerts-miscellaneous-photography-sound-thumbnail.png"@,
        config.discord.small_image@
            == "https://cdn.discordapp.com/avatars/495603896803262507/4c3f854b1aa44e41850908d06c17bd25"@,
        config.discord.small_text@ == "tuun "@ + "5.0.0"@,
        config.discord.small_url@ == "https://github.com/tox-wtf/tuun"@,
        config.discord.timeout == 100,
        text::views(config.general.artists_with_commas@) == seq![
            "Tyler, The Creator"@,
            "Everything, Now!"@,
            "Wow, Owls!"@,
            "Go Robot, Go!"@,
            "What Price, Wonderland?"@,
            "Hey, Revolution!"@,
            "Muira,"@,
        ],
        config.general.shuffle,
        config.general.playlist@ == "/tmp/tuun/all.tpl"@,
        config.general.music_dir@ == music_dir,
        config.general.recent_length == 350,
        config.general.mpv_socket_poll_timeout == 96,
        config.general.now_playing_delay == 2345,
        config.color.primary@ == "#cdcddd"@,
        config.color.secondary@ == "#333333"@,
        config.color.tertiary@ == "#e5e5f5"@,
{
}

} // verus!
