//! What Last.fm and Discord are told, and in which steps.

use vstd::prelude::*;

use crate::config::Config;
use crate::config::DiscordConfig;
use crate::config::LastFMConfig;
use crate::tag;
use crate::tag::TagData;
use crate::text;
use crate::track;
use crate::track::Track;
use crate::track::TrackView;

verus! {

broadcast use vstd::string::group_string_axioms;

/// How often authentication with Last.fm is tried before something is sent there.
pub const SCROBBLER_ATTEMPTS: u32 = 3;

/// The credentials for Last.fm.
#[derive(Debug, Default, PartialEq, Eq)]
pub struct LastFM<'lfm> {
    pub apikey: &'lfm str,
    pub secret: &'lfm str,
    pub username: &'lfm str,
    pub password: &'lfm str,
}

/// Why nothing was sent to Last.fm.
#[derive(Debug, Clone, Copy, PartialEq, Eq, Structural)]
pub enum LastFMError {
    /// There are no credentials to authenticate with.
    NoCredentials,
    /// Authentication has not succeeded.
    NotInitialized,
}

impl LastFMError {
    /// The error in words.
    pub open spec fn words(self) -> Seq<char> {
        match self {
            LastFMError::NoCredentials =>
                "Cowardly refusing to authenticate without credentials"@,
            LastFMError::NotInitialized => "Scrobbler is not initialized"@,
        }
    }

    /// The error in words.
    pub fn message(&self) -> (words: String)
        ensures
            words@ == self.words(),
    {
        match self {
            LastFMError::NoCredentials =>
                "Cowardly refusing to authenticate without credentials".to_owned(),
            LastFMError::NotInitialized => "Scrobbler is not initialized".to_owned(),
        }
    }
}

impl<'lfm> LastFM<'lfm> {
    /// Whether there is nothing in the credentials.
    pub open spec fn is_blank(self) -> bool {
        &&& self.apikey@.len() == 0
        &&& self.secret@.len() == 0
        &&& self.username@.len() == 0
        &&& self.password@.len() == 0
    }

    /// The configured credentials.
    pub fn new(config: &'lfm LastFMConfig) -> (credentials: LastFM<'lfm>)
        ensures
            credentials.apikey@ == config.apikey@,
            credentials.secret@ == config.secret@,
            credentials.username@ == config.user@,
            credentials.password@ == config.password@,
    {
        LastFM {
            apikey: config.apikey.as_str(),
            secret: config.secret.as_str(),
            username: config.user.as_str(),
            password: config.password.as_str(),
        }
    }

    /// Whether there is nothing in the credentials.
    pub fn is_default(&self) -> (yes: bool)
        ensures
            yes == self.is_blank(),
    {
        self.apikey.is_empty() && self.secret.is_empty() && self.username.is_empty()
            && self.password.is_empty()
    }
}

/// Whether a configuration holds no credentials for Last.fm.
pub open spec fn lacks_credentials(config: LastFMConfig) -> bool {
    &&& config.apikey@.len() == 0
    &&& config.secret@.len() == 0
    &&& config.user@.len() == 0
    &&& config.password@.len() == 0
}

/// The credentials to authenticate with, where there are some.
pub fn auth_lastfm_scrobbler<'lfm>(config: &'lfm LastFMConfig) -> (credentials: Result<
    LastFM<'lfm>,
    LastFMError,
>)
    ensures
        match credentials {
            Ok(c) => {
                &&& !lacks_credentials(*config)
                &&& c.apikey@ == config.apikey@
                &&& c.secret@ == config.secret@
                &&& c.username@ == config.user@
                &&& c.password@ == config.password@
            },
            Err(e) => lacks_credentials(*config) && e == LastFMError::NoCredentials,
        },
{
    let credentials = LastFM::new(config);
    if credentials.is_default() {
        return Err(LastFMError::NoCredentials);
    }
    Ok(credentials)
}

/// What Last.fm is told of a track.
#[derive(Debug)]
pub struct Listen {
    pub artist: String,
    pub title: String,
    pub album: String,
}

/// What Last.fm is told of a track, if authentication has succeeded.
pub fn lastfm_listen(
    track: &Track,
    artists_with_commas: &Vec<String>,
    initialized: bool,
) -> (listen: Result<Listen, LastFMError>)
    ensures
        match listen {
            Ok(l) => {
                &&& initialized
                &&& l.artist@ == track::primary_artist(
                    track@.artist,
                    text::views(artists_with_commas@),
                )
                &&& l.title@ == track@.title
                &&& l.album@ == track@.album
            },
            Err(e) => !initialized && e == LastFMError::NotInitialized,
        },
{
    if !initialized {
        return Err(LastFMError::NotInitialized);
    }
    Ok(
        Listen {
            artist: track.get_primary_artist(artists_with_commas),
            title: track.title.clone(),
            album: track.album.clone(),
        },
    )
}

/// A step towards having Discord show a track.
#[derive(Debug, Clone, Copy, PartialEq, Eq, Structural)]
pub enum PresenceStep {
    /// Clear what is shown.
    Clear,
    /// Connect anew, because nothing could be cleared.
    ReconnectToShow,
    /// Show the track.
    Show,
    /// Connect anew, because nothing could be shown.
    ReconnectToShowAgain,
    /// Show the track, for the last time.
    ShowAgain,
    Done,
}

/// The first step towards having Discord show a track. Nothing is done where Discord is not used,
/// or for a track of which nothing is known.
pub open spec fn first_presence_step(used: bool, track: TrackView) -> PresenceStep {
    if used && !track.is_default() {
        PresenceStep::Clear
    } else {
        PresenceStep::Done
    }
}

impl PresenceStep {
    /// The step after this one, where `ok` says whether this one has succeeded.
    pub open spec fn after(self, ok: bool) -> PresenceStep {
        match self {
            PresenceStep::Clear => if ok {
                PresenceStep::Show
            } else {
                PresenceStep::ReconnectToShow
            },
            PresenceStep::ReconnectToShow => PresenceStep::Show,
            PresenceStep::Show => if ok {
                PresenceStep::Done
            } else {
                PresenceStep::ReconnectToShowAgain
            },
            PresenceStep::ReconnectToShowAgain => PresenceStep::ShowAgain,
            PresenceStep::ShowAgain => PresenceStep::Done,
            PresenceStep::Done => PresenceStep::Done,
        }
    }

    /// The step after this one, where `ok` says whether this one has succeeded.
    pub fn next(self, ok: bool) -> (step: PresenceStep)
        ensures
            step == self.after(ok),
    {
        match self {
            PresenceStep::Clear => {
                if ok {
                    PresenceStep::Show
                } else {
                    PresenceStep::ReconnectToShow
                }
            },
            PresenceStep::ReconnectToShow => PresenceStep::Show,
            PresenceStep::Show => {
                if ok {
                    PresenceStep::Done
                } else {
                    PresenceStep::ReconnectToShowAgain
                }
            },
            PresenceStep::ReconnectToShowAgain => PresenceStep::ShowAgain,
            PresenceStep::ShowAgain => PresenceStep::Done,
            PresenceStep::Done => PresenceStep::Done,
        }
    }
}

/// The first step towards having Discord show a track.
pub fn discord_rpc(config: &DiscordConfig, track: &Track) -> (step: PresenceStep)
    ensures
        step == first_presence_step(config.used, track@),
{
    if config.used && !track.is_default() {
        PresenceStep::Clear
    } else {
        PresenceStep::Done
    }
}

/// A step towards a connection with Discord.
#[derive(Debug, Clone, Copy, PartialEq, Eq, Structural)]
pub enum ConnectStep {
    /// Wait for the client to be free.
    Lock,
    /// See whether something can be received.
    Receive,
    /// Close the connection. That there is none counts as success.
    Close,
    /// Connect in place of the connection that was closed.
    Reconnect,
    Connect,
    Connected,
    Failed,
}

impl ConnectStep {
    /// The step after this one, where `ok` says whether this one has succeeded.
    pub open spec fn after(self, ok: bool) -> ConnectStep {
        match (self, ok) {
            (ConnectStep::Lock, true) => ConnectStep::Receive,
            (ConnectStep::Receive, true) => ConnectStep::Connect,
            (ConnectStep::Receive, false) => ConnectStep::Close,
            (ConnectStep::Close, true) => ConnectStep::Reconnect,
            (ConnectStep::Reconnect, true) => ConnectStep::Connect,
            (ConnectStep::Connect, true) => ConnectStep::Connected,
            (ConnectStep::Connected, _) => ConnectStep::Connected,
            _ => ConnectStep::Failed,
        }
    }

    /// The step after this one, where `ok` says whether this one has succeeded.
    pub fn next(self, ok: bool) -> (step: ConnectStep)
        ensures
            step == self.after(ok),
    {
        match (self, ok) {
            (ConnectStep::Lock, true) => ConnectStep::Receive,
            (ConnectStep::Receive, true) => ConnectStep::Connect,
            (ConnectStep::Receive, false) => ConnectStep::Close,
            (ConnectStep::Close, true) => ConnectStep::Reconnect,
            (ConnectStep::Reconnect, true) => ConnectStep::Connect,
            (ConnectStep::Connect, true) => ConnectStep::Connected,
            (ConnectStep::Connected, _) => ConnectStep::Connected,
            _ => ConnectStep::Failed,
        }
    }
}

/// The small picture beside a track on Discord.
#[derive(Debug)]
pub struct SmallAssets {
    pub text: String,
    pub image: String,
    pub url: String,
}

/// The small picture beside a track: its text, its image and its URL.
pub open spec fn small_assets(
    track: TrackView,
    tag: Option<Seq<tag::FrameView>>,
    config: DiscordConfig,
    artists_with_commas: Seq<Seq<char>>,
) -> (Seq<char>, Seq<char>, Seq<char>) {
    match (tag, track.artist_pfp) {
        (Some(frames), Some(picture)) => (
            match track::organization(frames) {
                Some(name) => name,
                None => track::primary_artist(track.artist, artists_with_commas),
            },
            picture,
            match track.artist_url {
                Some(url) => url,
                None => config.small_url@,
            },
        ),
        _ => (config.small_text@, config.small_image@, config.small_url@),
    }
}

/// The small picture beside a track: that of its artist, where its tag and the picture are there,
/// and else the configured one.
pub fn construct_small_assets(
    track: &Track,
    tag: Option<&TagData>,
    config: &DiscordConfig,
    artists_with_commas: &Vec<String>,
) -> (assets: SmallAssets)
    ensures
        (assets.text@, assets.image@, assets.url@) == small_assets(
            track@,
            track::tag_view(tag),
            *config,
            text::views(artists_with_commas@),
        ),
{
    match (tag, &track.artist_pfp) {
        (Some(t), Some(picture)) => {
            let url = match &track.artist_url {
                Some(u) => u.clone(),
                None => config.small_url.clone(),
            };
            let name = match Track::get_organization(t) {
                Some(org) => org,
                None => track.get_primary_artist(artists_with_commas),
            };
            SmallAssets { text: name, image: picture.clone(), url }
        },
        _ => SmallAssets {
            text: config.small_text.clone(),
            image: config.small_image.clone(),
            url: config.small_url.clone(),
        },
    }
}

/// What Discord says is done with a track.
#[derive(Debug, Clone, Copy, PartialEq, Eq, Structural)]
pub enum ActivityType {
    Playing,
    Listening,
    Watching,
    Competing,
}

/// What Discord shows of a track where there is room for little.
#[derive(Debug, Clone, Copy, PartialEq, Eq, Structural)]
pub enum StatusDisplayType {
    Name,
    State,
    Details,
}

/// What Discord shows of a track.
#[derive(Debug)]
pub struct Presence {
    pub state: String,
    pub state_url: Option<String>,
    pub details: String,
    pub details_url: Option<String>,
    pub large_image: String,
    pub large_text: String,
    pub large_url: String,
    pub small: SmallAssets,
    pub activity_type: ActivityType,
    pub status_display_type: StatusDisplayType,
    /// When the track began, in milliseconds since the epoch.
    pub start: i64,
    /// When the track ends, in milliseconds since the epoch.
    pub end: i64,
}

/// The longest span of time that can be told, in nanoseconds: as many seconds as 64 bits hold.
pub const LONGEST: u128 = 18446744073709551615999999999;

/// A moment in milliseconds, in 64 bits.
pub open spec fn millis(nanos: int) -> i64 {
    (nanos / 1_000_000) as i64
}

/// Whether the moments at which a track begins and ends can be told: `now` is the time since the
/// epoch, and `now_ago` how long before it the track began, both in nanoseconds.
pub open spec fn can_be_told(track: TrackView, now: u128, now_ago: u128) -> bool {
    &&& now_ago <= now
    &&& track.duration.nanos matches Some(length) && now - now_ago + length <= LONGEST
}

/// Whether the moments at which a track begins and ends can be told.
pub fn moments_can_be_told(track: &Track, now: u128, now_ago: u128) -> (yes: bool)
    ensures
        yes == can_be_told(track@, now, now_ago),
{
    match track.duration.nanos {
        Some(length) => now_ago <= now && now - now_ago <= LONGEST && length <= LONGEST - (now
            - now_ago),
        None => false,
    }
}

/// What Discord shows of a track, whose tag may be missing.
///
/// `now` is the time since the epoch and `now_ago` how long before it the track began, both in
/// nanoseconds. The track ends when it has been played for its length. The artist is linked only
/// where the title is.
pub fn create_rpc_payload(
    track: &Track,
    tag: Option<&TagData>,
    config: &Config,
    now: u128,
    now_ago: u128,
) -> (payload: Presence)
    requires
        can_be_told(track@, now, now_ago),
    ensures
        payload.state@ == track@.artist,
        text::opt_view(payload.state_url) == if track@.srcurl is Some {
            track@.artist_url
        } else {
            None
        },
        payload.details@ == track@.title,
        text::opt_view(payload.details_url) == track@.srcurl,
        payload.large_image@ == track@.arturl,
        payload.large_text@ == track@.album,
        payload.large_url@ == track@.arturl,
        (payload.small.text@, payload.small.image@, payload.small.url@) == small_assets(
            track@,
            track::tag_view(tag),
            config.discord,
            text::views(config.general.artists_with_commas@),
        ),
        payload.activity_type == ActivityType::Listening,
        payload.status_display_type == StatusDisplayType::Details,
        payload.start == millis(now - now_ago),
        payload.end == millis(now - now_ago + track@.duration.nanos->0),
{
    let length: u128 = match track.duration.nanos {
        Some(nanos) => nanos,
        None => 0,
    };
    let start: u128 = now - now_ago;
    let end: u128 = start + length;
    let details_url: Option<String> = match &track.srcurl {
        Some(u) => Some(u.clone()),
        None => None,
    };
    let state_url: Option<String> = match (&track.artist_url, &track.srcurl) {
        (Some(u), Some(_)) => Some(u.clone()),
        _ => None,
    };
    Presence {
        state: track.artist.clone(),
        state_url,
        details: track.title.clone(),
        details_url,
        large_image: track.arturl.clone(),
        large_text: track.album.clone(),
        large_url: track.arturl.clone(),
        small: construct_small_assets(
            track,
            tag,
            &config.discord,
            &config.general.artists_with_commas,
        ),
        activity_type: ActivityType::Listening,
        status_display_type: StatusDisplayType::Details,
        start: (start / 1_000_000) as i64,
        end: (end / 1_000_000) as i64,
    }
}

/// The steps towards having Discord show a track, where `outcomes` says of each in turn whether it
/// succeeds.
pub open spec fn presence_steps(step: PresenceStep, outcomes: Seq<bool>) -> PresenceStep
    decreases outcomes.len(),
{
    if outcomes.len() == 0 {
        step
    } else {
        presence_steps(step, outcomes.drop_last()).after(outcomes.last())
    }
}

/// How far a step is from the end.
spec fn presence_distance(step: PresenceStep) -> int {
    match step {
        PresenceStep::Clear => 5,
        PresenceStep::ReconnectToShow => 4,
        PresenceStep::Show => 3,
        PresenceStep::ReconnectToShowAgain => 2,
        PresenceStep::ShowAgain => 1,
        PresenceStep::Done => 0,
    }
}

proof fn lemma_presence_comes_closer(step: PresenceStep, outcomes: Seq<bool>)
    ensures
        presence_distance(presence_steps(step, outcomes)) == 0 || presence_distance(
            presence_steps(step, outcomes),
        ) <= presence_distance(step) - outcomes.len(),
    decreases outcomes.len(),
{
    if outcomes.len() > 0 {
        lemma_presence_comes_closer(step, outcomes.drop_last());
    }
}

/// Whatever succeeds or fails, five steps are enough to have done with Discord.
pub proof fn law_presence_ends(used: bool, track: TrackView, outcomes: Seq<bool>)
    requires
        outcomes.len() >= 5,
    ensures
        presence_steps(first_presence_step(used, track), outcomes) == PresenceStep::Done,
{
    lemma_presence_comes_closer(first_presence_step(used, track), outcomes);
}

/// Discord is left alone where it is not used, and for a track of which nothing is known.
pub proof fn law_unknown_tracks_are_not_shown(used: bool, track: TrackView, outcomes: Seq<bool>)
    requires
        !used || track.is_default(),
    ensures
        presence_steps(first_presence_step(used, track), outcomes) == PresenceStep::Done,
    decreases outcomes.len(),
{
    if outcomes.len() > 0 {
        law_unknown_tracks_are_not_shown(used, track, outcomes.drop_last());
    }
}

/// The steps towards a connection, where `outcomes` says of each in turn whether it succeeds.
pub open spec fn connect_steps(step: ConnectStep, outcomes: Seq<bool>) -> ConnectStep
    decreases outcomes.len(),
{
    if outcomes.len() == 0 {
        step
    } else {
        connect_steps(step, outcomes.drop_last()).after(outcomes.last())
    }
}

/// How far a step is from the end.
spec fn connect_distance(step: ConnectStep) -> int {
    match step {
        ConnectStep::Lock => 5,
        ConnectStep::Receive => 4,
        ConnectStep::Close => 3,
        ConnectStep::Reconnect => 2,
        ConnectStep::Connect => 1,
        ConnectStep::Connected => 0,
        ConnectStep::Failed => 0,
    }
}

proof fn lemma_connection_comes_closer(step: ConnectStep, outcomes: Seq<bool>)
    ensures
        connect_distance(connect_steps(step, outcomes)) == 0 || connect_distance(
            connect_steps(step, outcomes),
        ) <= connect_distance(step) - outcomes.len(),
    decreases outcomes.len(),
{
    if outcomes.len() > 0 {
        lemma_connection_comes_closer(step, outcomes.drop_last());
    }
}

/// Whatever succeeds or fails, five steps are enough to be connected or to have failed.
pub proof fn law_connecting_ends(outcomes: Seq<bool>)
    requires
        outcomes.len() >= 5,
    ensures
        ({
            let end = connect_steps(ConnectStep::Lock, outcomes);
            end == ConnectStep::Connected || end == ConnectStep::Failed
        }),
{
    lemma_connection_comes_closer(ConnectStep::Lock, outcomes);
}

/// A configuration that says nothing of Last.fm holds no credentials.
pub proof fn law_default_holds_no_credentials(config: LastFMConfig)
    requires
        config.is_default_config(),
    ensures
        lacks_credentials(config),
{
}

/// A track does not end before it begins, as long as both moments fit.
pub proof fn law_tracks_end_after_they_begin(begin: int, length: int)
    requires
        0 <= begin,
        0 <= length,
        (begin + length) / 1_000_000 <= i64::MAX,
    ensures
        millis(begin) == begin / 1_000_000,
        millis(begin + length) == (begin + length) / 1_000_000,
        millis(begin) <= millis(begin + length),
{
}

/// There are no credentials exactly if all four texts are empty.
pub proof fn law_credentials_are_missing(config: LastFMConfig, credentials: LastFM)
    ensures
        lacks_credentials(config) <==> config.apikey@ == Seq::<char>::empty() && config.secret@
            == Seq::<char>::empty() && config.user@ == Seq::<char>::empty() && config.password@
            == Seq::<char>::empty(),
        credentials.is_blank() <==> credentials.apikey@ == Seq::<char>::empty()
            && credentials.secret@ == Seq::<char>::empty() && credentials.username@ == Seq::<
            char,
        >::empty() && credentials.password@ == Seq::<char>::empty(),
        SCROBBLER_ATTEMPTS == 3,
{
    assert(config.apikey@.len() == 0 ==> config.apikey@ =~= Seq::<char>::empty());
    assert(config.secret@.len() == 0 ==> config.secret@ =~= Seq::<char>::empty());
    assert(config.user@.len() == 0 ==> config.user@ =~= Seq::<char>::empty());
    assert(config.password@.len() == 0 ==> config.password@ =~= Seq::<char>::empty());
    assert(credentials.apikey@.len() == 0 ==> credentials.apikey@ =~= Seq::<char>::empty());
    assert(credentials.secret@.len() == 0 ==> credentials.secret@ =~= Seq::<char>::empty());
    assert(credentials.username@.len() == 0 ==> credentials.username@ =~= Seq::<char>::empty());
    assert(credentials.password@.len() == 0 ==> credentials.password@ =~= Seq::<char>::empty());
}

/// Discord is asked to show a track exactly if it is used and something is known of the track. What
/// is shown is cleared first, then the track is shown; where one of the two fails, the connection is
/// made anew, and showing is tried once more where showing has failed.
pub proof fn law_presence_steps(used: bool, track: TrackView, ok: bool)
    ensures
        first_presence_step(used, track) == PresenceStep::Clear <==> used && !track.is_default(),
        first_presence_step(used, track) == PresenceStep::Done <==> !used || track.is_default(),
        PresenceStep::Clear.after(true) == PresenceStep::Show,
        PresenceStep::Clear.after(false) == PresenceStep::ReconnectToShow,
        PresenceStep::ReconnectToShow.after(ok) == PresenceStep::Show,
        PresenceStep::Show.after(true) == PresenceStep::Done,
        PresenceStep::Show.after(false) == PresenceStep::ReconnectToShowAgain,
        PresenceStep::ReconnectToShowAgain.after(ok) == PresenceStep::ShowAgain,
        PresenceStep::ShowAgain.after(ok) == PresenceStep::Done,
        PresenceStep::Done.after(ok) == PresenceStep::Done,
{
}

/// A connection is there once the client is free and connecting has succeeded; where nothing can be
/// received, the old connection is closed and replaced first. All other failures are final.
pub proof fn law_connect_steps(ok: bool)
    ensures
        ConnectStep::Lock.after(true) == ConnectStep::Receive,
        ConnectStep::Lock.after(false) == ConnectStep::Failed,
        ConnectStep::Receive.after(true) == ConnectStep::Connect,
        ConnectStep::Receive.after(false) == ConnectStep::Close,
        ConnectStep::Close.after(true) == ConnectStep::Reconnect,
        ConnectStep::Close.after(false) == ConnectStep::Failed,
        ConnectStep::Reconnect.after(true) == ConnectStep::Connect,
        ConnectStep::Reconnect.after(false) == ConnectStep::Failed,
        ConnectStep::Connect.after(true) == ConnectStep::Connected,
        ConnectStep::Connect.after(false) == ConnectStep::Failed,
        ConnectStep::Connected.after(ok) == ConnectStep::Connected,
        ConnectStep::Failed.after(ok) == ConnectStep::Failed,
{
}

/// The small picture is that of the artist exactly if the track has a tag and the artist a picture.
/// Its text is then the organization, or the primary artist where the tag names none, and its URL
/// that of the artist, or the configured one.
pub proof fn law_small_pictures(
    track: TrackView,
    frames: Seq<tag::FrameView>,
    tag: Option<Seq<tag::FrameView>>,
    config: DiscordConfig,
    artists_with_commas: Seq<Seq<char>>,
    picture: Seq<char>,
)
    ensures
        tag is None || track.artist_pfp is None ==> small_assets(
            track,
            tag,
            config,
            artists_with_commas,
        ) == (config.small_text@, config.small_image@, config.small_url@),
        track.artist_pfp == Some(picture) ==> {
            let (text, image, url) = small_assets(
                track,
                Some(frames),
                config,
                artists_with_commas,
            );
            &&& image == picture
            &&& track::organization(frames) matches Some(name) ==> text == name
            &&& track::organization(frames) is None ==> text == track::primary_artist(
                track.artist,
                artists_with_commas,
            )
            &&& track.artist_url matches Some(page) ==> url == page
            &&& track.artist_url is None ==> url == config.small_url@
        },
{
}

/// A moment in milliseconds is in front of its nanoseconds by less than a millisecond, as long as it
/// fits.
pub proof fn law_moments_are_told_in_milliseconds(nanos: int)
    requires
        0 <= nanos,
        nanos / 1_000_000 <= i64::MAX,
    ensures
        1_000_000 * millis(nanos) <= nanos < 1_000_000 * (millis(nanos) + 1),
        LONGEST == 18446744073709551615999999999,
{
}

/// The moments of a track can be told exactly if it does not begin before the epoch, its length is a
/// span of time, and it ends within the longest span of time.
pub proof fn law_moments_that_can_be_told(track: TrackView, now: u128, now_ago: u128, length: u128)
    ensures
        track.duration.nanos is None ==> !can_be_told(track, now, now_ago),
        track.duration.nanos == Some(length) ==> (can_be_told(track, now, now_ago) <==> now_ago
            <= now && now - now_ago + length <= 18446744073709551615999999999),
{
}

} // verus!
