//! The player: its state, and what it does when mpv reports that a property has changed.

use vstd::prelude::*;

use crate::color;
use crate::color::Theme;
use crate::config::ColorConfig;
use crate::config::Config;
use crate::json::Json;
use crate::json::JsonView;
use crate::track;
use crate::track::Progress;
use crate::track::Track;
use crate::track::TrackView;

verus! {

broadcast use vstd::string::group_string_axioms;

/// Something to be done, in reply to a change of a property.
#[derive(Debug, Clone, Copy, PartialEq, Eq, Structural)]
pub enum Action {
    /// Hand queued songs to mpv.
    RefreshQueue,
    /// Read the metadata of the track anew.
    UpdateMetadata,
    /// Show the track.
    Display,
    /// Look for cover art beside the track.
    UseExternalCoverArt,
    /// Tell Last.fm what is playing.
    LastfmNowPlaying,
    /// Tell Discord what is playing.
    RichPresence,
    /// Tell Last.fm what has been played.
    LastfmScrobble,
}

/// What the number in a message of mpv says. It is of use for the properties that have one; as
/// seconds that have been played, it is what [`playback_time`] gives.
#[derive(Debug)]
pub struct Reading {
    /// The number without its decimals.
    pub volume: u32,
    /// The number as seconds that have been played.
    pub progress: Progress,
    /// Whether the track has been playing for the configured delay, or for a twentieth of its
    /// length.
    pub now_playing_due: bool,
    /// Whether the configured share of the track has been played.
    pub scrobble_due: bool,
}

/// What the number in a message of mpv says.
#[verifier::ext_equal]
pub struct ReadingView {
    pub volume: u32,
    pub progress: (Seq<char>, bool),
    pub now_playing_due: bool,
    pub scrobble_due: bool,
}

impl View for Reading {
    type V = ReadingView;

    open spec fn view(&self) -> ReadingView {
        ReadingView {
            volume: self.volume,
            progress: self.progress@,
            now_playing_due: self.now_playing_due,
            scrobble_due: self.scrobble_due,
        }
    }
}

/// The state of the player.
#[derive(Debug)]
pub struct Player {
    pub track: Track,
    pub looped: bool,
    pub paused: bool,
    pub muted: bool,
    pub volume: u32,
    /// Whether the track has been scrobbled.
    pub scrobbled: bool,
    /// Whether the track has been announced.
    pub now_playing_set: bool,
    /// Whether cover art beside the track has been looked for.
    pub external_cover_art_set: bool,
}

/// The state of the player.
#[verifier::ext_equal]
pub struct PlayerView {
    pub track: TrackView,
    pub looped: bool,
    pub paused: bool,
    pub muted: bool,
    pub volume: u32,
    pub scrobbled: bool,
    pub now_playing_set: bool,
    pub external_cover_art_set: bool,
}

impl View for Player {
    type V = PlayerView;

    open spec fn view(&self) -> PlayerView {
        PlayerView {
            track: self.track@,
            looped: self.looped,
            paused: self.paused,
            muted: self.muted,
            volume: self.volume,
            scrobbled: self.scrobbled,
            now_playing_set: self.now_playing_set,
            external_cover_art_set: self.external_cover_art_set,
        }
    }
}

/// Which services are told about tracks.
#[verifier::ext_equal]
pub struct Services {
    pub lastfm: bool,
    pub discord: bool,
}

/// The services that a configuration turns on.
pub open spec fn services(config: Config) -> Services {
    Services { lastfm: config.lastfm.used, discord: config.discord.used }
}

/// An action, where it is wanted.
pub open spec fn when(wanted: bool, action: Action) -> Seq<Action> {
    if wanted {
        seq![action]
    } else {
        seq![]
    }
}

/// Whether a value of the property `loop-file` says that the track is looped.
pub open spec fn says_looped(value: JsonView) -> bool {
    match value {
        JsonView::Bool(b) => b,
        JsonView::Text(t) => t == "inf"@,
        _ => false,
    }
}

/// The seconds that a message of mpv reports as played, as JSON writes them. What is no number counts
/// as zero.
pub open spec fn played(message: JsonView) -> Seq<char> {
    match message.number_field("data"@) {
        Some(seconds) => seconds,
        None => "0"@,
    }
}

/// A reading as it counts for playback: where a message holds no number, the track is at its start.
pub open spec fn heard(message: JsonView, reading: ReadingView) -> ReadingView {
    if message.number_field("data"@) is None {
        ReadingView { progress: track::start(), ..reading }
    } else {
        reading
    }
}

impl PlayerView {
    /// The player before anything has been reported.
    pub open spec fn initial() -> PlayerView {
        PlayerView {
            track: TrackView::unknown(),
            looped: false,
            paused: false,
            muted: false,
            volume: 0,
            scrobbled: false,
            now_playing_set: false,
            external_cover_art_set: false,
        }
    }

    /// The player as it is for a track that has just begun: nothing has been done for it.
    pub open spec fn fresh(self) -> PlayerView {
        PlayerView {
            scrobbled: false,
            now_playing_set: false,
            external_cover_art_set: false,
            ..self
        }
    }

    /// The player when playback has come to a point, with what is to be done at it.
    pub open spec fn at_time(self, reading: ReadingView, services: Services) -> (
        PlayerView,
        Seq<Action>,
    ) {
        let before = if reading.progress.1 {
            self.fresh()
        } else {
            self
        };
        let announce = reading.now_playing_due && !before.now_playing_set;
        let scrobble = reading.scrobble_due && !before.scrobbled;
        let after = PlayerView {
            track: TrackView { progress: reading.progress, ..before.track },
            external_cover_art_set: true,
            now_playing_set: before.now_playing_set || announce,
            scrobbled: before.scrobbled || scrobble,
            ..before
        };
        let actions = seq![Action::Display] + when(
            !before.external_cover_art_set,
            Action::UseExternalCoverArt,
        ) + when(announce && services.lastfm, Action::LastfmNowPlaying) + when(
            announce && services.discord,
            Action::RichPresence,
        ) + when(scrobble && services.lastfm, Action::LastfmScrobble);
        (after, actions)
    }

    /// The player after a property has changed, with what that property asks for.
    pub open spec fn changed(self, message: JsonView, reading: ReadingView, services: Services) -> (
        PlayerView,
        Seq<Action>,
    ) {
        match message.text_field("name"@) {
            None => (self, seq![]),
            Some(name) => if name == "pause"@ {
                match message.bool_field("data"@) {
                    Some(paused) => (PlayerView { paused, ..self }, seq![]),
                    None => (self, seq![]),
                }
            } else if name == "metadata"@ {
                (self, seq![Action::UpdateMetadata])
            } else if name == "loop-file"@ {
                match message.field("data"@) {
                    Some(value) => (PlayerView { looped: says_looped(value), ..self }, seq![]),
                    None => (self, seq![]),
                }
            } else if name == "volume"@ {
                match message.number_field("data"@) {
                    Some(_) => (PlayerView { volume: reading.volume, ..self }, seq![]),
                    None => (self, seq![]),
                }
            } else if name == "mute"@ {
                match message.bool_field("data"@) {
                    Some(muted) => (PlayerView { muted, ..self }, seq![]),
                    None => (self, seq![]),
                }
            } else if name == "playback-time"@ {
                self.at_time(heard(message, reading), services)
            } else {
                (self, seq![])
            },
        }
    }

    /// The player after a property has changed, with what is to be done about it. Whatever has
    /// changed, the queue is refreshed first.
    pub open spec fn after(self, message: JsonView, reading: ReadingView, services: Services) -> (
        PlayerView,
        Seq<Action>,
    ) {
        let (player, actions) = self.changed(message, reading, services);
        (player, seq![Action::RefreshQueue] + actions)
    }
}

impl Default for Player {
    fn default() -> (player: Self)
        ensures
            player@ == PlayerView::initial(),
    {
        Player {
            track: Track::default(),
            looped: false,
            paused: false,
            muted: false,
            volume: 0,
            scrobbled: false,
            now_playing_set: false,
            external_cover_art_set: false,
        }
    }
}

/// The seconds that a message of mpv reports as played, as JSON writes them. What is no number counts
/// as zero.
pub fn playback_time(message: &Json) -> (seconds: String)
    ensures
        seconds@ == played(message@),
{
    match message.get_number("data") {
        Some(seconds) => seconds.to_owned(),
        None => "0".to_owned(),
    }
}

impl Player {
    /// Handles a new point of playback.
    ///
    /// If a track is fresh, it can be scrobbled and its now playing status has not yet been set. It
    /// may also need external album art to be set.
    fn handle_playback_time(&mut self, reading: Reading, config: &Config, actions: &mut Vec<Action>)
        ensures
            final(self)@ == old(self)@.at_time(reading@, services(*config)).0,
            final(actions)@ == old(actions)@ + old(self)@.at_time(reading@, services(*config)).1,
    {
        if reading.progress.at_start {
            self.scrobbled = false;
            self.now_playing_set = false;
            self.external_cover_art_set = false;
        }
        self.track.update_progress(reading.progress);
        actions.push(Action::Display);
        if !self.external_cover_art_set {
            actions.push(Action::UseExternalCoverArt);
            self.external_cover_art_set = true;
        }
        if reading.now_playing_due && !self.now_playing_set {
            self.now_playing_set = true;
            if config.lastfm.used {
                actions.push(Action::LastfmNowPlaying);
            }
            if config.discord.used {
                actions.push(Action::RichPresence);
            }
        }
        if !self.scrobbled && reading.scrobble_due {
            self.scrobbled = true;
            if config.lastfm.used {
                actions.push(Action::LastfmScrobble);
            }
        }
        assert(actions@ =~= old(actions)@ + old(self)@.at_time(reading@, services(*config)).1);
    }

    /// Handles mpv properties
    ///
    /// Supported properties are filename, pause, metadata, loop-file, volume, mute, and
    /// playback-time. What is left to do is handed back, in order; the queue is refreshed first.
    pub fn handle_properties(&mut self, message: &Json, reading: Reading, config: &Config) -> (actions:
        Vec<Action>)
        ensures
            (final(self)@, actions@) == old(self)@.after(message@, reading@, services(*config)),
    {
        let mut actions: Vec<Action> = Vec::new();
        actions.push(Action::RefreshQueue);
        if let Some(name) = message.get_text("name") {
            if name.eq("pause") {
                if let Some(paused) = message.get_bool("data") {
                    self.paused = paused;
                }
            } else if name.eq("metadata") {
                actions.push(Action::UpdateMetadata);
            } else if name.eq("loop-file") {
                if let Some(value) = message.get("data") {
                    self.looped = match value {
                        Json::Bool(b) => *b,
                        Json::Text(t) => t.as_str().eq("inf"),
                        _ => false,
                    };
                }
            } else if name.eq("volume") {
                if message.get_number("data").is_some() {
                    self.volume = reading.volume;
                }
            } else if name.eq("mute") {
                if let Some(muted) = message.get_bool("data") {
                    self.muted = muted;
                }
            } else if name.eq("playback-time") {
                let mut counted = reading;
                if message.get_number("data").is_none() {
                    counted.progress = Progress::default();
                }
                assert(counted@ == heard(message@, reading@));
                self.handle_playback_time(counted, config, &mut actions);
            }
        }
        assert(actions@ =~= old(self)@.after(message@, reading@, services(*config)).1);
        actions
    }
}

impl Player {
    /// What is shown of the track and of the player, in the configured colors.
    pub fn display(&self, colors: &ColorConfig) -> (display: String)
        requires
            color::all_cut_cleanly(*colors),
        ensures
            display@ == self@.track.shown(
                color::theme_of(*colors),
                self@.looped,
                self@.muted,
                self@.volume,
            ),
    {
        let theme = Theme::from_config(colors);
        self.track.format_metadata(&theme, self.looped, self.muted, self.volume)
    }
}

/// A change of a property, as it reaches the player.
#[verifier::ext_equal]
pub struct Report {
    /// The track that has taken the place of the player's own since the report before, if any: its
    /// metadata may have been read in between.
    pub replaced: Option<TrackView>,
    pub message: JsonView,
    pub reading: ReadingView,
}

impl Report {
    /// Whether playback has come to a new point.
    pub open spec fn is_playback(self) -> bool {
        self.message.text_field("name"@) == Some("playback-time"@)
    }

    /// Whether a track begins.
    pub open spec fn begins(self) -> bool {
        self.is_playback() && heard(self.message, self.reading).progress.1
    }
}

impl PlayerView {
    /// The player with another track in place of its own, where there is one.
    pub open spec fn holding(self, replaced: Option<TrackView>) -> PlayerView {
        match replaced {
            Some(track) => PlayerView { track, ..self },
            None => self,
        }
    }

    /// The player after some reports, with all that is to be done about them.
    pub open spec fn run(self, reports: Seq<Report>, services: Services) -> (PlayerView, Seq<Action>)
        decreases reports.len(),
    {
        if reports.len() == 0 {
            (self, seq![])
        } else {
            let (before, earlier) = self.run(reports.drop_last(), services);
            let (after, actions) = before.holding(reports.last().replaced).after(
                reports.last().message,
                reports.last().reading,
                services,
            );
            (after, earlier + actions)
        }
    }
}

/// How often an action is asked for.
pub open spec fn count(actions: Seq<Action>, action: Action) -> nat
    decreases actions.len(),
{
    if actions.len() == 0 {
        0
    } else {
        count(actions.drop_last(), action) + if actions.last() == action {
            1nat
        } else {
            0nat
        }
    }
}

proof fn lemma_count_of_sum(a: Seq<Action>, b: Seq<Action>, action: Action)
    ensures
        count(a + b, action) == count(a, action) + count(b, action),
    decreases b.len(),
{
    if b.len() == 0 {
        assert(a + b =~= a);
    } else {
        assert((a + b).drop_last() =~= a + b.drop_last());
        lemma_count_of_sum(a, b.drop_last(), action);
    }
}

proof fn lemma_count_of_when(wanted: bool, action: Action, counted: Action)
    ensures
        count(when(wanted, action), counted) == if wanted && action == counted {
            1nat
        } else {
            0nat
        },
{
    reveal_with_fuel(count, 2);
}

/// A new point of playback is handled as such: its name is that of no other property.
proof fn lemma_playback_is_handled(
    player: PlayerView,
    report: Report,
    services: Services,
)
    ensures
        report.is_playback() ==> player.changed(report.message, report.reading, services)
            == player.at_time(heard(report.message, report.reading), services),
{
    reveal_strlit("pause");
    reveal_strlit("metadata");
    reveal_strlit("loop-file");
    reveal_strlit("volume");
    reveal_strlit("mute");
    reveal_strlit("playback-time");
    let name = "playback-time"@;
    assert(name.len() == 13);
    assert("pause"@.len() == 5 && "metadata"@.len() == 8 && "loop-file"@.len() == 9);
    assert("volume"@.len() == 6 && "mute"@.len() == 4);
}

/// How often each action is asked for at a point of playback.
proof fn lemma_counts_at_time(player: PlayerView, reading: ReadingView, services: Services)
    ensures
        ({
            let before = if reading.progress.1 {
                player.fresh()
            } else {
                player
            };
            let announce = reading.now_playing_due && !before.now_playing_set;
            let scrobble = reading.scrobble_due && !before.scrobbled;
            let actions = player.at_time(reading, services).1;
            &&& count(actions, Action::RefreshQueue) == 0
            &&& count(actions, Action::UseExternalCoverArt)
                == if !before.external_cover_art_set { 1nat } else { 0nat }
            &&& count(actions, Action::LastfmNowPlaying)
                == if announce && services.lastfm { 1nat } else { 0nat }
            &&& count(actions, Action::RichPresence)
                == if announce && services.discord { 1nat } else { 0nat }
            &&& count(actions, Action::LastfmScrobble)
                == if scrobble && services.lastfm { 1nat } else { 0nat }
        }),
{
    let before = if reading.progress.1 {
        player.fresh()
    } else {
        player
    };
    let announce = reading.now_playing_due && !before.now_playing_set;
    let scrobble = reading.scrobble_due && !before.scrobbled;
    let a0 = seq![Action::Display];
    let a1 = when(!before.external_cover_art_set, Action::UseExternalCoverArt);
    let a2 = when(announce && services.lastfm, Action::LastfmNowPlaying);
    let a3 = when(announce && services.discord, Action::RichPresence);
    let a4 = when(scrobble && services.lastfm, Action::LastfmScrobble);
    assert forall|counted: Action|
        #![trigger count(a0 + a1 + a2 + a3 + a4, counted)]
        count(a0 + a1 + a2 + a3 + a4, counted) == count(a0, counted) + count(a1, counted) + count(
            a2,
            counted,
        ) + count(a3, counted) + count(a4, counted) by {
        lemma_count_of_sum(a0, a1, counted);
        lemma_count_of_sum(a0 + a1, a2, counted);
        lemma_count_of_sum(a0 + a1 + a2, a3, counted);
        lemma_count_of_sum(a0 + a1 + a2 + a3, a4, counted);
    }
    assert forall|counted: Action| #[trigger] count(a0, counted) == if counted == Action::Display {
        1nat
    } else {
        0nat
    } by {
        reveal_with_fuel(count, 2);
    }
    assert forall|counted: Action|
        #![trigger count(a1, counted)]
        #![trigger count(a2, counted)]
        #![trigger count(a3, counted)]
        #![trigger count(a4, counted)]
        {
            &&& count(a1, counted) == if !before.external_cover_art_set && counted
                == Action::UseExternalCoverArt { 1nat } else { 0nat }
            &&& count(a2, counted) == if announce && services.lastfm && counted
                == Action::LastfmNowPlaying { 1nat } else { 0nat }
            &&& count(a3, counted) == if announce && services.discord && counted
                == Action::RichPresence { 1nat } else { 0nat }
            &&& count(a4, counted) == if scrobble && services.lastfm && counted
                == Action::LastfmScrobble { 1nat } else { 0nat }
        } by {
        lemma_count_of_when(!before.external_cover_art_set, Action::UseExternalCoverArt, counted);
        lemma_count_of_when(announce && services.lastfm, Action::LastfmNowPlaying, counted);
        lemma_count_of_when(announce && services.discord, Action::RichPresence, counted);
        lemma_count_of_when(scrobble && services.lastfm, Action::LastfmScrobble, counted);
    }
}

/// The refreshing of the queue is counted apart from all else that a report asks for.
proof fn lemma_counts_after(player: PlayerView, report: Report, services: Services)
    ensures
        ({
            let actions = player.after(report.message, report.reading, services).1;
            let asked = player.changed(report.message, report.reading, services).1;
            forall|action: Action| #[trigger]
                count(actions, action) == once(action == Action::RefreshQueue) + count(asked, action)
        }),
{
    let asked = player.changed(report.message, report.reading, services).1;
    let refresh = seq![Action::RefreshQueue];
    assert forall|action: Action| #[trigger]
        count(refresh + asked, action) == once(action == Action::RefreshQueue) + count(
            asked,
            action,
        ) by {
        lemma_count_of_sum(refresh, asked, action);
        reveal_with_fuel(count, 2);
    }
}

/// Nothing but a point of playback changes what has been done for a track, or asks for more than to
/// read its metadata.
pub proof fn law_other_properties_leave_the_track(
    player: PlayerView,
    report: Report,
    services: Services,
)
    requires
        !report.is_playback(),
    ensures
        ({
            let (after, actions) = player.after(report.message, report.reading, services);
            &&& after.scrobbled == player.scrobbled
            &&& after.now_playing_set == player.now_playing_set
            &&& after.external_cover_art_set == player.external_cover_art_set
            &&& after.track == player.track
            &&& actions == seq![Action::RefreshQueue] || actions == seq![
                Action::RefreshQueue,
                Action::UpdateMetadata,
            ]
        }),
{
    assert(seq![Action::RefreshQueue] + Seq::<Action>::empty() =~= seq![Action::RefreshQueue]);
    assert(seq![Action::RefreshQueue] + seq![Action::UpdateMetadata] =~= seq![
        Action::RefreshQueue,
        Action::UpdateMetadata,
    ]);
}

/// What is known of the track plays no part in what is done: with another track the actions are the
/// same, and so is the player afterwards but for the track.
pub proof fn law_track_plays_no_part(
    player: PlayerView,
    track: TrackView,
    report: Report,
    services: Services,
)
    ensures
        ({
            let other = PlayerView { track, ..player };
            let (after, actions) = player.after(report.message, report.reading, services);
            let (other_after, other_actions) = other.after(
                report.message,
                report.reading,
                services,
            );
            &&& other_actions == actions
            &&& other_after == (PlayerView { track: other_after.track, ..after })
        }),
{
}

/// A point of playback that is missing, or no number, is the start of a track.
pub proof fn law_missing_time_is_the_start(
    player: PlayerView,
    report: Report,
    services: Services,
)
    requires
        report.is_playback(),
        report.message.number_field("data"@) is None,
    ensures
        report.begins(),
        played(report.message) == "0"@,
        player.after(report.message, report.reading, services).0.track == (TrackView {
            progress: ("0.000"@, true),
            ..player.track
        }),
        player.after(report.message, report.reading, services)
            == player.fresh().after(report.message, report.reading, services),
{
    law_each_track_begins_afresh(player, report, services);
    lemma_playback_is_handled(player, report, services);
}

/// The queue is refreshed once at every report, before anything else that the report asks for.
pub proof fn law_queue_is_refreshed_at_every_report(
    player: PlayerView,
    reports: Seq<Report>,
    services: Services,
)
    ensures
        count(player.run(reports, services).1, Action::RefreshQueue) == reports.len(),
        forall|report: Report| #[trigger]
            player.after(report.message, report.reading, services).1[0] == Action::RefreshQueue,
    decreases reports.len(),
{
    if reports.len() > 0 {
        let last = reports.last();
        law_queue_is_refreshed_at_every_report(player, reports.drop_last(), services);
        let (ended, earlier) = player.run(reports.drop_last(), services);
        let before = ended.holding(last.replaced);
        let actions = before.after(last.message, last.reading, services).1;
        lemma_count_of_sum(earlier, actions, Action::RefreshQueue);
        lemma_counts_after(before, last, services);
        if last.is_playback() {
            lemma_playback_is_handled(before, last, services);
            lemma_counts_at_time(before, heard(last.message, last.reading), services);
        } else {
            law_other_properties_leave_the_track(before, last, services);
            reveal_with_fuel(count, 3);
        }
    }
}

/// What is done for a track that begins does not depend on what was done for the one before it.
pub proof fn law_each_track_begins_afresh(
    player: PlayerView,
    report: Report,
    services: Services,
)
    requires
        report.begins(),
    ensures
        player.after(report.message, report.reading, services) == player.fresh().after(
            report.message,
            report.reading,
            services,
        ),
{
    lemma_playback_is_handled(player, report, services);
    lemma_playback_is_handled(player.fresh(), report, services);
}

/// Whether some report is a point of playback at which the track is to be scrobbled.
pub open spec fn scrobble_comes_due(reports: Seq<Report>) -> bool {
    exists|i: int|
        0 <= i < reports.len() && (#[trigger] reports[i]).is_playback()
            && reports[i].reading.scrobble_due
}

/// Whether some report is a point of playback at which the track is to be announced.
pub open spec fn announcement_comes_due(reports: Seq<Report>) -> bool {
    exists|i: int|
        0 <= i < reports.len() && (#[trigger] reports[i]).is_playback()
            && reports[i].reading.now_playing_due
}

/// Whether some report is a point of playback.
pub open spec fn playback_moves(reports: Seq<Report>) -> bool {
    exists|i: int| 0 <= i < reports.len() && (#[trigger] reports[i]).is_playback()
}

/// `1` where something is wanted, and else `0`.
pub open spec fn once(wanted: bool) -> nat {
    if wanted {
        1
    } else {
        0
    }
}

/// While one track plays, it is scrobbled once if that comes due and never otherwise, it is
/// announced to each service once if that comes due and never otherwise, and cover art beside it is
/// looked for once, however often its metadata is read anew.
pub proof fn law_once_per_track(player: PlayerView, reports: Seq<Report>, services: Services)
    requires
        forall|i: int| 0 <= i < reports.len() ==> !(#[trigger] reports[i]).begins(),
    ensures
        ({
            let (after, actions) = player.run(reports, services);
            let scrobble = !player.scrobbled && scrobble_comes_due(reports);
            let announce = !player.now_playing_set && announcement_comes_due(reports);
            let look = !player.external_cover_art_set && playback_moves(reports);
            &&& count(actions, Action::LastfmScrobble) == once(scrobble && services.lastfm)
            &&& count(actions, Action::LastfmNowPlaying) == once(announce && services.lastfm)
            &&& count(actions, Action::RichPresence) == once(announce && services.discord)
            &&& count(actions, Action::UseExternalCoverArt) == once(look)
            &&& after.scrobbled == (player.scrobbled || scrobble)
            &&& after.now_playing_set == (player.now_playing_set || announce)
            &&& after.external_cover_art_set == (player.external_cover_art_set || look)
        }),
    decreases reports.len(),
{
    if reports.len() > 0 {
        let first = reports.drop_last();
        let last = reports.last();
        assert forall|i: int| 0 <= i < first.len() implies !(#[trigger] first[i]).begins() by {
            assert(!reports[i].begins());
        }
        assert(!reports[reports.len() - 1].begins());
        law_once_per_track(player, first, services);
        let (ended, earlier) = player.run(first, services);
        let before = ended.holding(last.replaced);
        let (after, actions) = before.after(last.message, last.reading, services);
        assert forall|action: Action| #[trigger] count(earlier + actions, action) == count(
            earlier,
            action,
        ) + count(actions, action) by {
            lemma_count_of_sum(earlier, actions, action);
        }
        if last.is_playback() {
            lemma_playback_is_handled(before, last, services);
            lemma_counts_after(before, last, services);
            lemma_counts_at_time(before, heard(last.message, last.reading), services);
            assert(reports[reports.len() - 1].is_playback());
        } else {
            law_other_properties_leave_the_track(before, last, services);
            reveal_with_fuel(count, 3);
        }
        lemma_comes_due(first, last);
        assert(first.push(last) =~= reports);
    }
}

/// From the point at which a track begins until the next one does, it is scrobbled once if that comes
/// due and never otherwise, it is announced to each service once if that comes due and never
/// otherwise, and cover art beside it is looked for once, whatever was done for the track before it
/// and however often its metadata is read anew.
pub proof fn law_each_play_counts_once(
    player: PlayerView,
    reports: Seq<Report>,
    services: Services,
)
    requires
        reports.len() > 0,
        reports[0].begins(),
        forall|i: int| 0 < i < reports.len() ==> !(#[trigger] reports[i]).begins(),
    ensures
        ({
            let (after, actions) = player.run(reports, services);
            let scrobble = scrobble_comes_due(reports);
            let announce = announcement_comes_due(reports);
            &&& count(actions, Action::LastfmScrobble) == once(scrobble && services.lastfm)
            &&& count(actions, Action::LastfmNowPlaying) == once(announce && services.lastfm)
            &&& count(actions, Action::RichPresence) == once(announce && services.discord)
            &&& count(actions, Action::UseExternalCoverArt) == 1
            &&& after.scrobbled == scrobble
            &&& after.now_playing_set == announce
            &&& after.external_cover_art_set
        }),
    decreases reports.len(),
{
    let first = reports.drop_last();
    let last = reports.last();
    let (ended, earlier) = player.run(first, services);
    let before = ended.holding(last.replaced);
    let (after, actions) = before.after(last.message, last.reading, services);
    assert forall|action: Action| #[trigger] count(earlier + actions, action) == count(
        earlier,
        action,
    ) + count(actions, action) by {
        lemma_count_of_sum(earlier, actions, action);
    }
    if reports.len() > 1 {
        assert forall|i: int| 0 < i < first.len() implies !(#[trigger] first[i]).begins() by {
            assert(!reports[i].begins());
        }
        assert(first[0] == reports[0]);
        assert(!reports[reports.len() - 1].begins());
        law_each_play_counts_once(player, first, services);
    }
    if last.is_playback() {
        lemma_playback_is_handled(before, last, services);
        lemma_counts_after(before, last, services);
        lemma_counts_at_time(before, heard(last.message, last.reading), services);
    } else {
        law_other_properties_leave_the_track(before, last, services);
        reveal_with_fuel(count, 3);
    }
    lemma_comes_due(first, last);
    assert(first.push(last) =~= reports);
}

/// Something has come due with one more report if it had before, or if it does with that one.
proof fn lemma_comes_due(first: Seq<Report>, last: Report)
    ensures
        scrobble_comes_due(first.push(last)) == (scrobble_comes_due(first) || (last.is_playback()
            && last.reading.scrobble_due)),
        announcement_comes_due(first.push(last)) == (announcement_comes_due(first) || (
        last.is_playback() && last.reading.now_playing_due)),
        playback_moves(first.push(last)) == (playback_moves(first) || last.is_playback()),
{
    let reports = first.push(last);
    assert(reports[first.len() as int] == last);
    assert forall|i: int| 0 <= i < first.len() implies #[trigger] reports[i] == first[i] by {}
    if scrobble_comes_due(first) {
        let i = choose|i: int|
            0 <= i < first.len() && (#[trigger] first[i]).is_playback()
                && first[i].reading.scrobble_due;
        assert(reports[i].is_playback());
    }
    if announcement_comes_due(first) {
        let i = choose|i: int|
            0 <= i < first.len() && (#[trigger] first[i]).is_playback()
                && first[i].reading.now_playing_due;
        assert(reports[i].is_playback());
    }
    if playback_moves(first) {
        let i = choose|i: int| 0 <= i < first.len() && (#[trigger] first[i]).is_playback();
        assert(reports[i].is_playback());
    }
    if scrobble_comes_due(reports) {
        let i = choose|i: int|
            0 <= i < reports.len() && (#[trigger] reports[i]).is_playback()
                && reports[i].reading.scrobble_due;
        assert(i < first.len() ==> first[i].is_playback());
    }
    if announcement_comes_due(reports) {
        let i = choose|i: int|
            0 <= i < reports.len() && (#[trigger] reports[i]).is_playback()
                && reports[i].reading.now_playing_due;
        assert(i < first.len() ==> first[i].is_playback());
    }
    if playback_moves(reports) {
        let i = choose|i: int| 0 <= i < reports.len() && (#[trigger] reports[i]).is_playback();
        assert(i < first.len() ==> first[i].is_playback());
    }
}

/// The names of the properties are all different.
proof fn lemma_names_differ()
    ensures
        "pause"@.len() == 5,
        "metadata"@.len() == 8,
        "loop-file"@.len() == 9,
        "volume"@.len() == 6,
        "mute"@.len() == 4,
        "playback-time"@.len() == 13,
{
    reveal_strlit("pause");
    reveal_strlit("metadata");
    reveal_strlit("loop-file");
    reveal_strlit("volume");
    reveal_strlit("mute");
    reveal_strlit("playback-time");
}

/// The player is what its fields are.
pub proof fn law_player_is_its_fields(player: Player, reading: Reading, config: Config)
    ensures
        player@.track == player.track@,
        player@.looped == player.looped,
        player@.paused == player.paused,
        player@.muted == player.muted,
        player@.volume == player.volume,
        player@.scrobbled == player.scrobbled,
        player@.now_playing_set == player.now_playing_set,
        player@.external_cover_art_set == player.external_cover_art_set,
        reading@.volume == reading.volume,
        reading@.progress == (reading.progress.shown@, reading.progress.at_start),
        reading@.now_playing_due == reading.now_playing_due,
        reading@.scrobble_due == reading.scrobble_due,
        services(config).lastfm == config.lastfm.used,
        services(config).discord == config.discord.used,
{
}

/// Pausing and muting are noted as they are reported, and nothing else is changed or asked for by
/// them; what is no truth value changes nothing.
pub proof fn law_switches_are_noted(
    player: PlayerView,
    message: JsonView,
    reading: ReadingView,
    services: Services,
    on: bool,
)
    ensures
        message.text_field("name"@) == Some("pause"@) && message.bool_field("data"@) == Some(on)
            ==> player.after(message, reading, services) == (
            PlayerView { paused: on, ..player },
            seq![Action::RefreshQueue],
        ),
        message.text_field("name"@) == Some("mute"@) && message.bool_field("data"@) == Some(on)
            ==> player.after(message, reading, services) == (
            PlayerView { muted: on, ..player },
            seq![Action::RefreshQueue],
        ),
        (message.text_field("name"@) == Some("pause"@) || message.text_field("name"@) == Some(
            "mute"@,
        )) && message.bool_field("data"@) is None ==> player.after(message, reading, services) == (
            player,
            seq![Action::RefreshQueue],
        ),
{
    lemma_names_differ();
    assert(seq![Action::RefreshQueue] + Seq::<Action>::empty() =~= seq![Action::RefreshQueue]);
}

/// A track is looped exactly if the report is true or the text `inf`; a report without a value
/// changes nothing.
pub proof fn law_looping_is_noted(
    player: PlayerView,
    message: JsonView,
    reading: ReadingView,
    services: Services,
    value: JsonView,
)
    requires
        message.text_field("name"@) == Some("loop-file"@),
    ensures
        message.field("data"@) == Some(value) ==> player.after(message, reading, services) == (
            PlayerView {
                looped: value == JsonView::Bool(true) || value == JsonView::Text(
                    seq!['i', 'n', 'f'],
                ),
                ..player
            },
            seq![Action::RefreshQueue],
        ),
        message.field("data"@) is None ==> player.after(message, reading, services) == (
            player,
            seq![Action::RefreshQueue],
        ),
{
    lemma_names_differ();
    reveal_strlit("inf");
    assert("inf"@ =~= seq!['i', 'n', 'f']);
    assert(seq![Action::RefreshQueue] + Seq::<Action>::empty() =~= seq![Action::RefreshQueue]);
}

/// The volume is the number that is reported, without its decimals; what is no number changes nothing.
pub proof fn law_the_volume_is_noted(
    player: PlayerView,
    message: JsonView,
    reading: ReadingView,
    services: Services,
)
    requires
        message.text_field("name"@) == Some("volume"@),
    ensures
        player.after(message, reading, services) == (
            PlayerView {
                volume: if message.number_field("data"@) is Some {
                    reading.volume
                } else {
                    player.volume
                },
                ..player
            },
            seq![Action::RefreshQueue],
        ),
{
    lemma_names_differ();
    assert(seq![Action::RefreshQueue] + Seq::<Action>::empty() =~= seq![Action::RefreshQueue]);
}

/// New metadata is to be read, whatever it is, and changes nothing by itself. A report of any other
/// property, or without a name, neither changes nor asks for anything.
pub proof fn law_other_reports_change_nothing(
    player: PlayerView,
    message: JsonView,
    reading: ReadingView,
    services: Services,
)
    ensures
        message.text_field("name"@) == Some("metadata"@) ==> player.after(message, reading, services)
            == (player, seq![Action::RefreshQueue, Action::UpdateMetadata]),
        message.text_field("name"@) is None ==> player.after(message, reading, services) == (
            player,
            seq![Action::RefreshQueue],
        ),
        message.text_field("name"@) matches Some(name) && name != "pause"@ && name != "metadata"@
            && name != "loop-file"@ && name != "volume"@ && name != "mute"@ && name
            != "playback-time"@ ==> player.after(message, reading, services) == (
            player,
            seq![Action::RefreshQueue],
        ),
{
    lemma_names_differ();
    assert(seq![Action::RefreshQueue] + Seq::<Action>::empty() =~= seq![Action::RefreshQueue]);
    assert(seq![Action::RefreshQueue] + seq![Action::UpdateMetadata] =~= seq![
        Action::RefreshQueue,
        Action::UpdateMetadata,
    ]);
}

/// At a point of playback the track is shown, then cover art is looked for if that has not been done,
/// then the services that are used are told if the track is due and has not been announced, and last
/// it is scrobbled if it is due and has not been. At the start of a track nothing counts as done. All
/// of it is noted, and nothing else changes.
pub proof fn law_playback_is_attended_to(
    player: PlayerView,
    message: JsonView,
    reading: ReadingView,
    services: Services,
)
    requires
        message.text_field("name"@) == Some("playback-time"@),
    ensures
        ({
            let (after, actions) = player.after(message, reading, services);
            let timed = message.number_field("data"@) is Some;
            let start = !timed || reading.progress.1;
            let look = start || !player.external_cover_art_set;
            let announce = reading.now_playing_due && (start || !player.now_playing_set);
            let scrobble = reading.scrobble_due && (start || !player.scrobbled);
            let none = Seq::<Action>::empty();
            &&& actions == seq![Action::RefreshQueue, Action::Display] + (if look {
                seq![Action::UseExternalCoverArt]
            } else {
                none
            }) + (if announce && services.lastfm {
                seq![Action::LastfmNowPlaying]
            } else {
                none
            }) + (if announce && services.discord {
                seq![Action::RichPresence]
            } else {
                none
            }) + (if scrobble && services.lastfm {
                seq![Action::LastfmScrobble]
            } else {
                none
            })
            &&& timed ==> after.track.progress == reading.progress
            &&& !timed ==> after.track.progress == ("0.000"@, true)
            &&& after.track == (TrackView { progress: after.track.progress, ..player.track })
            &&& after.external_cover_art_set
            &&& after.now_playing_set == (announce || (!start && player.now_playing_set))
            &&& after.scrobbled == (scrobble || (!start && player.scrobbled))
            &&& after.looped == player.looped
            &&& after.paused == player.paused
            &&& after.muted == player.muted
            &&& after.volume == player.volume
        }),
{
    let report = Report { replaced: None, message, reading };
    lemma_playback_is_handled(player, report, services);
    let counted = heard(message, reading);
    let before = if counted.progress.1 {
        player.fresh()
    } else {
        player
    };
    let announce = counted.now_playing_due && !before.now_playing_set;
    let scrobble = counted.scrobble_due && !before.scrobbled;
    let a1 = when(!before.external_cover_art_set, Action::UseExternalCoverArt);
    let a2 = when(announce && services.lastfm, Action::LastfmNowPlaying);
    let a3 = when(announce && services.discord, Action::RichPresence);
    let a4 = when(scrobble && services.lastfm, Action::LastfmScrobble);
    assert(seq![Action::RefreshQueue] + (seq![Action::Display] + a1 + a2 + a3 + a4) =~= seq![
        Action::RefreshQueue,
        Action::Display,
    ] + a1 + a2 + a3 + a4);
}

/// The seconds that are reported as played are the number of the message, as it is written.
pub proof fn law_seconds_are_taken_as_written(message: JsonView, seconds: Seq<char>)
    ensures
        message.number_field("data"@) == Some(seconds) ==> played(message) == seconds,
        message.number_field("data"@) is None ==> played(message) == seq!['0'],
{
    reveal_strlit("0");
    assert("0"@ =~= seq!['0']);
}

} // verus!
