//! What is said to mpv, and what is read from its replies.

use vstd::prelude::*;

use crate::args::Args;
use crate::config::GeneralConfig;
use crate::json::Json;
use crate::json::JsonView;
use crate::paths;
use crate::text;
use crate::track::Track;

verus! {

broadcast use vstd::string::group_string_axioms;

/// Where mpv listens.
pub const SOCK_PATH: &'static str = "/tmp/tuun/mpvsocket";

/// Where songs to be played next are listed.
pub const QUEUE_PATH: &'static str = "/tmp/tuun/quu.tpl";

/// The maximum number of directory entries checked when looking for external cover art
pub const EXTERNAL_COVER_ART_SEARCH_LIMIT: usize = 128;

/// How often mpv is asked for the path of the track.
pub const PATH_ATTEMPTS: u32 = 4;

/// How often mpv is asked for the length of the track.
pub const DURATION_ATTEMPTS: u32 = 65535;

/// How often mpv's socket is looked for.
pub const SOCKET_ATTEMPTS: u32 = 32;

/// Asks for the path of the track.
pub const GET_PATH: &'static str = r#" { "command" : [ "get_property", "path" ] } "#;

/// Asks for the length of the track.
pub const GET_DURATION: &'static str = r#"{"command": ["get_property", "duration"]}"#;

/// Asks for the tracks inside the file that plays.
pub const GET_TRACK_LIST: &'static str = r#"{ "command": ["get_property", "track-list"] }"#;

/// Goes on to the next track.
pub const PLAYLIST_NEXT: &'static str = r#"{ "command": ["playlist-next"] }"#;

/// Asks for word of every property that matters. The number in each is an arbitrary observation ID.
pub open spec fn subscription_commands() -> Seq<Seq<char>> {
    seq![
        r#"{"command": ["observe_property", 1, "filename"]}"#@,
        r#"{"command": ["observe_property", 2, "pause"]}"#@,
        r#"{"command": ["observe_property", 3, "loop-file"]}"#@,
        r#"{"command": ["observe_property", 4, "mute"]}"#@,
        r#"{"command": ["observe_property", 5, "playback-time"]}"#@,
        r#"{"command": ["observe_property", 6, "metadata"]}"#@,
        r#"{"command": ["observe_property", 7, "volume"]}"#@,
    ]
}

/// Asks for word of every property that matters.
pub fn subscriptions() -> (commands: Vec<String>)
    ensures
        text::views(commands@) == subscription_commands(),
{
    let commands: Vec<String> = vec![
        r#"{"command": ["observe_property", 1, "filename"]}"#.to_owned(),
        r#"{"command": ["observe_property", 2, "pause"]}"#.to_owned(),
        r#"{"command": ["observe_property", 3, "loop-file"]}"#.to_owned(),
        r#"{"command": ["observe_property", 4, "mute"]}"#.to_owned(),
        r#"{"command": ["observe_property", 5, "playback-time"]}"#.to_owned(),
        r#"{"command": ["observe_property", 6, "metadata"]}"#.to_owned(),
        r#"{"command": ["observe_property", 7, "volume"]}"#.to_owned(),
    ];
    assert(text::views(commands@) =~= subscription_commands());
    commands
}

/// What an event of mpv calls for.
#[derive(Debug, Clone, Copy, PartialEq, Eq, Structural)]
pub enum Reaction {
    Ignore,
    /// mpv has quit, and so does the player.
    Quit,
    /// A property has changed.
    PropertyChange,
}

/// What an event of mpv calls for.
pub open spec fn reaction(message: JsonView) -> Reaction {
    let event = message.text_field("event"@);
    if event == Some("end-file"@) && message.text_field("reason"@) == Some("quit"@) {
        Reaction::Quit
    } else if event == Some("property-change"@) {
        Reaction::PropertyChange
    } else {
        Reaction::Ignore
    }
}

/// Handles mpv events
///
/// Supported events include start-file, end-file, and property-change.
pub fn handle_events(message: &Json) -> (found: Reaction)
    ensures
        found == reaction(message@),
{
    proof {
        reveal_strlit("end-file");
        reveal_strlit("property-change");
        assert("end-file"@.len() != "property-change"@.len());
    }
    match message.get_text("event") {
        Some(event) => {
            if event.eq("end-file") {
                match message.get_text("reason") {
                    Some(reason) => {
                        if reason.eq("quit") {
                            Reaction::Quit
                        } else {
                            Reaction::Ignore
                        }
                    },
                    None => Reaction::Ignore,
                }
            } else if event.eq("property-change") {
                Reaction::PropertyChange
            } else {
                Reaction::Ignore
            }
        },
        None => Reaction::Ignore,
    }
}

/// Why the path of the track is not known.
#[derive(Debug, Clone, Copy, PartialEq, Eq, Structural)]
pub enum PathError {
    /// mpv gave no reply.
    Failed,
    /// The reply is no table.
    InvalidJson,
    /// The reply holds no path.
    Missing,
}

impl PathError {
    /// The error in words.
    pub open spec fn words(self) -> Seq<char> {
        match self {
            PathError::Failed => "Failed to query path"@,
            PathError::InvalidJson => "Invalid JSON"@,
            PathError::Missing => "Filename not present"@,
        }
    }

    /// The error in words.
    pub fn message(&self) -> (words: String)
        ensures
            words@ == self.words(),
    {
        match self {
            PathError::Failed => "Failed to query path".to_owned(),
            PathError::InvalidJson => "Invalid JSON".to_owned(),
            PathError::Missing => "Filename not present".to_owned(),
        }
    }
}

/// The path in a reply of mpv.
pub open spec fn path_in(reply: Option<JsonView>) -> Result<Seq<char>, PathError> {
    match reply {
        None => Err(PathError::Failed),
        Some(JsonView::Table(entries)) => match JsonView::Table(entries).text_field("data"@) {
            Some(path) => Ok(path),
            None => Err(PathError::Missing),
        },
        Some(_) => Err(PathError::InvalidJson),
    }
}

/// A reply of mpv that may be missing.
pub open spec fn reply_view(reply: Option<&Json>) -> Option<JsonView> {
    match reply {
        Some(json) => Some(json@),
        None => None,
    }
}

impl Track {
    /// The path in a reply of mpv to the question for it.
    pub fn query_filepath(reply: Option<&Json>) -> (path: Result<String, PathError>)
        ensures
            match (path, path_in(reply_view(reply))) {
                (Ok(found), Ok(wanted)) => found@ == wanted,
                (Err(e), Err(f)) => e == f,
                _ => false,
            },
    {
        match reply {
            None => Err(PathError::Failed),
            Some(json) => {
                if !json.is_table() {
                    return Err(PathError::InvalidJson);
                }
                match json.get_text("data") {
                    Some(path) => Ok(path.to_owned()),
                    None => Err(PathError::Missing),
                }
            },
        }
    }
}

/// Return a path to the currently playing track, according to mpv's reply to the question for it
pub fn get_filepath(reply: Option<&Json>) -> (path: Option<String>)
    ensures
        match (path, path_in(reply_view(reply))) {
            (Some(found), Ok(wanted)) => found@ == wanted,
            (None, Err(_)) => true,
            _ => false,
        },
{
    match Track::query_filepath(reply) {
        Ok(path) => Some(path),
        Err(_) => None,
    }
}

/// Whether a file may hold an ID3 tag: its extension, if it has one, has to be that of such files.
pub open spec fn may_hold_tag(path: Seq<char>) -> bool {
    match paths::extension(path) {
        Some(e) => text::ascii_lower(e) == text::ascii_lower("mp3"@),
        None => true,
    }
}

/// Whether to read an ID3 tag from the file at a path that may be unknown.
pub fn has_readable_tag(path: Option<&str>) -> (yes: bool)
    ensures
        yes == match path {
            Some(p) => may_hold_tag(p@),
            None => false,
        },
{
    match path {
        Some(p) => match paths::extension_of(p) {
            Some(e) => text::same_ignoring_ascii_case(e.as_str(), "mp3"),
            None => true,
        },
        None => false,
    }
}

/// Whether a directory entry is cover art, by its name. A name may be unknown.
pub open spec fn names_cover(name: Option<String>) -> bool {
    match name {
        Some(n) => "cover"@.is_prefix_of(n@),
        None => false,
    }
}

/// Which entry of the directory of a track is its external cover art, if any
///
/// This cover art may be either animated or static. Only so many entries are looked at.
pub fn get_external_cover(names: &Vec<Option<String>>) -> (found: Option<usize>)
    ensures
        match found {
            Some(i) => {
                &&& i < names@.len()
                &&& i < EXTERNAL_COVER_ART_SEARCH_LIMIT
                &&& names_cover(names@[i as int])
                &&& forall|j: int| 0 <= j < i ==> !names_cover(#[trigger] names@[j])
            },
            None => forall|j: int|
                0 <= j < names@.len() && j < EXTERNAL_COVER_ART_SEARCH_LIMIT ==> !names_cover(
                    #[trigger] names@[j],
                ),
        },
{
    let mut i: usize = 0;
    while i < names.len() && i < EXTERNAL_COVER_ART_SEARCH_LIMIT
        invariant
            i <= names@.len(),
            i <= EXTERNAL_COVER_ART_SEARCH_LIMIT,
            forall|j: int| 0 <= j < i ==> !names_cover(#[trigger] names@[j]),
        decreases names@.len() - i,
    {
        if let Some(name) = &names[i] {
            if text::starts_with(name.as_str(), "cover") {
                return Some(i);
            }
        }
        i = i + 1;
    }
    None
}

/// The flag that tells mpv whether cover art is static; it is not known without an extension.
pub open spec fn art_flag(path: Seq<char>) -> Option<Seq<char>> {
    match paths::extension(path) {
        Some(e) => if e == "mp4"@ || e == "gif"@ {
            Some("no"@)
        } else {
            Some("yes"@)
        },
        None => None,
    }
}

/// The flag that tells mpv whether cover art is static; it is not known without an extension.
pub fn album_art_flag(path: &str) -> (flag: Option<String>)
    ensures
        text::opt_view(flag) == art_flag(path@),
{
    match paths::extension_of(path) {
        Some(e) => {
            if e.as_str().eq("mp4") || e.as_str().eq("gif") {
                Some("no".to_owned())
            } else {
                Some("yes".to_owned())
            }
        },
        None => None,
    }
}

/// Adds a video track for cover art: its path, no flags, no title, no language, and the flag that
/// says whether it is static.
pub open spec fn add_command(path: Seq<char>, flag: Seq<char>) -> Seq<char> {
    r#"{ "command": ["video-add", ""#@ + path + r#"", "", "", ""#@ + flag + r#""] }"#@
}

/// Shows a video track.
pub open spec fn show_command(id: u64) -> Seq<char> {
    r#"{ "command": ["set_property", "vid", "#@ + text::decimal(id as nat) + r#"] }"#@
}

/// Adds a video track for cover art: its path, no flags, no title, no language, and the flag that
/// says whether it is static.
pub fn video_add(path: &str, flag: &str) -> (command: String)
    ensures
        command@ == add_command(path@, flag@),
{
    let mut command = r#"{ "command": ["video-add", ""#.to_owned();
    command.append(path);
    command.append(r#"", "", "", ""#);
    command.append(flag);
    command.append(r#""] }"#);
    command
}

/// Shows a video track.
pub fn set_video(id: u64) -> (command: String)
    ensures
        command@ == show_command(id),
{
    let mut command = r#"{ "command": ["set_property", "vid", "#.to_owned();
    command.append(text::decimal_text(id).as_str());
    command.append(r#"] }"#);
    command
}

/// Plays a song next.
pub open spec fn load_command(song: Seq<char>) -> Seq<char> {
    r#"{ "command": ["loadfile", ""#@ + song + r#"", "insert-next"] }"#@
}

/// Plays a song next.
pub fn load_next(song: &str) -> (command: String)
    ensures
        command@ == load_command(song@),
{
    let mut command = r#"{ "command": ["loadfile", ""#.to_owned();
    command.append(song);
    command.append(r#"", "insert-next"] }"#);
    command
}

/// Whether a track inside a file is a video that is titled as the picture of the artist.
pub open spec fn is_artist_picture(track: JsonView) -> bool {
    &&& track.text_field("type"@) == Some("video"@)
    &&& match track.text_field("title"@) {
        Some(title) => text::ascii_lower(title) == text::ascii_lower("artist picture"@),
        None => false,
    }
}

/// The last picture of the artist among some tracks.
pub open spec fn last_picture(tracks: Seq<JsonView>) -> Option<JsonView>
    decreases tracks.len(),
{
    if tracks.len() == 0 {
        None
    } else if is_artist_picture(tracks.last()) {
        Some(tracks.last())
    } else {
        last_picture(tracks.drop_last())
    }
}

/// The identifier of the video track to show, by mpv's reply to the question for all tracks.
pub open spec fn video_in(reply: JsonView) -> Option<u64> {
    match reply.field("data"@) {
        Some(JsonView::List(tracks)) => match last_picture(tracks) {
            Some(track) => match track.field("id"@) {
                Some(id) => id.as_unsigned(),
                None => None,
            },
            None => None,
        },
        _ => None,
    }
}

fn shows_artist(track: &Json) -> (yes: bool)
    ensures
        yes == is_artist_picture(track@),
{
    match (track.get_text("type"), track.get_text("title")) {
        (Some(kind), Some(title)) => kind.eq("video") && text::same_ignoring_ascii_case(
            title,
            "artist picture",
        ),
        _ => false,
    }
}

/// The identifier of the video track to show, by mpv's reply to the question for all tracks.
pub fn final_video_track(reply: &Json) -> (id: Option<u64>)
    ensures
        id == video_in(reply@),
{
    match reply.get("data") {
        Some(Json::List(tracks)) => {
            let ghost all = Json::List(*tracks)@->List_0;
            let mut i: usize = tracks.len();
            assert(all.take(i as int) =~= all);
            while i > 0
                invariant
                    i <= tracks@.len() == all.len(),
                    all == Json::List(*tracks)@->List_0,
                    reply@.field("data"@) == Some(JsonView::List(all)),
                    last_picture(all) == last_picture(all.take(i as int)),
                decreases i,
            {
                assert(all[i - 1] == tracks@[i - 1]@);
                if shows_artist(&tracks[i - 1]) {
                    return match tracks[i - 1].get("id") {
                        Some(Json::Number(n)) => n.unsigned,
                        _ => None,
                    };
                }
                assert(all.take(i as int).drop_last() =~= all.take(i - 1));
                i = i - 1;
            }
            None
        },
        _ => None,
    }
}

/// A step towards showing cover art that lies beside a track.
#[derive(Debug)]
pub enum CoverStep {
    /// Add the cover art as a video track, by this command.
    Add(String),
    /// Ask for all tracks.
    List,
    /// Show a video track, by this command.
    Show(String),
    Done,
    GaveUp,
}

/// A step towards showing cover art that lies beside a track.
#[verifier::ext_equal]
pub enum CoverStepView {
    Add(Seq<char>),
    List,
    Show(Seq<char>),
    Done,
    GaveUp,
}

impl View for CoverStep {
    type V = CoverStepView;

    open spec fn view(&self) -> CoverStepView {
        match self {
            CoverStep::Add(command) => CoverStepView::Add(command@),
            CoverStep::List => CoverStepView::List,
            CoverStep::Show(command) => CoverStepView::Show(command@),
            CoverStep::Done => CoverStepView::Done,
            CoverStep::GaveUp => CoverStepView::GaveUp,
        }
    }
}

/// The first step towards showing cover art, at a path that may be unknown.
pub open spec fn first_cover_step(path: Option<Seq<char>>) -> CoverStepView {
    match path {
        Some(p) => match art_flag(p) {
            Some(flag) => CoverStepView::Add(add_command(p, flag)),
            None => CoverStepView::GaveUp,
        },
        None => CoverStepView::GaveUp,
    }
}

impl CoverStepView {
    /// The step after this one, by mpv's reply; there may be none.
    pub open spec fn after(self, reply: Option<JsonView>) -> CoverStepView {
        match (self, reply) {
            (CoverStepView::Add(_), Some(_)) => CoverStepView::List,
            (CoverStepView::List, Some(json)) => match video_in(json) {
                Some(id) => CoverStepView::Show(show_command(id)),
                None => CoverStepView::GaveUp,
            },
            (CoverStepView::Show(_), Some(_)) => CoverStepView::Done,
            (CoverStepView::Done, _) => CoverStepView::Done,
            _ => CoverStepView::GaveUp,
        }
    }

    /// What this step sends to mpv.
    pub open spec fn sends(self) -> Option<Seq<char>> {
        match self {
            CoverStepView::Add(command) => Some(command),
            CoverStepView::List => Some(GET_TRACK_LIST@),
            CoverStepView::Show(command) => Some(command),
            CoverStepView::Done => None,
            CoverStepView::GaveUp => None,
        }
    }
}

/// The first step towards showing cover art, at a path that may be unknown.
pub fn use_external_cover_art(path: Option<&str>) -> (step: CoverStep)
    ensures
        step@ == first_cover_step(
            match path {
                Some(p) => Some(p@),
                None => None,
            },
        ),
{
    match path {
        Some(p) => match album_art_flag(p) {
            Some(flag) => CoverStep::Add(video_add(p, flag.as_str())),
            None => CoverStep::GaveUp,
        },
        None => CoverStep::GaveUp,
    }
}

impl CoverStep {
    /// What this step sends to mpv.
    pub fn command(&self) -> (command: Option<String>)
        ensures
            text::opt_view(command) == self@.sends(),
    {
        match self {
            CoverStep::Add(command) => Some(command.clone()),
            CoverStep::List => Some(GET_TRACK_LIST.to_owned()),
            CoverStep::Show(command) => Some(command.clone()),
            CoverStep::Done => None,
            CoverStep::GaveUp => None,
        }
    }

    /// The step after this one, by mpv's reply; there may be none.
    pub fn next(self, reply: Option<&Json>) -> (step: CoverStep)
        ensures
            step@ == self@.after(reply_view(reply)),
    {
        match (self, reply) {
            (CoverStep::Add(_), Some(_)) => CoverStep::List,
            (CoverStep::List, Some(json)) => match final_video_track(json) {
                Some(id) => CoverStep::Show(set_video(id)),
                None => CoverStep::GaveUp,
            },
            (CoverStep::Show(_), Some(_)) => CoverStep::Done,
            (CoverStep::Done, _) => CoverStep::Done,
            _ => CoverStep::GaveUp,
        }
    }
}

/// The playlist to start with: the one that the command line names, or else the configured one.
pub open spec fn first_playlist(args: Args, general: GeneralConfig) -> Seq<char> {
    match args.playlist {
        Some(p) => p@,
        None => general.playlist@,
    }
}

/// The playlist to start with: the one that the command line names, or else the configured one.
pub fn starting_playlist(args: &Args, general: &GeneralConfig) -> (playlist: String)
    ensures
        playlist@ == first_playlist(*args, *general),
{
    match &args.playlist {
        Some(p) => p.clone(),
        None => general.playlist.clone(),
    }
}

/// The arguments that hand mpv its playlists: the one to start with, and the queue in front of it
/// where there is one.
pub open spec fn playlist_arguments(args: Args, general: GeneralConfig, queued: bool) -> Seq<
    Seq<char>,
> {
    let playlist = "--playlist="@ + first_playlist(args, general);
    if queued {
        seq!["--playlist="@ + QUEUE_PATH@, playlist]
    } else {
        seq![playlist]
    }
}

/// The arguments that hand mpv its playlists. `queue_exists` says whether songs are queued.
pub fn prequeue(args: &Args, general: &GeneralConfig, queue_exists: bool) -> (arguments: Vec<
    String,
>)
    ensures
        text::views(arguments@) == playlist_arguments(*args, *general, queue_exists),
{
    let mut arguments: Vec<String> = Vec::new();
    if queue_exists {
        arguments.push("--playlist=".to_owned().concat(QUEUE_PATH));
    }
    let playlist = starting_playlist(args, general);
    arguments.push("--playlist=".to_owned().concat(playlist.as_str()));
    assert(text::views(arguments@) =~= playlist_arguments(*args, *general, queue_exists));
    arguments
}

/// Whether mpv is to shuffle: as the command line says, or else as is configured.
pub open spec fn shuffles(args: Args, general: GeneralConfig) -> bool {
    match args.shuffle {
        Some(s) => s,
        None => general.shuffle,
    }
}

/// The arguments that mpv is launched with.
pub open spec fn launch_arguments(args: Args, general: GeneralConfig, queued: bool) -> Seq<
    Seq<char>,
> {
    seq![
        "--shuffle="@ + if shuffles(args, general) {
            "yes"@
        } else {
            "no"@
        },
        "--really-quiet"@,
        "--geometry=350x350+1400+80"@,
        "--title=tuun-mpv"@,
        "--loop-playlist=inf"@,
        "--input-ipc-server="@ + SOCK_PATH@,
    ] + playlist_arguments(args, general, queued)
}

/// The arguments that mpv is launched with. `queue_exists` says whether songs are queued.
pub fn launch(args: &Args, general: &GeneralConfig, queue_exists: bool) -> (arguments: Vec<String>)
    ensures
        text::views(arguments@) == launch_arguments(*args, *general, queue_exists),
{
    let shuffle: bool = match args.shuffle {
        Some(s) => s,
        None => general.shuffle,
    };
    let to_shuffle = if shuffle {
        "yes"
    } else {
        "no"
    };
    let mut arguments: Vec<String> = vec![
        "--shuffle=".to_owned().concat(to_shuffle),
        "--really-quiet".to_owned(),
        "--geometry=350x350+1400+80".to_owned(),
        "--title=tuun-mpv".to_owned(),
        "--loop-playlist=inf".to_owned(),
        "--input-ipc-server=".to_owned().concat(SOCK_PATH),
    ];
    let mut playlists = prequeue(args, general, queue_exists);
    let ghost first = text::views(arguments@);
    let ghost second = text::views(playlists@);
    arguments.append(&mut playlists);
    assert(text::views(arguments@) =~= first + second);
    assert(text::views(arguments@) =~= launch_arguments(*args, *general, queue_exists));
    arguments
}

/// The command that follows the launch: where songs were queued, mpv goes on to the first of them.
pub fn first_command(queued: bool) -> (command: Option<String>)
    ensures
        text::opt_view(command) == if queued {
            Some(PLAYLIST_NEXT@)
        } else {
            None
        },
{
    if queued {
        Some(PLAYLIST_NEXT.to_owned())
    } else {
        None
    }
}

/// The lines of a text. What follows the last line break is a line only if it is not empty. A
/// carriage return in front of a line break stays at the end of its line.
pub open spec fn lines(s: Seq<char>) -> Seq<Seq<char>> {
    let pieces = text::split(s, '\n');
    if pieces.last().len() == 0 {
        pieces.drop_last()
    } else {
        pieces
    }
}

/// The commands that play the songs of a queue: one for each line, without the space around it.
pub open spec fn queue_commands(songs: Seq<char>) -> Seq<Seq<char>> {
    lines(songs).map_values(|line: Seq<char>| load_command(text::trim(line)))
}

/// The commands that play the songs of a queue: one for each line, without the space around it.
pub fn queue(songs: &str) -> (commands: Vec<String>)
    ensures
        text::views(commands@) == queue_commands(songs@),
{
    let mut pieces = text::split_text(songs, '\n');
    let ghost all = text::views(pieces@);
    proof {
        text::lemma_split_has_a_piece(songs@, '\n');
    }
    assert(all.last() == pieces@.last()@);
    if pieces[pieces.len() - 1].as_str().is_empty() {
        let dropped = pieces.pop();
        assert(text::views(pieces@) =~= all.drop_last());
    }
    assert(text::views(pieces@) == lines(songs@));
    let mut commands: Vec<String> = Vec::new();
    let mut i: usize = 0;
    while i < pieces.len()
        invariant
            i <= pieces@.len(),
            commands@.len() == i,
            text::views(pieces@) == lines(songs@),
            forall|k: int|
                0 <= k < i ==> (#[trigger] commands@[k])@ == load_command(
                    text::trim(lines(songs@)[k]),
                ),
        decreases pieces@.len() - i,
    {
        assert(text::views(pieces@)[i as int] == pieces@[i as int]@);
        commands.push(load_next(text::trim_text(pieces[i].as_str()).as_str()));
        i = i + 1;
    }
    assert(text::views(pieces@).len() == pieces@.len());
    assert(text::views(commands@) =~= queue_commands(songs@));
    commands
}

/// A step towards playing the songs of a queue.
#[derive(Debug, Clone, Copy, PartialEq, Eq, Structural)]
pub enum QueueStep {
    /// Send the command at this position.
    Send(usize),
    /// Remove the list of songs.
    Remove,
    /// All songs are queued.
    Queued,
    /// Something has failed, and what is left of the queue is left alone.
    Failed,
}

/// The first step towards playing the songs of a queue, by how many commands that takes.
pub open spec fn first_queue_step(commands: nat) -> QueueStep {
    if commands == 0 {
        QueueStep::Remove
    } else {
        QueueStep::Send(0)
    }
}

impl QueueStep {
    /// The step after this one, where `ok` says whether this one has succeeded.
    pub open spec fn after(self, ok: bool, commands: nat) -> QueueStep {
        match self {
            QueueStep::Send(i) => if !ok {
                QueueStep::Failed
            } else if i + 1 < commands {
                QueueStep::Send((i + 1) as usize)
            } else {
                QueueStep::Remove
            },
            QueueStep::Remove => if ok {
                QueueStep::Queued
            } else {
                QueueStep::Failed
            },
            QueueStep::Queued => QueueStep::Queued,
            QueueStep::Failed => QueueStep::Failed,
        }
    }

    /// The first step towards playing the songs of a queue, by how many commands that takes.
    pub fn first(commands: usize) -> (step: QueueStep)
        ensures
            step == first_queue_step(commands as nat),
    {
        if commands == 0 {
            QueueStep::Remove
        } else {
            QueueStep::Send(0)
        }
    }

    /// The step after this one, where `ok` says whether this one has succeeded.
    pub fn next(self, ok: bool, commands: usize) -> (step: QueueStep)
        ensures
            step == self.after(ok, commands as nat),
    {
        match self {
            QueueStep::Send(i) => {
                if !ok {
                    QueueStep::Failed
                } else if i < commands && i + 1 < commands {
                    QueueStep::Send(i + 1)
                } else {
                    QueueStep::Remove
                }
            },
            QueueStep::Remove => {
                if ok {
                    QueueStep::Queued
                } else {
                    QueueStep::Failed
                }
            },
            QueueStep::Queued => QueueStep::Queued,
            QueueStep::Failed => QueueStep::Failed,
        }
    }
}

/// The steps towards playing the songs of a queue, where `outcomes` says of each in turn whether it
/// succeeds.
pub open spec fn queue_steps(commands: nat, outcomes: Seq<bool>) -> QueueStep
    decreases outcomes.len(),
{
    if outcomes.len() == 0 {
        first_queue_step(commands)
    } else {
        queue_steps(commands, outcomes.drop_last()).after(outcomes.last(), commands)
    }
}

/// While every step succeeds, the commands are sent in order, then the list of songs is removed, and
/// then all are queued.
pub proof fn law_queue_is_sent_in_order(commands: usize, outcomes: Seq<bool>)
    requires
        forall|i: int| 0 <= i < outcomes.len() ==> #[trigger] outcomes[i],
    ensures
        queue_steps(commands as nat, outcomes) == if outcomes.len() < commands {
            QueueStep::Send(outcomes.len() as usize)
        } else if outcomes.len() == commands {
            QueueStep::Remove
        } else {
            QueueStep::Queued
        },
    decreases outcomes.len(),
{
    if outcomes.len() > 0 {
        let before = outcomes.drop_last();
        assert forall|i: int| 0 <= i < before.len() implies #[trigger] before[i] by {
            assert(outcomes[i]);
        }
        law_queue_is_sent_in_order(commands, before);
        assert(outcomes[outcomes.len() - 1]);
    }
}

/// Once a step towards playing the songs has failed, nothing more is sent or removed.
pub proof fn law_queue_stops_at_a_failure(commands: usize, outcomes: Seq<bool>, failed: int)
    requires
        0 <= failed < outcomes.len(),
        failed <= commands,
        !outcomes[failed],
        forall|i: int| 0 <= i < failed ==> #[trigger] outcomes[i],
    ensures
        queue_steps(commands as nat, outcomes) == QueueStep::Failed,
    decreases outcomes.len(),
{
    let before = outcomes.drop_last();
    if failed == outcomes.len() - 1 {
        assert forall|i: int| 0 <= i < before.len() implies #[trigger] before[i] by {
            assert(outcomes[i]);
        }
        law_queue_is_sent_in_order(commands, before);
    } else {
        assert forall|i: int| 0 <= i < failed implies #[trigger] before[i] by {
            assert(outcomes[i]);
        }
        law_queue_stops_at_a_failure(commands, before, failed);
    }
}

/// Cover art is shown only after mpv has replied three times, and whatever it replies, three replies
/// are enough to have done.
pub proof fn law_cover_art_ends(
    path: Option<Seq<char>>,
    first: Option<JsonView>,
    second: Option<JsonView>,
    third: Option<JsonView>,
)
    ensures
        ({
            let end = first_cover_step(path).after(first).after(second).after(third);
            &&& end == CoverStepView::Done || end == CoverStepView::GaveUp
            &&& end == CoverStepView::Done ==> first is Some && third is Some && (second matches Some(
                json,
            ) && video_in(json) is Some) && path is Some
        }),
{
}

/// Songs that are listed one on a line are queued in that order, without the space around them,
/// where no song holds a line break and the last one is not empty.
pub proof fn law_listed_songs_are_queued(songs: Seq<Seq<char>>)
    requires
        forall|i: int| 0 <= i < songs.len() ==> !(#[trigger] songs[i]).contains('\n'),
        songs.len() > 0 ==> songs.last().len() > 0,
    ensures
        queue_commands(text::join(songs, "\n"@)) == songs.map_values(
            |song: Seq<char>| load_command(text::trim(song)),
        ),
{
    lemma_lines_of_joined(songs);
}

/// The lines of texts that were joined by line breaks are the texts, where none holds a line break
/// and the last one is not empty.
pub proof fn lemma_lines_of_joined(texts: Seq<Seq<char>>)
    requires
        forall|i: int| 0 <= i < texts.len() ==> !(#[trigger] texts[i]).contains('\n'),
        texts.len() > 0 ==> texts.last().len() > 0,
    ensures
        lines(text::join(texts, "\n"@)) == texts,
{
    let joined = text::join(texts, "\n"@);
    reveal_strlit("\n");
    assert("\n"@ =~= seq!['\n']);
    if texts.len() == 0 {
        assert(joined =~= Seq::<char>::empty());
        assert(lines(joined) =~= texts);
    } else {
        text::lemma_split_of_join(texts, '\n');
    }
}

/// The player quits exactly if a file has ended because mpv quits, and attends to a change of a
/// property exactly if that is the event. Every other message, and every other reason for which a
/// file ends, is ignored.
pub proof fn law_only_quitting_quits(message: JsonView)
    ensures
        reaction(message) == Reaction::Quit <==> message.text_field("event"@) == Some(
            seq!['e', 'n', 'd', '-', 'f', 'i', 'l', 'e'],
        ) && message.text_field("reason"@) == Some(seq!['q', 'u', 'i', 't']),
        reaction(message) == Reaction::PropertyChange <==> message.text_field("event"@) == Some(
            "property-change"@,
        ),
        message.text_field("event"@) == Some("end-file"@) && message.text_field("reason"@) != Some(
            seq!['q', 'u', 'i', 't'],
        ) ==> reaction(message) == Reaction::Ignore,
        message.text_field("event"@) is None ==> reaction(message) == Reaction::Ignore,
        message.text_field("event"@) matches Some(event) && event != "end-file"@ && event
            != "property-change"@ ==> reaction(message) == Reaction::Ignore,
{
    reveal_strlit("end-file");
    reveal_strlit("quit");
    reveal_strlit("property-change");
    assert("end-file"@ =~= seq!['e', 'n', 'd', '-', 'f', 'i', 'l', 'e']);
    assert("quit"@ =~= seq!['q', 'u', 'i', 't']);
    assert("property-change"@.len() == 15);
}

/// Whether a text is another one, whole, between a front and a back.
pub open spec fn is_framed(
    whole: Seq<char>,
    front: Seq<char>,
    middle: Seq<char>,
    back: Seq<char>,
) -> bool {
    &&& whole.len() == front.len() + middle.len() + back.len()
    &&& whole.subrange(0, front.len() as int) == front
    &&& whole.subrange(front.len() as int, (front.len() + middle.len()) as int) == middle
    &&& whole.subrange((front.len() + middle.len()) as int, whole.len() as int) == back
}

proof fn lemma_framed(front: Seq<char>, middle: Seq<char>, back: Seq<char>)
    ensures
        is_framed(front + middle + back, front, middle, back),
{
    let whole = front + middle + back;
    assert(whole.subrange(0, front.len() as int) =~= front);
    assert(whole.subrange(front.len() as int, (front.len() + middle.len()) as int) =~= middle);
    assert(whole.subrange((front.len() + middle.len()) as int, whole.len() as int) =~= back);
}

/// The whole song stands in the command that plays it, as it is, and different songs have different
/// commands.
pub proof fn law_songs_are_named_whole(song: Seq<char>, other: Seq<char>)
    ensures
        is_framed(
            load_command(song),
            r#"{ "command": ["loadfile", ""#@,
            song,
            r#"", "insert-next"] }"#@,
        ),
        load_command(song) == load_command(other) ==> song == other,
{
    let front = r#"{ "command": ["loadfile", ""#@;
    let back = r#"", "insert-next"] }"#@;
    lemma_framed(front, song, back);
    lemma_framed(front, other, back);
    if load_command(song) == load_command(other) {
        assert(song.len() == other.len());
    }
}

/// The whole path of cover art stands in the command that adds it, and the flag after it.
pub proof fn law_cover_art_is_named_whole(path: Seq<char>, flag: Seq<char>, other: Seq<char>)
    ensures
        is_framed(
            add_command(path, flag),
            r#"{ "command": ["video-add", ""#@,
            path,
            r#"", "", "", ""#@ + flag + r#""] }"#@,
        ),
        add_command(path, flag) == add_command(other, flag) ==> path == other,
{
    let front = r#"{ "command": ["video-add", ""#@;
    let back = r#"", "", "", ""#@ + flag + r#""] }"#@;
    lemma_framed(front, path, back);
    lemma_framed(front, other, back);
    assert(add_command(path, flag) =~= front + path + back);
    assert(add_command(other, flag) =~= front + other + back);
    if add_command(path, flag) == add_command(other, flag) {
        assert(path.len() == other.len());
    }
}

/// The number of a video track stands in the command that shows it, and different tracks have
/// different commands.
pub proof fn law_video_tracks_are_numbered(id: u64, other: u64)
    ensures
        is_framed(
            show_command(id),
            r#"{ "command": ["set_property", "vid", "#@,
            text::decimal(id as nat),
            r#"] }"#@,
        ),
        show_command(id) == show_command(other) ==> id == other,
{
    let front = r#"{ "command": ["set_property", "vid", "#@;
    let back = r#"] }"#@;
    lemma_framed(front, text::decimal(id as nat), back);
    lemma_framed(front, text::decimal(other as nat), back);
    text::law_decimals_read_back(id as nat);
    text::law_decimals_read_back(other as nat);
    if show_command(id) == show_command(other) {
        assert(text::decimal(id as nat).len() == text::decimal(other as nat).len());
        assert(text::decimal(id as nat) == text::decimal(other as nat));
    }
}

/// The path is the text under `data` of a reply that is a table, as it is. Without a reply asking
/// has failed, a reply that is no table is invalid, and in a table without such a text it is missing.
pub proof fn law_paths_are_read_as_they_are(reply: JsonView, path: Seq<char>)
    ensures
        path_in(None) == Err::<Seq<char>, PathError>(PathError::Failed),
        !(reply is Table) ==> path_in(Some(reply)) == Err::<Seq<char>, PathError>(
            PathError::InvalidJson,
        ),
        reply is Table && reply.field("data"@) == Some(JsonView::Text(path)) ==> path_in(Some(reply))
            == Ok::<Seq<char>, PathError>(path),
        reply is Table && !(reply.field("data"@) matches Some(JsonView::Text(_))) ==> path_in(
            Some(reply),
        ) == Err::<Seq<char>, PathError>(PathError::Missing),
{
}

/// A file may hold a tag exactly if it has no extension or the extension `mp3`, whatever the case.
pub proof fn law_tags_are_in_mp3_files(path: Seq<char>)
    ensures
        may_hold_tag(path) <==> (paths::extension(path) matches Some(e) ==> text::ascii_lower(e)
            == seq!['m', 'p', '3']),
{
    reveal_strlit("mp3");
    assert(text::ascii_lower("mp3"@) =~= seq!['m', 'p', '3']);
}

/// An entry is cover art exactly if its name is known and begins with the letters of `cover`.
pub proof fn law_cover_art_is_named_cover(name: String)
    ensures
        !names_cover(None),
        names_cover(Some(name)) <==> name@.len() >= 5 && name@[0] == 'c' && name@[1] == 'o'
            && name@[2] == 'v' && name@[3] == 'e' && name@[4] == 'r',
{
    reveal_strlit("cover");
    let n = name@;
    if n.len() >= 5 && n[0] == 'c' && n[1] == 'o' && n[2] == 'v' && n[3] == 'e' && n[4] == 'r' {
        assert(n.subrange(0, 5) =~= "cover"@);
    }
    if "cover"@.is_prefix_of(n) {
        let front = n.subrange(0, 5);
        assert(front[0] == n[0] && front[1] == n[1] && front[2] == n[2]);
        assert(front[3] == n[3] && front[4] == n[4]);
    }
}

/// Cover art is moving exactly if its extension is `mp4` or `gif`. Without an extension it is not
/// known, and nothing is sent.
pub proof fn law_moving_cover_art(path: Seq<char>)
    ensures
        paths::extension(path) matches Some(e) ==> art_flag(path) == Some(
            if e == seq!['m', 'p', '4'] || e == seq!['g', 'i', 'f'] {
                "no"@
            } else {
                "yes"@
            },
        ),
        paths::extension(path) is None ==> art_flag(path) is None,
        first_cover_step(None) == CoverStepView::GaveUp,
        art_flag(path) is None ==> first_cover_step(Some(path)) == CoverStepView::GaveUp,
        art_flag(path) matches Some(flag) ==> first_cover_step(Some(path)) == CoverStepView::Add(
            add_command(path, flag),
        ),
{
    reveal_strlit("mp4");
    reveal_strlit("gif");
    assert("mp4"@ =~= seq!['m', 'p', '4']);
    assert("gif"@ =~= seq!['g', 'i', 'f']);
}

/// Cover art is added, then the tracks are asked for, and then the one that is found is shown. Each
/// step sends its command, and the first one without a reply is the last.
pub proof fn law_cover_art_is_shown_in_steps(
    added: Seq<char>,
    shown: Seq<char>,
    reply: JsonView,
    step: CoverStepView,
)
    ensures
        CoverStepView::Add(added).sends() == Some(added),
        CoverStepView::List.sends() == Some(r#"{ "command": ["get_property", "track-list"] }"#@),
        CoverStepView::Show(shown).sends() == Some(shown),
        CoverStepView::Done.sends() is None,
        CoverStepView::GaveUp.sends() is None,
        CoverStepView::Add(added).after(Some(reply)) == CoverStepView::List,
        video_in(reply) matches Some(id) ==> CoverStepView::List.after(Some(reply))
            == CoverStepView::Show(show_command(id)),
        video_in(reply) is None ==> CoverStepView::List.after(Some(reply))
            == CoverStepView::GaveUp,
        CoverStepView::Show(shown).after(Some(reply)) == CoverStepView::Done,
        step != CoverStepView::Done ==> step.after(None) == CoverStepView::GaveUp,
        CoverStepView::Done.after(None) == CoverStepView::Done,
        CoverStepView::Done.after(Some(reply)) == CoverStepView::Done,
        CoverStepView::GaveUp.after(Some(reply)) == CoverStepView::GaveUp,
{
}

/// Whether a track inside a file is a video, and titled as the picture of the artist.
pub open spec fn is_picture(track: JsonView) -> bool {
    &&& track.field("type"@) == Some(JsonView::Text(seq!['v', 'i', 'd', 'e', 'o']))
    &&& track.field("title"@) matches Some(JsonView::Text(title)) && text::ascii_lower(title)
        == "artist picture"@
}

/// The track that is shown is the last one that is a video titled as the picture of the artist: its
/// identifier is what counts, and no other track takes its place.
pub proof fn law_the_last_picture_is_shown(reply: JsonView, tracks: Seq<JsonView>, i: int)
    requires
        reply.field("data"@) == Some(JsonView::List(tracks)),
    ensures
        0 <= i < tracks.len() && is_picture(tracks[i]) && (forall|j: int|
            i < j < tracks.len() ==> !is_picture(#[trigger] tracks[j])) ==> video_in(reply)
            == match tracks[i].field("id"@) {
            Some(JsonView::Number(n)) => n.unsigned,
            _ => None,
        },
        (forall|j: int| 0 <= j < tracks.len() ==> !is_picture(#[trigger] tracks[j])) ==> video_in(
            reply,
        ) is None,
{
    lemma_last_picture_at(tracks, i);
}

/// Without a list of tracks there is none to show.
pub proof fn law_no_list_no_picture(reply: JsonView)
    requires
        !(reply.field("data"@) matches Some(JsonView::List(_))),
    ensures
        video_in(reply) is None,
{
}

proof fn lemma_pictures_agree(track: JsonView)
    ensures
        is_artist_picture(track) == is_picture(track),
{
    reveal_strlit("video");
    reveal_strlit("artist picture");
    assert("video"@ =~= seq!['v', 'i', 'd', 'e', 'o']);
    assert(text::ascii_lower("artist picture"@) =~= "artist picture"@);
}

proof fn lemma_last_picture_at(tracks: Seq<JsonView>, i: int)
    ensures
        0 <= i < tracks.len() && is_picture(tracks[i]) && (forall|j: int|
            i < j < tracks.len() ==> !is_picture(#[trigger] tracks[j])) ==> last_picture(tracks)
            == Some(tracks[i]),
        (forall|j: int| 0 <= j < tracks.len() ==> !is_picture(#[trigger] tracks[j]))
            ==> last_picture(tracks) is None,
    decreases tracks.len(),
{
    if tracks.len() > 0 {
        let n = tracks.len() - 1;
        let first = tracks.drop_last();
        lemma_pictures_agree(tracks[n]);
        lemma_last_picture_at(first, i);
        assert forall|j: int| 0 <= j < first.len() implies #[trigger] first[j] == tracks[j] by {}
        if forall|j: int| 0 <= j < tracks.len() ==> !is_picture(#[trigger] tracks[j]) {
            assert(!is_picture(tracks[n]));
            assert forall|j: int| 0 <= j < first.len() implies !is_picture(
                #[trigger] first[j],
            ) by {
                assert(!is_picture(tracks[j]));
            }
        }
        if 0 <= i < n && is_picture(tracks[i]) && (forall|j: int|
            i < j < tracks.len() ==> !is_picture(#[trigger] tracks[j])) {
            assert(!is_picture(tracks[n]));
            assert(is_picture(first[i]));
            assert forall|j: int| i < j < first.len() implies !is_picture(#[trigger] first[j]) by {
                assert(!is_picture(tracks[j]));
            }
        }
    }
}

/// What the command line asks for goes before what is configured, as it is.
pub proof fn law_the_command_line_goes_first(
    args: Args,
    general: GeneralConfig,
    playlist: String,
    shuffle: bool,
)
    ensures
        args.playlist == Some(playlist) ==> first_playlist(args, general) == playlist@,
        args.playlist is None ==> first_playlist(args, general) == general.playlist@,
        args.shuffle == Some(shuffle) ==> shuffles(args, general) == shuffle,
        args.shuffle is None ==> shuffles(args, general) == general.shuffle,
{
}

/// mpv is launched with six arguments of its own and then with its playlists: the queue, where there
/// is one, and the whole path of the one to start with last.
pub proof fn law_launch_arguments(args: Args, general: GeneralConfig, queued: bool)
    ensures
        ({
            let all = launch_arguments(args, general, queued);
            &&& all.len() == if queued {
                8int
            } else {
                7
            }
            &&& all[0] == if shuffles(args, general) {
                "--shuffle="@ + "yes"@
            } else {
                "--shuffle="@ + "no"@
            }
            &&& all[1] == "--really-quiet"@
            &&& all[2] == "--geometry=350x350+1400+80"@
            &&& all[3] == "--title=tuun-mpv"@
            &&& all[4] == "--loop-playlist=inf"@
            &&& all[5] == "--input-ipc-server="@ + "/tmp/tuun/mpvsocket"@
            &&& queued ==> all[6] == "--playlist="@ + "/tmp/tuun/quu.tpl"@
            &&& is_framed(
                all[all.len() - 1],
                "--playlist="@,
                first_playlist(args, general),
                Seq::<char>::empty(),
            )
            &&& playlist_arguments(args, general, queued) == all.skip(6)
        }),
{
    let playlist = first_playlist(args, general);
    let blank = Seq::<char>::empty();
    lemma_framed("--playlist="@, playlist, blank);
    assert("--playlist="@ + playlist + blank =~= "--playlist="@ + playlist);
    assert(playlist_arguments(args, general, queued) =~= launch_arguments(
        args,
        general,
        queued,
    ).skip(6));
}

/// A line break at the end of a text ends its last line and begins no other one.
pub proof fn law_a_final_line_break_begins_no_line(texts: Seq<Seq<char>>)
    requires
        texts.len() > 0,
        forall|i: int| 0 <= i < texts.len() ==> !(#[trigger] texts[i]).contains('\n'),
    ensures
        lines(text::join(texts, seq!['\n']) + seq!['\n']) == texts,
        queue_commands(text::join(texts, seq!['\n']) + seq!['\n']) == texts.map_values(
            |song: Seq<char>| load_command(text::trim(song)),
        ),
{
    let joined = text::join(texts, seq!['\n']);
    let blank = Seq::<char>::empty();
    text::lemma_split_of_join(texts, '\n');
    text::lemma_split_of_appended(joined, '\n', blank);
    assert(joined.push('\n') + blank =~= joined + seq!['\n']);
    assert(texts.push(blank).drop_last() =~= texts);
}

/// A song that is listed on a line, with any white space around it, is queued whole and in its place.
pub proof fn law_listed_songs_are_queued_whole(
    listed: Seq<Seq<char>>,
    i: int,
    left: Seq<char>,
    song: Seq<char>,
    right: Seq<char>,
)
    requires
        forall|k: int| 0 <= k < listed.len() ==> !(#[trigger] listed[k]).contains('\n'),
        listed.last().len() > 0,
        0 <= i < listed.len(),
        listed[i] == left + song + right,
        text::is_blank(left),
        text::is_blank(right),
        text::is_tight(song),
    ensures
        queue_commands(text::join(listed, "\n"@)).len() == listed.len(),
        is_framed(
            queue_commands(text::join(listed, "\n"@))[i],
            r#"{ "command": ["loadfile", ""#@,
            song,
            r#"", "insert-next"] }"#@,
        ),
{
    law_listed_songs_are_queued(listed);
    text::law_trimming_takes_the_space_around(left, song, right);
    law_songs_are_named_whole(song, song);
}

/// What is asked of mpv, how often, and where.
pub proof fn law_questions_are_fixed()
    ensures
        GET_PATH@ == r#" { "command" : [ "get_property", "path" ] } "#@,
        GET_DURATION@ == r#"{"command": ["get_property", "duration"]}"#@,
        GET_TRACK_LIST@ == r#"{ "command": ["get_property", "track-list"] }"#@,
        PLAYLIST_NEXT@ == r#"{ "command": ["playlist-next"] }"#@,
        SOCK_PATH@ == "/tmp/tuun/mpvsocket"@,
        QUEUE_PATH@ == "/tmp/tuun/quu.tpl"@,
        EXTERNAL_COVER_ART_SEARCH_LIMIT == 128,
        PATH_ATTEMPTS == 4,
        DURATION_ATTEMPTS == 65535,
        SOCKET_ATTEMPTS == 32,
        subscription_commands() == seq![
            r#"{"command": ["observe_property", 1, "filename"]}"#@,
            r#"{"command": ["observe_property", 2, "pause"]}"#@,
            r#"{"command": ["observe_property", 3, "loop-file"]}"#@,
            r#"{"command": ["observe_property", 4, "mute"]}"#@,
            r#"{"command": ["observe_property", 5, "playback-time"]}"#@,
            r#"{"command": ["observe_property", 6, "metadata"]}"#@,
            r#"{"command": ["observe_property", 7, "volume"]}"#@,
        ],
{
}

} // verus!
