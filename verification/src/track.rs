//! Tracks: what is known of the one that plays, where it is read from, and how it is shown.

use vstd::prelude::*;

use crate::color;
use crate::color::Theme;
use crate::color::ThemeView;
use crate::config;
use crate::config::ColorConfig;
use crate::metadata;
use crate::metadata::Metadata;
use crate::tag;
use crate::tag::Frame;
use crate::tag::FrameContent;
use crate::tag::TagData;
use crate::text;
use crate::url;

verus! {

broadcast use vstd::string::group_string_axioms;

/// How far a track has been played.
#[derive(Debug)]
pub struct Progress {
    /// The seconds, with three decimals.
    pub shown: String,
    /// Whether it is zero seconds exactly.
    pub at_start: bool,
}

/// How long a track is.
#[derive(Debug)]
pub struct Length {
    /// The seconds, as mpv writes them.
    pub exact: String,
    /// The seconds, with three decimals.
    pub shown: String,
    /// Whether it is less than a second away from the thousand seconds that stand for a length that
    /// is not known yet.
    pub placeholder: bool,
    /// The nanoseconds, where the seconds are a span of time.
    pub nanos: Option<u128>,
}

/// A track.
#[derive(Debug)]
pub struct Track {
    pub arturl: String,
    pub album_url: Option<String>,
    pub artist_url: Option<String>,
    pub artist_pfp: Option<String>,
    pub srcurl: Option<String>,
    pub title: String,
    pub artist: String,
    pub album: String,
    pub date: String,
    pub progress: Progress,
    pub duration: Length,
}

/// How long a track is.
#[verifier::ext_equal]
pub struct LengthView {
    pub exact: Seq<char>,
    pub shown: Seq<char>,
    pub placeholder: bool,
    pub nanos: Option<u128>,
}

/// What is known of a track.
#[verifier::ext_equal]
pub struct TrackView {
    pub arturl: Seq<char>,
    pub album_url: Option<Seq<char>>,
    pub artist_url: Option<Seq<char>>,
    pub artist_pfp: Option<Seq<char>>,
    pub srcurl: Option<Seq<char>>,
    pub title: Seq<char>,
    pub artist: Seq<char>,
    pub album: Seq<char>,
    pub date: Seq<char>,
    pub progress: (Seq<char>, bool),
    pub duration: LengthView,
}

impl View for Progress {
    type V = (Seq<char>, bool);

    open spec fn view(&self) -> (Seq<char>, bool) {
        (self.shown@, self.at_start)
    }
}

impl View for Length {
    type V = LengthView;

    open spec fn view(&self) -> LengthView {
        LengthView {
            exact: self.exact@,
            shown: self.shown@,
            placeholder: self.placeholder,
            nanos: self.nanos,
        }
    }
}

impl LengthView {
    /// The length that stands for one that is not known yet: a thousand seconds.
    pub open spec fn unknown() -> LengthView {
        LengthView {
            exact: "1000"@,
            shown: "1000.000"@,
            placeholder: true,
            nanos: Some(1_000_000_000_000),
        }
    }
}

impl Default for Length {
    fn default() -> (length: Self)
        ensures
            length@ == LengthView::unknown(),
    {
        Length {
            exact: "1000".to_owned(),
            shown: "1000.000".to_owned(),
            placeholder: true,
            nanos: Some(1_000_000_000_000),
        }
    }
}

/// How far a track has been played when it begins.
pub open spec fn start() -> (Seq<char>, bool) {
    ("0.000"@, true)
}

impl Default for Progress {
    fn default() -> (progress: Self)
        ensures
            progress@ == start(),
    {
        Progress { shown: "0.000".to_owned(), at_start: true }
    }
}

impl View for Track {
    type V = TrackView;

    open spec fn view(&self) -> TrackView {
        TrackView {
            arturl: self.arturl@,
            album_url: text::opt_view(self.album_url),
            artist_url: text::opt_view(self.artist_url),
            artist_pfp: text::opt_view(self.artist_pfp),
            srcurl: text::opt_view(self.srcurl),
            title: self.title@,
            artist: self.artist@,
            album: self.album@,
            date: self.date@,
            progress: self.progress@,
            duration: self.duration@,
        }
    }
}

impl TrackView {
    /// A track of which nothing is known.
    pub open spec fn unknown() -> TrackView {
        TrackView {
            arturl: Seq::<char>::empty(),
            album_url: None,
            artist_url: None,
            artist_pfp: None,
            srcurl: None,
            title: Seq::<char>::empty(),
            artist: Seq::<char>::empty(),
            album: Seq::<char>::empty(),
            date: Seq::<char>::empty(),
            progress: start(),
            duration: LengthView::unknown(),
        }
    }

    /// Whether nothing is known of the track that would be worth showing.
    pub open spec fn is_default(self) -> bool {
        &&& self.progress.1
        &&& self.duration.placeholder
        &&& self.title.len() == 0
        &&& self.artist.len() == 0
        &&& self.album.len() == 0
        &&& self.arturl.len() == 0
        &&& self.date.len() == 0
    }
}

fn copy_option(text: &Option<String>) -> (copy: Option<String>)
    ensures
        text::opt_view(copy) == text::opt_view(*text),
{
    match text {
        Some(t) => Some(t.clone()),
        None => None,
    }
}

impl Clone for Track {
    fn clone(&self) -> (copy: Self)
        ensures
            copy@ == self@,
    {
        Track {
            arturl: self.arturl.clone(),
            album_url: copy_option(&self.album_url),
            artist_url: copy_option(&self.artist_url),
            artist_pfp: copy_option(&self.artist_pfp),
            srcurl: copy_option(&self.srcurl),
            title: self.title.clone(),
            artist: self.artist.clone(),
            album: self.album.clone(),
            date: self.date.clone(),
            progress: Progress {
                shown: self.progress.shown.clone(),
                at_start: self.progress.at_start,
            },
            duration: Length {
                exact: self.duration.exact.clone(),
                shown: self.duration.shown.clone(),
                placeholder: self.duration.placeholder,
                nanos: self.duration.nanos,
            },
        }
    }
}

impl Default for Track {
    fn default() -> (track: Self)
        ensures
            track@ == TrackView::unknown(),
    {
        Track {
            arturl: String::new(),
            album_url: None,
            artist_url: None,
            artist_pfp: None,
            srcurl: None,
            title: String::new(),
            artist: String::new(),
            album: String::new(),
            date: String::new(),
            progress: Progress::default(),
            duration: Length::default(),
        }
    }
}

/// The first of `names` that a text begins with.
pub open spec fn first_prefix(s: Seq<char>, names: Seq<Seq<char>>) -> Option<Seq<char>>
    decreases names.len(),
{
    if names.len() == 0 {
        None
    } else if names.first().is_prefix_of(s) {
        Some(names.first())
    } else {
        first_prefix(s, names.drop_first())
    }
}

/// The primary one of the artists that a text names, where `exceptions` are the artists whose own
/// names hold a comma.
pub open spec fn primary_artist(artist: Seq<char>, exceptions: Seq<Seq<char>>) -> Seq<char> {
    if !artist.contains(',') {
        artist
    } else {
        match first_prefix(artist, exceptions) {
            Some(exception) => exception,
            None => text::trim(text::split(artist, ',')[0]),
        }
    }
}

/// The link of a frame with the given description, whatever the case of its letters.
pub open spec fn link_described(
    frame: tag::FrameView,
    wanted: Seq<char>,
) -> Option<Seq<char>> {
    match frame.content {
        tag::ContentView::ExtendedLink { description, link } => if text::ascii_lower(description)
            == text::ascii_lower(wanted) {
            Some(link)
        } else {
            None
        },
        _ => None,
    }
}

/// The text of a frame with exactly the given description, without null characters.
pub open spec fn text_described(
    frame: tag::FrameView,
    wanted: Seq<char>,
) -> Option<Seq<char>> {
    match frame.content {
        tag::ContentView::ExtendedText { description, value } => if description == wanted {
            Some(url::without_nulls(value))
        } else {
            None
        },
        _ => None,
    }
}

/// The link of a frame with the given identifier.
pub open spec fn link_identified(frame: tag::FrameView, id: Seq<char>) -> Option<Seq<char>> {
    if frame.id == id {
        tag::link_of(frame)
    } else {
        None
    }
}

/// The first of two texts that may be missing.
pub open spec fn either(a: Option<Seq<char>>, b: Option<Seq<char>>) -> Option<Seq<char>> {
    match a {
        Some(found) => Some(found),
        None => b,
    }
}

/// The cover art that a frame names.
pub open spec fn art_in(frame: tag::FrameView) -> Option<Seq<char>> {
    either(
        link_described(frame, "front cover"@),
        either(link_described(frame, "cover"@), text_described(frame, "arturl"@)),
    )
}

/// The page of the artist that a frame names.
pub open spec fn artist_page_in(frame: tag::FrameView) -> Option<Seq<char>> {
    either(link_described(frame, "artist homepage"@), link_identified(frame, "WOAR"@))
}

/// The page of the album that a frame names.
pub open spec fn album_page_in(frame: tag::FrameView) -> Option<Seq<char>> {
    either(link_described(frame, "album homepage"@), link_identified(frame, "WOAS"@))
}

/// The picture of the artist that a frame names.
pub open spec fn artist_picture_in(frame: tag::FrameView) -> Option<Seq<char>> {
    link_described(frame, "artist picture"@)
}

/// The link of a frame that is described as the source.
pub open spec fn source_described(frame: tag::FrameView) -> Option<Seq<char>> {
    match frame.content {
        tag::ContentView::ExtendedLink { description, link } => if description == "Source"@ {
            Some(link)
        } else {
            None
        },
        _ => None,
    }
}

/// The source of the track that a frame names, where no frame holds the link for it.
pub open spec fn source_in(frame: tag::FrameView) -> Option<Seq<char>> {
    either(
        source_described(frame),
        either(text_described(frame, "srcurl"@), link_identified(frame, "WOAS"@)),
    )
}

/// What the first frame to name it gives, where there is a tag.
pub open spec fn picked(
    tag: Option<Seq<tag::FrameView>>,
    pick: spec_fn(tag::FrameView) -> Option<Seq<char>>,
) -> Option<Seq<char>> {
    match tag {
        Some(frames) => tag::first_picked(frames, pick),
        None => None,
    }
}

/// The cover art: what mpv reports, or else what the tag names.
pub open spec fn art(
    data: Seq<metadata::EntryView>,
    tag: Option<Seq<tag::FrameView>>,
) -> Option<Seq<char>> {
    either(metadata::latest(data, "arturl"@), picked(tag, |f: tag::FrameView| art_in(f)))
}

/// The source of the track in a tag: the link for it, if a frame for it is there, and else what
/// some other frame names.
pub open spec fn source_of_tag(frames: Seq<tag::FrameView>) -> Option<Seq<char>> {
    match tag::frame_with_id(frames, "WOAF"@) {
        Some(frame) => tag::link_of(frame),
        None => tag::first_picked(frames, |f: tag::FrameView| source_in(f)),
    }
}

/// The source of the track: what mpv reports, or else what the tag names.
pub open spec fn source(
    data: Seq<metadata::EntryView>,
    tag: Option<Seq<tag::FrameView>>,
) -> Option<Seq<char>> {
    match metadata::latest(data, "srcurl"@) {
        Some(found) => Some(found),
        None => match tag {
            Some(frames) => source_of_tag(frames),
            None => None,
        },
    }
}

/// The artists of a tag: those of its frame for them, with commas between them.
pub open spec fn artists_of_tag(frames: Seq<tag::FrameView>) -> Option<Seq<char>> {
    match tag::frame_with_id(frames, "TPE1"@) {
        Some(frame) => match tag::text_of(frame) {
            Some(names) => Some(text::join(text::split(names, '\0'), ", "@)),
            None => None,
        },
        None => None,
    }
}

/// The artists of a track: those of its tag, or, where it has none, what mpv reports.
pub open spec fn artists(
    data: Seq<metadata::EntryView>,
    tag: Option<Seq<tag::FrameView>>,
) -> Seq<char> {
    match tag {
        Some(frames) => match artists_of_tag(frames) {
            Some(names) => names,
            None => "<Unknown artist>"@,
        },
        None => metadata::latest_or(data, "artist"@, "<Unknown artist>"@),
    }
}

/// The organization that a tag names.
pub open spec fn organization(frames: Seq<tag::FrameView>) -> Option<Seq<char>> {
    match tag::frame_with_id(frames, "TPUB"@) {
        Some(frame) => Some(frame.shown),
        None => None,
    }
}

/// An encoded URL, where there is one.
pub open spec fn opt_urlencoded(found: Option<Seq<char>>) -> Option<Seq<char>> {
    match found {
        Some(u) => Some(url::urlencoded(u)),
        None => None,
    }
}

/// The frames of a tag that may be missing.
pub open spec fn tag_view(tag: Option<&TagData>) -> Option<Seq<tag::FrameView>> {
    match tag {
        Some(t) => Some(t@),
        None => None,
    }
}

impl TrackView {
    /// The track after its metadata has been read anew.
    pub open spec fn with_metadata(
        self,
        data: Seq<metadata::EntryView>,
        tag: Option<Seq<tag::FrameView>>,
        fallback_art: Seq<char>,
    ) -> TrackView {
        TrackView {
            title: metadata::latest_or(data, "title"@, "<Unknown title>"@),
            artist: artists(data, tag),
            album: metadata::latest_or(data, "album"@, "<Unknown album>"@),
            date: metadata::latest_or(data, "date"@, "<Unknown date>"@),
            arturl: match art(data, tag) {
                Some(u) => url::urlencoded(u),
                None => fallback_art,
            },
            srcurl: opt_urlencoded(source(data, tag)),
            artist_url: opt_urlencoded(picked(tag, |f: tag::FrameView| artist_page_in(f))),
            album_url: opt_urlencoded(picked(tag, |f: tag::FrameView| album_page_in(f))),
            artist_pfp: opt_urlencoded(picked(tag, |f: tag::FrameView| artist_picture_in(f))),
            progress: self.progress,
            duration: self.duration,
        }
    }
}

fn find_link_described(frame: &Frame, wanted: &str) -> (found: Option<String>)
    ensures
        text::opt_view(found) == link_described(frame@, wanted@),
{
    match &frame.content {
        FrameContent::ExtendedLink { description, link } => {
            if text::same_ignoring_ascii_case(description.as_str(), wanted) {
                Some(link.clone())
            } else {
                None
            }
        },
        _ => None,
    }
}

fn find_text_described(frame: &Frame, wanted: &str) -> (found: Option<String>)
    ensures
        text::opt_view(found) == text_described(frame@, wanted@),
{
    match &frame.content {
        FrameContent::ExtendedText { description, value } => {
            if description.as_str().eq(wanted) {
                Some(url::strip_null(value.as_str()))
            } else {
                None
            }
        },
        _ => None,
    }
}

fn find_link_identified(frame: &Frame, id: &str) -> (found: Option<String>)
    ensures
        text::opt_view(found) == link_identified(frame@, id@),
{
    if frame.id.as_str().eq(id) {
        frame.link()
    } else {
        None
    }
}

fn find_art(frame: &Frame) -> (found: Option<String>)
    ensures
        text::opt_view(found) == art_in(frame@),
{
    let front = find_link_described(frame, "front cover");
    if front.is_some() {
        return front;
    }
    let cover = find_link_described(frame, "cover");
    if cover.is_some() {
        return cover;
    }
    find_text_described(frame, "arturl")
}

fn find_artist_page(frame: &Frame) -> (found: Option<String>)
    ensures
        text::opt_view(found) == artist_page_in(frame@),
{
    let page = find_link_described(frame, "artist homepage");
    if page.is_some() {
        return page;
    }
    find_link_identified(frame, "WOAR")
}

fn find_album_page(frame: &Frame) -> (found: Option<String>)
    ensures
        text::opt_view(found) == album_page_in(frame@),
{
    let page = find_link_described(frame, "album homepage");
    if page.is_some() {
        return page;
    }
    find_link_identified(frame, "WOAS")
}

fn find_artist_picture(frame: &Frame) -> (found: Option<String>)
    ensures
        text::opt_view(found) == artist_picture_in(frame@),
{
    find_link_described(frame, "artist picture")
}

fn find_source(frame: &Frame) -> (found: Option<String>)
    ensures
        text::opt_view(found) == source_in(frame@),
{
    if let FrameContent::ExtendedLink { description, link } = &frame.content {
        if description.as_str().eq("Source") {
            return Some(link.clone());
        }
    }
    let value = find_text_described(frame, "srcurl");
    if value.is_some() {
        return value;
    }
    find_link_identified(frame, "WOAS")
}

fn encode_option(found: Option<String>) -> (encoded: Option<String>)
    ensures
        text::opt_view(encoded) == opt_urlencoded(text::opt_view(found)),
{
    match found {
        Some(u) => Some(url::urlencode(u.as_str())),
        None => None,
    }
}

impl Track {
    /// Returns the primary artist, accounting for configured exceptions
    pub fn get_primary_artist(&self, artists_with_commas: &Vec<String>) -> (artist: String)
        ensures
            artist@ == primary_artist(self@.artist, text::views(artists_with_commas@)),
    {
        if !text::contains_char(self.artist.as_str(), ',') {
            return self.artist.clone();
        }
        let ghost names = text::views(artists_with_commas@);
        let mut i: usize = 0;
        assert(names.skip(0) =~= names);
        while i < artists_with_commas.len()
            invariant
                i <= artists_with_commas@.len() == names.len(),
                names == text::views(artists_with_commas@),
                self@.artist.contains(','),
                first_prefix(self@.artist, names) == first_prefix(
                    self@.artist,
                    names.skip(i as int),
                ),
            decreases artists_with_commas@.len() - i,
        {
            assert(names[i as int] == artists_with_commas@[i as int]@);
            if text::starts_with(self.artist.as_str(), artists_with_commas[i].as_str()) {
                return artists_with_commas[i].clone();
            }
            assert(names.skip(i as int).drop_first() =~= names.skip(i + 1));
            i = i + 1;
        }
        let pieces = text::split_text(self.artist.as_str(), ',');
        proof {
            text::lemma_split_has_a_piece(self@.artist, ',');
        }
        assert(text::views(pieces@)[0] == pieces@[0]@);
        text::trim_text(pieces[0].as_str())
    }

    /// The organization that a tag names.
    pub fn get_organization(tag: &TagData) -> (found: Option<String>)
        ensures
            text::opt_view(found) == organization(tag@),
    {
        match tag.get("TPUB") {
            Some(frame) => Some(frame.shown.clone()),
            None => None,
        }
    }

    /// The cover art: what mpv reports, or else what the tag names.
    pub fn get_arturl(data: &Metadata, tag: Option<&TagData>) -> (found: Option<String>)
        ensures
            text::opt_view(found) == art(data@, tag_view(tag)),
    {
        let reported = data.get("arturl");
        if reported.is_some() {
            return reported;
        }
        match tag {
            Some(t) => t.find_map(find_art, Ghost(|f: tag::FrameView| art_in(f))),
            None => None,
        }
    }

    /// The page of the artist that the tag names.
    pub fn get_artisturl(tag: Option<&TagData>) -> (found: Option<String>)
        ensures
            text::opt_view(found) == picked(
                tag_view(tag),
                |f: tag::FrameView| artist_page_in(f),
            ),
    {
        match tag {
            Some(t) => t.find_map(find_artist_page, Ghost(|f: tag::FrameView| artist_page_in(f))),
            None => None,
        }
    }

    /// The page of the album that the tag names.
    pub fn get_albumurl(tag: Option<&TagData>) -> (found: Option<String>)
        ensures
            text::opt_view(found) == picked(
                tag_view(tag),
                |f: tag::FrameView| album_page_in(f),
            ),
    {
        match tag {
            Some(t) => t.find_map(find_album_page, Ghost(|f: tag::FrameView| album_page_in(f))),
            None => None,
        }
    }

    /// The picture of the artist that the tag names.
    pub fn get_artistpfp(tag: Option<&TagData>) -> (found: Option<String>)
        ensures
            text::opt_view(found) == picked(
                tag_view(tag),
                |f: tag::FrameView| artist_picture_in(f),
            ),
    {
        match tag {
            Some(t) => t.find_map(
                find_artist_picture,
                Ghost(|f: tag::FrameView| artist_picture_in(f)),
            ),
            None => None,
        }
    }

    /// The source of the track: what mpv reports, or else what the tag names.
    pub fn get_srcurl(data: &Metadata, tag: Option<&TagData>) -> (found: Option<String>)
        ensures
            text::opt_view(found) == source(data@, tag_view(tag)),
    {
        let reported = data.get("srcurl");
        if reported.is_some() {
            return reported;
        }
        match tag {
            Some(t) => match t.get("WOAF") {
                Some(frame) => frame.link(),
                None => t.find_map(find_source, Ghost(|f: tag::FrameView| source_in(f))),
            },
            None => None,
        }
    }

    /// The artists of the track: those of its tag, or, where it has none, what mpv reports.
    pub fn get_artists(data: &Metadata, tag: Option<&TagData>) -> (names: String)
        ensures
            names@ == artists(data@, tag_view(tag)),
    {
        match tag {
            Some(t) => {
                if let Some(frame) = t.get("TPE1") {
                    if let Some(names) = frame.text() {
                        let pieces = text::split_text(names.as_str(), '\0');
                        return text::join_texts(&pieces, ", ");
                    }
                }
                "<Unknown artist>".to_owned()
            },
            None => data.get_or("artist", "<Unknown artist>"),
        }
    }

    /// Reads the metadata anew. How far the track has been played and how long it is stay.
    pub fn update_metadata(&mut self, data: &Metadata, tag: Option<&TagData>, fallback_art: &str)
        ensures
            final(self)@ == old(self)@.with_metadata(data@, tag_view(tag), fallback_art@),
    {
        self.title = data.get_or("title", "<Unknown title>");
        self.artist = Self::get_artists(data, tag);
        self.album = data.get_or("album", "<Unknown album>");
        self.date = data.get_or("date", "<Unknown date>");
        self.arturl = match Self::get_arturl(data, tag) {
            Some(u) => url::urlencode(u.as_str()),
            None => fallback_art.to_owned(),
        };
        self.srcurl = encode_option(Self::get_srcurl(data, tag));
        self.artist_url = encode_option(Self::get_artisturl(tag));
        self.album_url = encode_option(Self::get_albumurl(tag));
        self.artist_pfp = encode_option(Self::get_artistpfp(tag));
    }

    /// Notes how far the track has been played.
    pub fn update_progress(&mut self, progress: Progress)
        ensures
            final(self)@ == (TrackView { progress: progress@, ..old(self)@ }),
    {
        self.progress = progress;
    }

    /// Notes how long the track is.
    pub fn update_duration(&mut self, duration: Length)
        ensures
            final(self)@ == (TrackView { duration: duration@, ..old(self)@ }),
    {
        self.duration = duration;
    }

    /// Whether nothing is known of the track that would be worth showing.
    pub fn is_default(&self) -> (yes: bool)
        ensures
            yes == self@.is_default(),
    {
        self.progress.at_start && self.duration.placeholder && self.title.as_str().is_empty()
            && self.artist.as_str().is_empty() && self.album.as_str().is_empty()
            && self.arturl.as_str().is_empty() && self.date.as_str().is_empty()
    }
}

proof fn lemma_first_prefix_is_its_own(s: Seq<char>, names: Seq<Seq<char>>)
    requires
        first_prefix(s, names) is Some,
    ensures
        first_prefix(first_prefix(s, names)->0, names) == first_prefix(s, names),
        first_prefix(s, names)->0.is_prefix_of(s),
    decreases names.len(),
{
    let found = first_prefix(s, names)->0;
    if names.first().is_prefix_of(s) {
        assert(found.subrange(0, found.len() as int) =~= found);
    } else {
        lemma_first_prefix_is_its_own(s, names.drop_first());
        if names.first().is_prefix_of(found) {
            let n = names.first();
            assert(s.subrange(0, n.len() as int) =~= found.subrange(0, n.len() as int));
        }
    }
}

/// The primary artist of the primary artist is that artist.
pub proof fn law_primary_artist_is_stable(artist: Seq<char>, exceptions: Seq<Seq<char>>)
    ensures
        primary_artist(primary_artist(artist, exceptions), exceptions) == primary_artist(
            artist,
            exceptions,
        ),
{
    if artist.contains(',') {
        if first_prefix(artist, exceptions) is Some {
            lemma_first_prefix_is_its_own(artist, exceptions);
        } else {
            text::lemma_split_has_a_piece(artist, ',');
            text::lemma_pieces_are_free(artist, ',');
            assert(!text::split(artist, ',')[0].contains(','));
            text::lemma_trim_stays_free(text::split(artist, ',')[0], ',');
        }
    }
}

/// The primary artist is one of the exceptions, and then the artists begin with it, or holds no
/// comma.
pub proof fn law_commas_are_exceptional(artist: Seq<char>, exceptions: Seq<Seq<char>>)
    ensures
        ({
            let primary = primary_artist(artist, exceptions);
            primary.contains(',') ==> exceptions.contains(primary) && primary.is_prefix_of(artist)
        }),
{
    if artist.contains(',') {
        if first_prefix(artist, exceptions) is Some {
            lemma_first_prefix_is_its_own(artist, exceptions);
            lemma_first_prefix_is_listed(artist, exceptions);
        } else {
            text::lemma_split_has_a_piece(artist, ',');
            text::lemma_pieces_are_free(artist, ',');
            assert(!text::split(artist, ',')[0].contains(','));
            text::lemma_trim_stays_free(text::split(artist, ',')[0], ',');
        }
    }
}

proof fn lemma_first_prefix_is_listed(s: Seq<char>, names: Seq<Seq<char>>)
    requires
        first_prefix(s, names) is Some,
    ensures
        names.contains(first_prefix(s, names)->0),
    decreases names.len(),
{
    if names.first().is_prefix_of(s) {
        assert(names[0] == names.first());
    } else {
        let rest = names.drop_first();
        lemma_first_prefix_is_listed(s, rest);
        let found = first_prefix(s, names)->0;
        let k = choose|k: int| 0 <= k < rest.len() && rest[k] == found;
        assert(names[k + 1] == found);
    }
}

/// A track of which nothing is known counts as such, and one whose metadata has been read only does
/// if its title, its album and its date are all reported to be empty.
pub proof fn law_read_tracks_are_known(
    track: TrackView,
    data: Seq<metadata::EntryView>,
    tag: Option<Seq<tag::FrameView>>,
    fallback_art: Seq<char>,
)
    ensures
        TrackView::unknown().is_default(),
        track.with_metadata(data, tag, fallback_art).is_default() ==> {
            &&& metadata::latest(data, "title"@) == Some(Seq::<char>::empty())
            &&& metadata::latest(data, "album"@) == Some(Seq::<char>::empty())
            &&& metadata::latest(data, "date"@) == Some(Seq::<char>::empty())
        },
{
    reveal_strlit("<Unknown title>");
    reveal_strlit("<Unknown album>");
    reveal_strlit("<Unknown date>");
    let read = track.with_metadata(data, tag, fallback_art);
    if read.is_default() {
        assert(read.title =~= Seq::<char>::empty());
        assert(read.album =~= Seq::<char>::empty());
        assert(read.date =~= Seq::<char>::empty());
    }
}

/// Reading the same metadata again changes nothing.
pub proof fn law_reading_again_changes_nothing(
    track: TrackView,
    data: Seq<metadata::EntryView>,
    tag: Option<Seq<tag::FrameView>>,
    fallback_art: Seq<char>,
)
    ensures
        ({
            let read = track.with_metadata(data, tag, fallback_art);
            read.with_metadata(data, tag, fallback_art) == read
        }),
{
}

/// What mpv reports of the cover art and of the source goes before what the tag names.
pub proof fn law_reports_go_first(
    data: Seq<metadata::EntryView>,
    tag: Option<Seq<tag::FrameView>>,
)
    ensures
        metadata::latest(data, "arturl"@) is Some ==> art(data, tag) == metadata::latest(
            data,
            "arturl"@,
        ),
        metadata::latest(data, "srcurl"@) is Some ==> source(data, tag) == metadata::latest(
            data,
            "srcurl"@,
        ),
{
}

/// What sets bold type on a terminal.
pub const BOLD: &'static str = "\x1b[1m";

/// What sets a terminal back to plain type.
pub const RESET: &'static str = "\x1b[0m";

/// What clears a terminal before a track is shown on it.
pub const CLEAR: &'static str = "\x1b[2J\x1b[1;1H\x1b[?251";

/// A line of the display: its number in the primary color, its label in the secondary one, and what
/// it says in the tertiary one.
pub open spec fn shown_line(
    theme: ThemeView,
    number: Seq<char>,
    label: Seq<char>,
    says: Seq<char>,
) -> Seq<char> {
    BOLD@ + theme.p + number + " "@ + theme.s + "::: "@ + label + " - "@ + theme.t + says
        + RESET@
}

/// `says` with a remark behind it, where the remark applies.
pub open spec fn remarked(says: Seq<char>, applies: bool, remark: Seq<char>) -> Seq<char> {
    if applies {
        says + remark
    } else {
        says
    }
}

impl TrackView {
    /// The heading of the display.
    pub open spec fn heading(theme: ThemeView) -> Seq<char> {
        BOLD@ + theme.p + "TUUN "@ + config::VERSION@ + RESET@
    }

    /// The lines of the display below its heading.
    pub open spec fn shown_lines(
        self,
        theme: ThemeView,
        looped: bool,
        muted: bool,
        volume: u32,
    ) -> Seq<Seq<char>> {
        seq![
            shown_line(theme, "01"@, "Ttl"@, self.title),
            shown_line(theme, "02"@, "Art"@, self.artist),
            shown_line(theme, "03"@, "Alb"@, self.album),
            shown_line(theme, "04"@, "Dte"@, self.date),
            shown_line(
                theme,
                "05"@,
                "Vol"@,
                remarked(text::decimal(volume as nat), muted, " (muted)"@),
            ),
            shown_line(
                theme,
                "06"@,
                "Prg"@,
                remarked(self.progress.0 + "/"@ + self.duration.shown, looped, " (looped)"@),
            ),
        ]
    }

    /// The display of a track.
    pub open spec fn shown(
        self,
        theme: ThemeView,
        looped: bool,
        muted: bool,
        volume: u32,
    ) -> Seq<char> {
        Self::heading(theme) + "\n\n"@ + text::join(
            self.shown_lines(theme, looped, muted, volume),
            "\n"@,
        )
    }
}

/// Whether a text stays on its line.
pub open spec fn is_one_line(s: Seq<char>) -> bool {
    !s.contains('\n')
}

proof fn lemma_sum_is_one_line(a: Seq<char>, b: Seq<char>)
    requires
        is_one_line(a),
        is_one_line(b),
    ensures
        is_one_line(a + b),
{
    assert forall|k: int| 0 <= k < (a + b).len() implies (a + b)[k] != '\n' by {
        if k < a.len() {
            assert(a.contains(a[k]));
        } else {
            assert(b.contains(b[k - a.len()]));
        }
    }
}

proof fn lemma_decimal_is_one_line(n: nat)
    ensures
        is_one_line(text::decimal(n)),
    decreases n,
{
    if n >= 10 {
        lemma_decimal_is_one_line(n / 10);
        assert(is_one_line(seq![text::digit(n % 10)]));
        lemma_sum_is_one_line(text::decimal(n / 10), seq![text::digit(n % 10)]);
        assert(text::decimal(n) =~= text::decimal(n / 10) + seq![text::digit(n % 10)]);
    }
}

proof fn lemma_shown_line_is_one_line(
    theme: ThemeView,
    number: Seq<char>,
    label: Seq<char>,
    says: Seq<char>,
)
    requires
        is_one_line(theme.p),
        is_one_line(theme.s),
        is_one_line(theme.t),
        is_one_line(number),
        is_one_line(label),
        is_one_line(says),
    ensures
        is_one_line(shown_line(theme, number, label, says)),
{
    reveal_strlit("\x1b[1m");
    reveal_strlit("\x1b[0m");
    reveal_strlit(" ");
    reveal_strlit("::: ");
    reveal_strlit(" - ");
    let s1 = BOLD@ + theme.p;
    let s2 = s1 + number;
    let s3 = s2 + " "@;
    let s4 = s3 + theme.s;
    let s5 = s4 + "::: "@;
    let s6 = s5 + label;
    let s7 = s6 + " - "@;
    let s8 = s7 + theme.t;
    let s9 = s8 + says;
    lemma_sum_is_one_line(BOLD@, theme.p);
    lemma_sum_is_one_line(s1, number);
    lemma_sum_is_one_line(s2, " "@);
    lemma_sum_is_one_line(s3, theme.s);
    lemma_sum_is_one_line(s4, "::: "@);
    lemma_sum_is_one_line(s5, label);
    lemma_sum_is_one_line(s6, " - "@);
    lemma_sum_is_one_line(s7, theme.t);
    lemma_sum_is_one_line(s8, says);
    lemma_sum_is_one_line(s9, RESET@);
}

proof fn lemma_remarked_is_one_line(says: Seq<char>, applies: bool, remark: Seq<char>)
    requires
        is_one_line(says),
        is_one_line(remark),
    ensures
        is_one_line(remarked(says, applies, remark)),
{
    lemma_sum_is_one_line(says, remark);
}

impl TrackView {
    /// Whether nothing that is known of the track spills over its line of the display.
    pub open spec fn fits_on_lines(self) -> bool {
        &&& is_one_line(self.title)
        &&& is_one_line(self.artist)
        &&& is_one_line(self.album)
        &&& is_one_line(self.date)
        &&& is_one_line(self.progress.0)
        &&& is_one_line(self.duration.shown)
    }
}

proof fn lemma_display_lines_are_lines(
    track: TrackView,
    theme: ThemeView,
    looped: bool,
    muted: bool,
    volume: u32,
)
    requires
        is_one_line(theme.p),
        is_one_line(theme.s),
        is_one_line(theme.t),
        track.fits_on_lines(),
    ensures
        forall|i: int|
            0 <= i < 6 ==> is_one_line(
                #[trigger] track.shown_lines(theme, looped, muted, volume)[i],
            ),
{
    reveal_strlit("01");
    reveal_strlit("02");
    reveal_strlit("03");
    reveal_strlit("04");
    reveal_strlit("05");
    reveal_strlit("06");
    reveal_strlit("Ttl");
    reveal_strlit("Art");
    reveal_strlit("Alb");
    reveal_strlit("Dte");
    reveal_strlit("Vol");
    reveal_strlit("Prg");
    reveal_strlit("/");
    reveal_strlit(" (muted)");
    reveal_strlit(" (looped)");
    lemma_shown_line_is_one_line(theme, "01"@, "Ttl"@, track.title);
    lemma_shown_line_is_one_line(theme, "02"@, "Art"@, track.artist);
    lemma_shown_line_is_one_line(theme, "03"@, "Alb"@, track.album);
    lemma_shown_line_is_one_line(theme, "04"@, "Dte"@, track.date);
    lemma_decimal_is_one_line(volume as nat);
    lemma_remarked_is_one_line(text::decimal(volume as nat), muted, " (muted)"@);
    lemma_shown_line_is_one_line(
        theme,
        "05"@,
        "Vol"@,
        remarked(text::decimal(volume as nat), muted, " (muted)"@),
    );
    lemma_sum_is_one_line(track.progress.0, "/"@);
    lemma_sum_is_one_line(track.progress.0 + "/"@, track.duration.shown);
    lemma_remarked_is_one_line(
        track.progress.0 + "/"@ + track.duration.shown,
        looped,
        " (looped)"@,
    );
    lemma_shown_line_is_one_line(
        theme,
        "06"@,
        "Prg"@,
        remarked(track.progress.0 + "/"@ + track.duration.shown, looped, " (looped)"@),
    );
}

proof fn lemma_heading_is_one_line(theme: ThemeView)
    requires
        is_one_line(theme.p),
    ensures
        is_one_line(TrackView::heading(theme)),
{
    reveal_strlit("\x1b[1m");
    reveal_strlit("\x1b[0m");
    reveal_strlit("TUUN ");
    reveal_strlit("5.0.0");
    lemma_sum_is_one_line(BOLD@, theme.p);
    lemma_sum_is_one_line(BOLD@ + theme.p, "TUUN "@);
    lemma_sum_is_one_line(BOLD@ + theme.p + "TUUN "@, config::VERSION@);
    lemma_sum_is_one_line(BOLD@ + theme.p + "TUUN "@ + config::VERSION@, RESET@);
}

/// A heading, an empty line and some lines more are split into just these.
proof fn lemma_split_of_display(heading: Seq<char>, lines: Seq<Seq<char>>)
    requires
        is_one_line(heading),
        lines.len() > 0,
        forall|i: int| 0 <= i < lines.len() ==> is_one_line(#[trigger] lines[i]),
    ensures
        text::split(heading + "\n\n"@ + text::join(lines, "\n"@), '\n') == seq![
            heading,
            Seq::<char>::empty(),
        ] + lines,
{
    let blank = Seq::<char>::empty();
    let below = seq![blank] + lines;
    let all = seq![heading] + below;
    reveal_strlit("\n");
    reveal_strlit("\n\n");
    assert("\n"@ =~= seq!['\n']);
    assert forall|i: int| 0 <= i < all.len() implies !(#[trigger] all[i]).contains('\n') by {
        if i >= 2 {
            assert(all[i] == lines[i - 2]);
            assert(is_one_line(lines[i - 2]));
        }
    }
    text::lemma_join_of_front(blank, lines, "\n"@);
    text::lemma_join_of_front(heading, below, "\n"@);
    text::lemma_split_of_join(all, '\n');
    assert(heading + "\n\n"@ + text::join(lines, "\n"@) =~= text::join(all, "\n"@));
    assert(all =~= seq![heading, blank] + lines);
}

proof fn lemma_color_is_one_line(hex: Seq<char>)
    ensures
        is_one_line(color::foreground_hex(hex)),
{
    if let Some((r, g, b)) = color::rgb(hex) {
        reveal_strlit("\x1b[38;2;");
        reveal_strlit(";");
        reveal_strlit("m");
        let s1 = "\x1b[38;2;"@ + text::decimal(r as nat);
        let s2 = s1 + ";"@;
        let s3 = s2 + text::decimal(g as nat);
        let s4 = s3 + ";"@;
        let s5 = s4 + text::decimal(b as nat);
        lemma_decimal_is_one_line(r as nat);
        lemma_decimal_is_one_line(g as nat);
        lemma_decimal_is_one_line(b as nat);
        lemma_sum_is_one_line("\x1b[38;2;"@, text::decimal(r as nat));
        lemma_sum_is_one_line(s1, ";"@);
        lemma_sum_is_one_line(s2, text::decimal(g as nat));
        lemma_sum_is_one_line(s3, ";"@);
        lemma_sum_is_one_line(s4, text::decimal(b as nat));
        lemma_sum_is_one_line(s5, "m"@);
    }
}

/// The display has a heading, an empty line and six lines more, where nothing that is known of the
/// track holds a line break.
pub proof fn law_display_has_eight_lines(
    track: TrackView,
    colors: ColorConfig,
    looped: bool,
    muted: bool,
    volume: u32,
)
    requires
        track.fits_on_lines(),
    ensures
        ({
            let theme = color::theme_of(colors);
            let lines = track.shown_lines(theme, looped, muted, volume);
            &&& text::split(track.shown(theme, looped, muted, volume), '\n') == seq![
                TrackView::heading(theme),
                Seq::<char>::empty(),
            ] + lines
            &&& lines.len() == 6
        }),
{
    let theme = color::theme_of(colors);
    lemma_color_is_one_line(colors.primary@);
    lemma_color_is_one_line(colors.secondary@);
    lemma_color_is_one_line(colors.tertiary@);
    lemma_heading_is_one_line(theme);
    lemma_display_lines_are_lines(track, theme, looped, muted, volume);
    lemma_split_of_display(
        TrackView::heading(theme),
        track.shown_lines(theme, looped, muted, volume),
    );
}

fn format_line(theme: &Theme, number: &str, label: &str, says: &str) -> (line: String)
    ensures
        line@ == shown_line(theme@, number@, label@, says@),
{
    let mut line = BOLD.to_owned();
    line.append(theme.p.as_str());
    line.append(number);
    line.append(" ");
    line.append(theme.s.as_str());
    line.append("::: ");
    line.append(label);
    line.append(" - ");
    line.append(theme.t.as_str());
    line.append(says);
    line.append(RESET);
    line
}

impl Track {
    /// The display of the track, with the state of the player.
    pub fn format_metadata(&self, theme: &Theme, looped: bool, muted: bool, volume: u32) -> (display:
        String)
        ensures
            display@ == self@.shown(theme@, looped, muted, volume),
    {
        let mut loudness = text::decimal_text(volume as u64);
        if muted {
            loudness.append(" (muted)");
        }
        let mut played = self.progress.shown.clone();
        played.append("/");
        played.append(self.duration.shown.as_str());
        if looped {
            played.append(" (looped)");
        }
        let lines: Vec<String> = vec![
            format_line(theme, "01", "Ttl", self.title.as_str()),
            format_line(theme, "02", "Art", self.artist.as_str()),
            format_line(theme, "03", "Alb", self.album.as_str()),
            format_line(theme, "04", "Dte", self.date.as_str()),
            format_line(theme, "05", "Vol", loudness.as_str()),
            format_line(theme, "06", "Prg", played.as_str()),
        ];
        assert(text::views(lines@) =~= self@.shown_lines(theme@, looped, muted, volume));
        let mut display = BOLD.to_owned();
        display.append(theme.p.as_str());
        display.append("TUUN ");
        display.append(config::VERSION);
        display.append(RESET);
        display.append("\n\n");
        display.append(text::join_texts(&lines, "\n").as_str());
        display
    }

    /// The artist and the title, on one line.
    pub fn to_text(&self) -> (line: String)
        ensures
            line@ == self@.artist + " - "@ + self@.title,
    {
        let mut line = self.artist.clone();
        line.append(" - ");
        line.append(self.title.as_str());
        line
    }
}

/// A track is what its fields are.
pub proof fn law_track_is_its_fields(track: Track)
    ensures
        track@.arturl == track.arturl@,
        track@.title == track.title@,
        track@.artist == track.artist@,
        track@.album == track.album@,
        track@.date == track.date@,
        track@.progress == (track.progress.shown@, track.progress.at_start),
        track@.duration.exact == track.duration.exact@,
        track@.duration.shown == track.duration.shown@,
        track@.duration.placeholder == track.duration.placeholder,
        track@.duration.nanos == track.duration.nanos,
        track@.album_url == text::opt_view(track.album_url),
        track@.artist_url == text::opt_view(track.artist_url),
        track@.artist_pfp == text::opt_view(track.artist_pfp),
        track@.srcurl == text::opt_view(track.srcurl),
{
}

/// A track is a default one exactly if it is at its start, its length is the placeholder, and its
/// title, artist, album, cover art and date are all empty.
pub proof fn law_default_tracks_are_empty(track: TrackView)
    ensures
        track.is_default() <==> track.progress.1 && track.duration.placeholder && track.title
            == Seq::<char>::empty() && track.artist == Seq::<char>::empty() && track.album
            == Seq::<char>::empty() && track.arturl == Seq::<char>::empty() && track.date
            == Seq::<char>::empty(),
{
    assert(track.title.len() == 0 ==> track.title =~= Seq::<char>::empty());
    assert(track.artist.len() == 0 ==> track.artist =~= Seq::<char>::empty());
    assert(track.album.len() == 0 ==> track.album =~= Seq::<char>::empty());
    assert(track.arturl.len() == 0 ==> track.arturl =~= Seq::<char>::empty());
    assert(track.date.len() == 0 ==> track.date =~= Seq::<char>::empty());
}

/// An artist without a comma is the primary one, as it is.
pub proof fn law_single_artists_stay(artist: Seq<char>, exceptions: Seq<Seq<char>>)
    requires
        !artist.contains(','),
    ensures
        primary_artist(artist, exceptions) == artist,
{
}

proof fn lemma_first_prefix_at(s: Seq<char>, names: Seq<Seq<char>>, i: int)
    requires
        0 <= i <= names.len(),
        forall|j: int| 0 <= j < i ==> !(#[trigger] names[j]).is_prefix_of(s),
        i < names.len() ==> names[i].is_prefix_of(s),
    ensures
        first_prefix(s, names) == if i < names.len() {
            Some(names[i])
        } else {
            None
        },
    decreases names.len(),
{
    if i > 0 {
        let rest = names.drop_first();
        assert(!names[0].is_prefix_of(s));
        assert forall|j: int| 0 <= j < i - 1 implies !(#[trigger] rest[j]).is_prefix_of(s) by {
            assert(rest[j] == names[j + 1]);
        }
        lemma_first_prefix_at(s, rest, i - 1);
    }
}

/// Where there is a comma, the first exception that the artists begin with is the primary artist.
pub proof fn law_the_first_exception_counts(
    artist: Seq<char>,
    exceptions: Seq<Seq<char>>,
    i: int,
)
    requires
        artist.contains(','),
        0 <= i < exceptions.len(),
        exceptions[i].is_prefix_of(artist),
        forall|j: int| 0 <= j < i ==> !(#[trigger] exceptions[j]).is_prefix_of(artist),
    ensures
        primary_artist(artist, exceptions) == exceptions[i],
{
    lemma_first_prefix_at(artist, exceptions, i);
}

/// Where no exception applies, the primary artist is all that stands before the first comma, but for
/// the white space around it.
pub proof fn law_the_primary_artist_stands_before_the_comma(
    left: Seq<char>,
    name: Seq<char>,
    right: Seq<char>,
    rest: Seq<char>,
    exceptions: Seq<Seq<char>>,
)
    requires
        text::is_blank(left),
        text::is_blank(right),
        text::is_tight(name),
        !name.contains(','),
        ({
            let artist = left + name + right + seq![','] + rest;
            forall|j: int|
                0 <= j < exceptions.len() ==> !(#[trigger] exceptions[j]).is_prefix_of(artist)
        }),
    ensures
        primary_artist(left + name + right + seq![','] + rest, exceptions) == name,
{
    let front = left + name + right;
    let artist = front + seq![','] + rest;
    assert forall|k: int| 0 <= k < front.len() implies front[k] != ',' by {
        if k < left.len() {
            assert(text::is_white_space(left[k]));
        } else if k < left.len() + name.len() {
            assert(name.contains(name[k - left.len()]));
        } else {
            assert(text::is_white_space(right[k - left.len() - name.len()]));
        }
    }
    assert(artist[front.len() as int] == ',');
    assert(artist =~= front.push(',') + rest);
    text::lemma_first_piece(front, ',', rest);
    text::law_trimming_takes_the_space_around(left, name, right);
    lemma_first_prefix_at(artist, exceptions, exceptions.len() as int);
}

proof fn lemma_literals_are_lower_case()
    ensures
        text::ascii_lower("front cover"@) == "front cover"@,
        text::ascii_lower("cover"@) == "cover"@,
        text::ascii_lower("artist homepage"@) == "artist homepage"@,
        text::ascii_lower("album homepage"@) == "album homepage"@,
        text::ascii_lower("artist picture"@) == "artist picture"@,
{
    reveal_strlit("front cover");
    reveal_strlit("cover");
    reveal_strlit("artist homepage");
    reveal_strlit("album homepage");
    reveal_strlit("artist picture");
    assert(text::ascii_lower("front cover"@) =~= "front cover"@);
    assert(text::ascii_lower("cover"@) =~= "cover"@);
    assert(text::ascii_lower("artist homepage"@) =~= "artist homepage"@);
    assert(text::ascii_lower("album homepage"@) =~= "album homepage"@);
    assert(text::ascii_lower("artist picture"@) =~= "artist picture"@);
}

/// A frame names cover art if it is a link described as cover or front cover, whatever the case, or a
/// text described as `arturl`. Links are given as they are, texts without null characters.
pub proof fn law_art_of_a_frame(frame: tag::FrameView)
    ensures
        art_in(frame) == match frame.content {
            tag::ContentView::ExtendedLink { description, link } => if text::ascii_lower(
                description,
            ) == "front cover"@ || text::ascii_lower(description) == "cover"@ {
                Some(link)
            } else {
                None
            },
            tag::ContentView::ExtendedText { description, value } => if description == "arturl"@ {
                Some(url::without_nulls(value))
            } else {
                None
            },
            _ => None,
        },
{
    lemma_literals_are_lower_case();
}

/// A frame names a page if it is a link described as that, whatever the case, or the plain link with
/// the identifier for it; and the picture of the artist only if it is a link so described.
pub proof fn law_pages_of_a_frame(frame: tag::FrameView)
    ensures
        artist_page_in(frame) == match frame.content {
            tag::ContentView::ExtendedLink { description, link } => if text::ascii_lower(
                description,
            ) == "artist homepage"@ {
                Some(link)
            } else {
                None
            },
            tag::ContentView::Link(link) => if frame.id == "WOAR"@ {
                Some(link)
            } else {
                None
            },
            _ => None,
        },
        album_page_in(frame) == match frame.content {
            tag::ContentView::ExtendedLink { description, link } => if text::ascii_lower(
                description,
            ) == "album homepage"@ {
                Some(link)
            } else {
                None
            },
            tag::ContentView::Link(link) => if frame.id == "WOAS"@ {
                Some(link)
            } else {
                None
            },
            _ => None,
        },
        artist_picture_in(frame) == match frame.content {
            tag::ContentView::ExtendedLink { description, link } => if text::ascii_lower(
                description,
            ) == "artist picture"@ {
                Some(link)
            } else {
                None
            },
            _ => None,
        },
{
    lemma_literals_are_lower_case();
}

/// Where no frame holds the link for the source, a frame names it if it is a link described as
/// exactly `Source`, a text described as `srcurl`, or the plain link of the album.
pub proof fn law_source_of_a_frame(frame: tag::FrameView)
    ensures
        source_in(frame) == match frame.content {
            tag::ContentView::ExtendedLink { description, link } => if description == "Source"@ {
                Some(link)
            } else {
                None
            },
            tag::ContentView::ExtendedText { description, value } => if description == "srcurl"@ {
                Some(url::without_nulls(value))
            } else {
                None
            },
            tag::ContentView::Link(link) => if frame.id == "WOAS"@ {
                Some(link)
            } else {
                None
            },
            _ => None,
        },
{
}

/// The cover art is what mpv reports, whatever the tag says; else what the first frame gives that
/// names any; and none where nothing names it.
pub proof fn law_art_is_looked_for_in_order(
    data: Seq<metadata::EntryView>,
    frames: Seq<tag::FrameView>,
    tag: Option<Seq<tag::FrameView>>,
    i: int,
)
    ensures
        metadata::latest(data, "arturl"@) matches Some(reported) ==> art(data, tag) == Some(
            reported,
        ),
        metadata::latest(data, "arturl"@) is None ==> {
            &&& art(data, None) is None
            &&& tag::is_first_pick(frames, i, |f: tag::FrameView| art_in(f)) ==> art(
                data,
                Some(frames),
            ) == art_in(frames[i])
            &&& tag::is_no_pick(frames, |f: tag::FrameView| art_in(f)) ==> art(data, Some(frames))
                is None
        },
{
    tag::law_the_first_pick_counts(frames, i, |f: tag::FrameView| art_in(f));
}

/// The source is what mpv reports; else the link of the first frame for it, if there is such a frame;
/// else what the first frame gives that names any.
pub proof fn law_source_is_looked_for_in_order(
    data: Seq<metadata::EntryView>,
    frames: Seq<tag::FrameView>,
    tag: Option<Seq<tag::FrameView>>,
    i: int,
)
    ensures
        metadata::latest(data, "srcurl"@) matches Some(reported) ==> source(data, tag) == Some(
            reported,
        ),
        metadata::latest(data, "srcurl"@) is None ==> {
            &&& source(data, None) is None
            &&& tag::is_first(frames, i, "WOAF"@) ==> source(data, Some(frames))
                == match frames[i].content {
                tag::ContentView::Link(link) => Some(link),
                _ => None,
            }
            &&& tag::lacks(frames, "WOAF"@) && tag::is_first_pick(
                frames,
                i,
                |f: tag::FrameView| source_in(f),
            ) ==> source(data, Some(frames)) == source_in(frames[i])
            &&& tag::lacks(frames, "WOAF"@) && tag::is_no_pick(
                frames,
                |f: tag::FrameView| source_in(f),
            ) ==> source(data, Some(frames)) is None
        },
{
    tag::law_the_first_frame_is_found(frames, i, "WOAF"@);
    tag::law_the_first_pick_counts(frames, i, |f: tag::FrameView| source_in(f));
}

/// Pages and the picture of the artist are what the first frame gives that names them, and nothing
/// where there is no tag or no frame names them.
pub proof fn law_pages_are_looked_for_in_order(
    frames: Seq<tag::FrameView>,
    pick: spec_fn(tag::FrameView) -> Option<Seq<char>>,
    i: int,
)
    ensures
        picked(None, pick) is None,
        tag::is_first_pick(frames, i, pick) ==> picked(Some(frames), pick) == pick(frames[i]),
        tag::is_no_pick(frames, pick) ==> picked(Some(frames), pick) is None,
{
    tag::law_the_first_pick_counts(frames, i, pick);
}

/// Names that stand in the tag with null characters between them are the artists, with a comma and a
/// space between them; nothing else separates artists.
pub proof fn law_null_characters_separate_artists(
    data: Seq<metadata::EntryView>,
    frames: Seq<tag::FrameView>,
    i: int,
    names: Seq<Seq<char>>,
)
    requires
        tag::is_first(frames, i, "TPE1"@),
        names.len() > 0,
        forall|k: int| 0 <= k < names.len() ==> !(#[trigger] names[k]).contains('\0'),
        frames[i].content == tag::ContentView::Text(text::join(names, seq!['\0'])),
    ensures
        artists(data, Some(frames)) == text::join(names, seq![',', ' ']),
{
    tag::law_the_first_frame_is_found(frames, i, "TPE1"@);
    text::lemma_split_of_join(names, '\0');
    reveal_strlit(", ");
    assert(", "@ =~= seq![',', ' ']);
}

/// An artist in the tag without a null character is the artist of the track, as it is.
pub proof fn law_one_name_is_one_artist(
    data: Seq<metadata::EntryView>,
    frames: Seq<tag::FrameView>,
    i: int,
    name: Seq<char>,
)
    requires
        tag::is_first(frames, i, "TPE1"@),
        !name.contains('\0'),
        frames[i].content == tag::ContentView::Text(name),
    ensures
        artists(data, Some(frames)) == name,
{
    let names = seq![name];
    assert(text::join(names, seq!['\0']) == name);
    assert(text::join(names, seq![',', ' ']) == name);
    law_null_characters_separate_artists(data, frames, i, names);
}

/// The artist is unknown where the tag names none as a text. Where there is no tag it is what mpv
/// reports, as it is, and unknown where mpv reports none.
pub proof fn law_artists_may_be_unknown(
    data: Seq<metadata::EntryView>,
    frames: Seq<tag::FrameView>,
    i: int,
)
    ensures
        tag::lacks(frames, "TPE1"@) ==> artists(data, Some(frames)) == "<Unknown artist>"@,
        tag::is_first(frames, i, "TPE1"@) && !(frames[i].content is Text) ==> artists(
            data,
            Some(frames),
        ) == "<Unknown artist>"@,
        metadata::latest(data, "artist"@) matches Some(reported) ==> artists(data, None) == reported,
        metadata::latest(data, "artist"@) is None ==> artists(data, None) == "<Unknown artist>"@,
{
    tag::law_the_first_frame_is_found(frames, i, "TPE1"@);
}

/// The organization is what the first frame of the publisher says, written out, and there is none
/// without such a frame.
pub proof fn law_the_organization_is_the_publisher(frames: Seq<tag::FrameView>, i: int)
    ensures
        tag::is_first(frames, i, "TPUB"@) ==> organization(frames) == Some(frames[i].shown),
        tag::lacks(frames, "TPUB"@) ==> organization(frames) is None,
{
    tag::law_the_first_frame_is_found(frames, i, "TPUB"@);
}

/// Title, album and date are what mpv reports, as it is, and else unknown. The URLs that are found
/// are kept encoded, and the art to fall back on as it is. What has been played and the length stay.
pub proof fn law_metadata_is_taken_over(
    track: TrackView,
    data: Seq<metadata::EntryView>,
    tag: Option<Seq<tag::FrameView>>,
    fallback_art: Seq<char>,
)
    ensures
        ({
            let read = track.with_metadata(data, tag, fallback_art);
            &&& metadata::latest(data, "title"@) matches Some(t) ==> read.title == t
            &&& metadata::latest(data, "title"@) is None ==> read.title == "<Unknown title>"@
            &&& metadata::latest(data, "album"@) matches Some(t) ==> read.album == t
            &&& metadata::latest(data, "album"@) is None ==> read.album == "<Unknown album>"@
            &&& metadata::latest(data, "date"@) matches Some(t) ==> read.date == t
            &&& metadata::latest(data, "date"@) is None ==> read.date == "<Unknown date>"@
            &&& read.artist == artists(data, tag)
            &&& art(data, tag) matches Some(u) ==> read.arturl == url::urlencoded(u)
            &&& art(data, tag) is None ==> read.arturl == fallback_art
            &&& source(data, tag) matches Some(u) ==> read.srcurl == Some(url::urlencoded(u))
            &&& source(data, tag) is None ==> read.srcurl is None
            &&& picked(tag, |f: tag::FrameView| artist_page_in(f)) matches Some(u)
                ==> read.artist_url == Some(url::urlencoded(u))
            &&& picked(tag, |f: tag::FrameView| artist_page_in(f)) is None ==> read.artist_url
                is None
            &&& picked(tag, |f: tag::FrameView| album_page_in(f)) matches Some(u)
                ==> read.album_url == Some(url::urlencoded(u))
            &&& picked(tag, |f: tag::FrameView| album_page_in(f)) is None ==> read.album_url is None
            &&& picked(tag, |f: tag::FrameView| artist_picture_in(f)) matches Some(u)
                ==> read.artist_pfp == Some(url::urlencoded(u))
            &&& picked(tag, |f: tag::FrameView| artist_picture_in(f)) is None ==> read.artist_pfp
                is None
            &&& read.progress == track.progress
            &&& read.duration == track.duration
        }),
{
}

/// Every line of the display is its label and the whole of what it says, in the colors of the theme
/// and in bold type; the remarks stand there exactly where they apply.
pub proof fn law_display_says_all(
    track: TrackView,
    theme: ThemeView,
    looped: bool,
    muted: bool,
    volume: u32,
)
    ensures
        ({
            let lines = track.shown_lines(theme, looped, muted, volume);
            let line = |number: Seq<char>, label: Seq<char>, says: Seq<char>|
                "\x1b[1m"@ + theme.p + number + " "@ + theme.s + "::: "@ + label + " - "@ + theme.t
                    + says + "\x1b[0m"@;
            let volume_says = text::decimal(volume as nat) + if muted {
                " (muted)"@
            } else {
                Seq::<char>::empty()
            };
            let progress_says = track.progress.0 + "/"@ + track.duration.shown + if looped {
                " (looped)"@
            } else {
                Seq::<char>::empty()
            };
            &&& lines.len() == 6
            &&& lines[0] == line("01"@, "Ttl"@, track.title)
            &&& lines[1] == line("02"@, "Art"@, track.artist)
            &&& lines[2] == line("03"@, "Alb"@, track.album)
            &&& lines[3] == line("04"@, "Dte"@, track.date)
            &&& lines[4] == line("05"@, "Vol"@, volume_says)
            &&& lines[5] == line("06"@, "Prg"@, progress_says)
            &&& TrackView::heading(theme) == "\x1b[1m"@ + theme.p + "TUUN "@ + "5.0.0"@
                + "\x1b[0m"@
            &&& track.shown(theme, looped, muted, volume) == TrackView::heading(theme) + "\n\n"@
                + text::join(lines, "\n"@)
        }),
{
    let volume_says = text::decimal(volume as nat);
    let progress_says = track.progress.0 + "/"@ + track.duration.shown;
    assert(volume_says + Seq::<char>::empty() =~= volume_says);
    assert(progress_says + Seq::<char>::empty() =~= progress_says);
}

} // verus!
