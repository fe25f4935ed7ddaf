use id3::TagLike;
use tuun::color::Theme;
use tuun::config::{ColorConfig, GeneralConfig};
use tuun::json::Json;
use tuun::metadata::Metadata;
use tuun::tag::{FrameContent, TagData};
use tuun::track::{Length, Progress, Track, CLEAR};

fn metadata(table: &str) -> Metadata {
    let message = format!(r#"{{"name": "metadata", "data": {table}}}"#);
    Metadata::read(&Json::parse(&message).unwrap()).unwrap()
}

fn extended_link(description: &str, link: &str) -> id3::Frame {
    id3::Frame::with_content(
        "WXXX",
        id3::Content::ExtendedLink(id3::frame::ExtendedLink {
            description: description.to_string(),
            link: link.to_string(),
        }),
    )
}

fn extended_text(description: &str, value: &str) -> id3::Frame {
    id3::Frame::with_content(
        "TXXX",
        id3::Content::ExtendedText(id3::frame::ExtendedText {
            description: description.to_string(),
            value: value.to_string(),
        }),
    )
}

fn tag(frames: Vec<id3::Frame>) -> TagData {
    let mut tag = id3::Tag::new();
    for frame in frames {
        tag.add_frame(frame);
    }
    TagData::from_id3(&tag)
}

fn by(artist: &str) -> Track {
    Track { artist: artist.to_string(), ..Track::default() }
}

fn length(exact: &str, seconds: u128) -> Length {
    Length {
        exact: exact.to_string(),
        shown: format!("{seconds}.000"),
        placeholder: false,
        nanos: Some(seconds * 1_000_000_000),
    }
}

fn exceptions() -> Vec<String> {
    GeneralConfig::default_with(String::new()).artists_with_commas
}

#[test]
fn frames_are_read_in_order() {
    let data = tag(vec![
        id3::Frame::text("TPE1", "A"),
        id3::Frame::link("WOAF", "https://f"),
        extended_link("cover", "https://c"),
        extended_text("srcurl", "https://s"),
        id3::Frame::with_content(
            "COMM",
            id3::Content::Comment(id3::frame::Comment {
                lang: "eng".to_string(),
                description: "d".to_string(),
                text: "t".to_string(),
            }),
        ),
    ]);
    let ids: Vec<&str> = data.frames.iter().map(|f| f.id.as_str()).collect();
    assert_eq!(ids, vec!["TPE1", "WOAF", "WXXX", "TXXX", "COMM"]);
    assert!(matches!(&data.frames[0].content, FrameContent::Text(t) if t == "A"));
    assert!(matches!(&data.frames[1].content, FrameContent::Link(l) if l == "https://f"));
    assert!(matches!(&data.frames[2].content,
        FrameContent::ExtendedLink { description, link } if description == "cover" && link == "https://c"));
    assert!(matches!(&data.frames[3].content,
        FrameContent::ExtendedText { description, value } if description == "srcurl" && value == "https://s"));
    assert!(matches!(&data.frames[4].content, FrameContent::Other));
    assert_eq!(data.frames[0].shown, "A");
    assert_eq!(data.frames[2].shown, "cover: https://c");
    assert_eq!(data.get("WOAF").unwrap().link(), Some("https://f".to_string()));
    assert_eq!(data.get("WOAF").unwrap().text(), None);
    assert!(data.get("TIT2").is_none());
}

#[test]
fn an_artist_without_a_comma_is_the_primary_one() {
    assert_eq!(by("Björk").get_primary_artist(&exceptions()), "Björk");
    assert_eq!(by("").get_primary_artist(&exceptions()), "");
    assert_eq!(by(" a ").get_primary_artist(&exceptions()), " a ");
}

#[test]
fn the_primary_artist_stands_before_the_first_comma() {
    assert_eq!(by("A , B, C").get_primary_artist(&exceptions()), "A");
    assert_eq!(by(", B").get_primary_artist(&exceptions()), "");
    assert_eq!(by("\u{3000}A\t,B").get_primary_artist(&exceptions()), "A");
}

#[test]
fn configured_artists_may_have_commas() {
    assert_eq!(
        by("Tyler, The Creator, Kali Uchis").get_primary_artist(&exceptions()),
        "Tyler, The Creator"
    );
    assert_eq!(by("Muira,").get_primary_artist(&exceptions()), "Muira,");
    assert_eq!(by("tyler, the creator").get_primary_artist(&exceptions()), "tyler");
    let overlapping = vec!["A, B".to_string(), "A, B, C".to_string()];
    assert_eq!(by("A, B, C, D").get_primary_artist(&overlapping), "A, B");
}

#[test]
fn the_primary_artist_of_the_primary_artist_is_the_same() {
    for name in ["A, B", "Wow, Owls!, X", "plain", "Muira,", " , "] {
        let primary = by(name).get_primary_artist(&exceptions());
        assert_eq!(by(&primary).get_primary_artist(&exceptions()), primary);
    }
}

#[test]
fn the_organization_is_the_publisher() {
    assert_eq!(
        Track::get_organization(&tag(vec![id3::Frame::text("TPUB", "Label")])),
        Some("Label".to_string())
    );
    assert_eq!(Track::get_organization(&tag(vec![id3::Frame::text("TPE1", "x")])), None);
}

#[test]
fn reported_cover_art_goes_first() {
    let data = metadata(r#"{"ARTURL": "https://mpv/art"}"#);
    let frames = tag(vec![extended_link("cover", "https://tag/art")]);
    assert_eq!(Track::get_arturl(&data, Some(&frames)), Some("https://mpv/art".to_string()));
    assert_eq!(Track::get_arturl(&data, None), Some("https://mpv/art".to_string()));
}

#[test]
fn cover_art_is_found_in_the_tag() {
    let none = metadata("{}");
    let frames = tag(vec![
        extended_link("other", "https://x"),
        extended_link("Front COVER", "https://front"),
        extended_link("cover", "https://cover"),
    ]);
    assert_eq!(Track::get_arturl(&none, Some(&frames)), Some("https://front".to_string()));
    let frames = tag(vec![extended_link("Cover", "https://cover")]);
    assert_eq!(Track::get_arturl(&none, Some(&frames)), Some("https://cover".to_string()));
    let frames = tag(vec![extended_text("ARTURL", "https://x"), extended_text("arturl", "https://\0t\0")]);
    assert_eq!(Track::get_arturl(&none, Some(&frames)), Some("https://t".to_string()));
    assert_eq!(Track::get_arturl(&none, Some(&tag(vec![]))), None);
    assert_eq!(Track::get_arturl(&none, None), None);
}

#[test]
fn cover_art_that_is_no_text_is_not_reported() {
    let data = metadata(r#"{"arturl": 7}"#);
    let frames = tag(vec![extended_link("cover", "https://tag/art")]);
    assert_eq!(Track::get_arturl(&data, Some(&frames)), Some("https://tag/art".to_string()));
}

#[test]
fn the_first_frame_that_names_a_page_counts() {
    let frames = tag(vec![
        extended_link("Artist Homepage", "https://described"),
        id3::Frame::link("WOAR", "https://official"),
    ]);
    assert_eq!(Track::get_artisturl(Some(&frames)), Some("https://described".to_string()));
    let frames = tag(vec![
        id3::Frame::link("WOAR", "https://official"),
        extended_link("artist homepage", "https://described"),
    ]);
    assert_eq!(Track::get_artisturl(Some(&frames)), Some("https://official".to_string()));
    let frames = tag(vec![id3::Frame::text("WOAR", "no link")]);
    assert_eq!(Track::get_artisturl(Some(&frames)), None);
    assert_eq!(Track::get_artisturl(None), None);
}

#[test]
fn the_album_has_a_page_of_its_own() {
    let frames = tag(vec![id3::Frame::link("WOAS", "https://official")]);
    assert_eq!(Track::get_albumurl(Some(&frames)), Some("https://official".to_string()));
    let frames = tag(vec![extended_link("ALBUM homepage", "https://described")]);
    assert_eq!(Track::get_albumurl(Some(&frames)), Some("https://described".to_string()));
    assert_eq!(Track::get_albumurl(Some(&tag(vec![id3::Frame::link("WOAR", "https://x")]))), None);
    assert_eq!(Track::get_albumurl(None), None);
}

#[test]
fn the_picture_of_the_artist_is_a_described_link() {
    let frames = tag(vec![extended_link("artist PICTURE", "https://p")]);
    assert_eq!(Track::get_artistpfp(Some(&frames)), Some("https://p".to_string()));
    let frames = tag(vec![extended_text("artist picture", "https://p")]);
    assert_eq!(Track::get_artistpfp(Some(&frames)), None);
    assert_eq!(Track::get_artistpfp(None), None);
}

#[test]
fn the_source_is_looked_for_in_order() {
    let none = metadata("{}");
    let frames = tag(vec![
        extended_link("Source", "https://described"),
        id3::Frame::link("WOAF", "https://official"),
    ]);
    assert_eq!(Track::get_srcurl(&none, Some(&frames)), Some("https://official".to_string()));
    let reported = metadata(r#"{"srcURL": "https://mpv"}"#);
    assert_eq!(Track::get_srcurl(&reported, Some(&frames)), Some("https://mpv".to_string()));
    let frames = tag(vec![extended_link("source", "https://x"), extended_link("Source", "https://described")]);
    assert_eq!(Track::get_srcurl(&none, Some(&frames)), Some("https://described".to_string()));
    let frames = tag(vec![extended_text("srcurl", "\0https://t")]);
    assert_eq!(Track::get_srcurl(&none, Some(&frames)), Some("https://t".to_string()));
    let frames = tag(vec![id3::Frame::link("WOAS", "https://album")]);
    assert_eq!(Track::get_srcurl(&none, Some(&frames)), Some("https://album".to_string()));
    assert_eq!(Track::get_srcurl(&none, None), None);
}

#[test]
fn a_frame_for_the_source_without_a_link_ends_the_search() {
    let frames = tag(vec![
        id3::Frame::text("WOAF", "no link"),
        extended_link("Source", "https://described"),
    ]);
    assert_eq!(Track::get_srcurl(&metadata("{}"), Some(&frames)), None);
}

#[test]
fn artists_come_from_the_tag_where_there_is_one() {
    let data = metadata(r#"{"Artist": "mpv"}"#);
    let frames = tag(vec![id3::Frame::text("TPE1", "A\0B\0C")]);
    assert_eq!(Track::get_artists(&data, Some(&frames)), "A, B, C");
    assert_eq!(Track::get_artists(&data, Some(&tag(vec![]))), "<Unknown artist>");
    assert_eq!(Track::get_artists(&data, None), "mpv");
    assert_eq!(Track::get_artists(&metadata("{}"), None), "<Unknown artist>");
}

#[test]
fn metadata_is_read_into_the_track() {
    let data = metadata(
        r#"{"TITLE": "T", "album": "Al", "Date": "1999", "artist": "X", "srcurl": "https://s/a b"}"#,
    );
    let frames = tag(vec![
        id3::Frame::text("TPE1", "A"),
        id3::Frame::link("WOAR", "https://a/é"),
        id3::Frame::link("WOAS", "https://al/?q"),
        extended_link("artist picture", "https://p/x.png"),
        extended_link("cover", "https://c/1 2.jpg"),
    ]);
    let mut track = Track::default();
    track.update_progress(Progress { shown: "1.500".to_string(), at_start: false });
    track.update_metadata(&data, Some(&frames), "fallback");
    assert_eq!(track.title, "T");
    assert_eq!(track.artist, "A");
    assert_eq!(track.album, "Al");
    assert_eq!(track.date, "1999");
    assert_eq!(track.arturl, "https://c/1%202.jpg");
    assert_eq!(track.srcurl.as_deref(), Some("https://s/a%20b"));
    assert_eq!(track.artist_url.as_deref(), Some("https://a/%C3%A9"));
    assert_eq!(track.album_url.as_deref(), Some("https://al/%3Fq"));
    assert_eq!(track.artist_pfp.as_deref(), Some("https://p/x.png"));
    assert_eq!(track.progress.shown, "1.500");
    assert_eq!(track.duration.exact, "1000");
    assert_eq!(track.duration.shown, "1000.000");
    assert!(track.duration.placeholder);
    assert_eq!(track.duration.nanos, Some(1_000_000_000_000));
    let once = format!("{track:?}");
    track.update_metadata(&data, Some(&frames), "fallback");
    assert_eq!(format!("{track:?}"), once);
}

#[test]
fn what_is_not_reported_is_unknown() {
    let mut track = Track::default();
    track.update_metadata(&metadata(r#"{"title": 3}"#), None, "https://fallback art");
    assert_eq!(track.title, "<Unknown title>");
    assert_eq!(track.artist, "<Unknown artist>");
    assert_eq!(track.album, "<Unknown album>");
    assert_eq!(track.date, "<Unknown date>");
    assert_eq!(track.arturl, "https://fallback art");
    assert_eq!(track.srcurl, None);
    assert_eq!(track.artist_url, None);
    assert_eq!(track.album_url, None);
    assert_eq!(track.artist_pfp, None);
}

#[test]
fn only_a_track_of_which_nothing_is_known_is_a_default_one() {
    assert!(Track::default().is_default());
    let mut read = Track::default();
    read.update_metadata(&metadata("{}"), None, "");
    assert!(!read.is_default());
    let mut begun = Track::default();
    begun.update_progress(Progress { shown: "0.001".to_string(), at_start: false });
    assert!(!begun.is_default());
    let mut measured = Track::default();
    measured.update_duration(length("180", 180));
    assert!(!measured.is_default());
    for field in 0..5 {
        let mut track = Track { srcurl: Some("https://s".to_string()), ..Track::default() };
        assert!(track.is_default());
        let text = match field {
            0 => &mut track.title,
            1 => &mut track.artist,
            2 => &mut track.album,
            3 => &mut track.arturl,
            _ => &mut track.date,
        };
        text.push('x');
        assert!(!track.is_default());
    }
}

#[test]
fn a_copy_of_a_track_is_the_same() {
    let mut track = by("A");
    track.srcurl = Some("https://s".to_string());
    track.update_duration(length("180", 180));
    assert_eq!(format!("{:?}", track.clone()), format!("{track:?}"));
}

#[test]
fn the_display_has_six_lines_below_its_heading() {
    let theme = Theme::from_config(&ColorConfig::default());
    let mut track = by("Artist");
    track.title = "Title".to_string();
    track.album = "Album".to_string();
    track.date = "2020".to_string();
    track.update_progress(Progress { shown: "1.250".to_string(), at_start: false });
    track.update_duration(length("200", 200));
    let b = "\x1b[1m";
    let r = "\x1b[0m";
    let p = "\x1b[38;2;205;205;221m";
    let s = "\x1b[38;2;51;51;51m";
    let t = "\x1b[38;2;229;229;245m";
    assert_eq!(
        track.format_metadata(&theme, false, false, 70),
        format!(
            "{b}{p}TUUN 5.0.0{r}\n\n\
             {b}{p}01 {s}::: Ttl - {t}Title{r}\n\
             {b}{p}02 {s}::: Art - {t}Artist{r}\n\
             {b}{p}03 {s}::: Alb - {t}Album{r}\n\
             {b}{p}04 {s}::: Dte - {t}2020{r}\n\
             {b}{p}05 {s}::: Vol - {t}70{r}\n\
             {b}{p}06 {s}::: Prg - {t}1.250/200.000{r}"
        )
    );
    let display = track.format_metadata(&theme, true, true, 0);
    assert!(display.contains(&format!("Vol - {t}0 (muted){r}")));
    assert!(display.ends_with(&format!("Prg - {t}1.250/200.000 (looped){r}")));
}

#[test]
fn the_second_line_of_the_display_is_empty() {
    let theme = Theme::from_config(&ColorConfig::default());
    let display = Track::default().format_metadata(&theme, true, false, 100);
    let lines: Vec<&str> = display.split('\n').collect();
    assert_eq!(lines.len(), 8);
    assert_eq!(lines[1], "");
    assert!(lines[7].contains("0.000/1000.000 (looped)"));
}

#[test]
fn a_track_fits_on_one_line() {
    let mut track = by("A, B");
    track.title = "T".to_string();
    assert_eq!(track.to_text(), "A, B - T");
}

#[test]
fn the_screen_is_cleared_by_escapes() {
    assert_eq!(CLEAR, format!("{esc}[2J{esc}[1;1H{esc}[?251", esc = 27 as char));
}
