use tuun::color::{fg_hex, fg_rgb, hex_to_rgb, is_cut_cleanly, Theme};
use tuun::config::ColorConfig;

#[test]
fn six_digits_give_a_color() {
    assert_eq!(hex_to_rgb("#cdcddd"), Some((0xcd, 0xcd, 0xdd)));
    assert_eq!(hex_to_rgb("FF8000"), Some((255, 128, 0)));
}

#[test]
fn three_digits_are_doubled() {
    assert_eq!(hex_to_rgb("#1aF"), Some((0x11, 0xaa, 0xff)));
    assert_eq!(hex_to_rgb("1aF"), hex_to_rgb("11aaFF"));
}

#[test]
fn any_number_of_hashes_is_ignored() {
    assert_eq!(hex_to_rgb("###abc"), hex_to_rgb("abc"));
    assert_eq!(hex_to_rgb("#"), None);
}

#[test]
fn a_plus_sign_may_stand_for_the_first_of_two_digits() {
    assert_eq!(hex_to_rgb("+f+0+9"), Some((15, 0, 9)));
    assert_eq!(hex_to_rgb("+++"), None);
    assert_eq!(hex_to_rgb("f+f+f+"), None);
    assert_eq!(hex_to_rgb("-f-0-9"), None);
}

#[test]
fn what_is_no_color_gives_none() {
    for hex in ["", "12", "1234", "12345", "1234567", "ggg", "12345g", "ééé"] {
        assert!(is_cut_cleanly(hex));
        assert_eq!(hex_to_rgb(hex), None, "{hex}");
        assert_eq!(fg_hex(hex), "");
    }
}

#[test]
fn cut_characters_are_noticed() {
    assert!(!is_cut_cleanly("é1"));
    assert!(!is_cut_cleanly("1é"));
    assert!(is_cut_cleanly("gé"));
    assert!(!is_cut_cleanly("€123"));
    assert!(!is_cut_cleanly("12€3"));
    assert!(is_cut_cleanly("1g€3"));
    assert!(is_cut_cleanly("ééé"));
    assert!(is_cut_cleanly("12éé"));
}

#[test]
fn colors_become_escape_sequences() {
    assert_eq!(fg_rgb(1, 22, 255), "\x1b[38;2;1;22;255m");
    assert_eq!(fg_hex("#333333"), "\x1b[38;2;51;51;51m");
}

#[test]
fn a_theme_has_the_configured_colors() {
    let theme = Theme::from_config(&ColorConfig::default());
    assert_eq!(theme.p, "\x1b[38;2;205;205;221m");
    assert_eq!(theme.s, "\x1b[38;2;51;51;51m");
    assert_eq!(theme.t, "\x1b[38;2;229;229;245m");
}

#[test]
fn every_color_has_to_be_cut_cleanly() {
    let mut colors = ColorConfig::default();
    assert!(tuun::color::are_cut_cleanly(&colors));
    colors.tertiary = "aé".to_string();
    assert!(!tuun::color::are_cut_cleanly(&colors));
}
