//! Colors: hexadecimal notation, and the escape sequences that set them on a terminal.

use vstd::prelude::*;

use crate::config::ColorConfig;
use crate::text;

verus! {

broadcast use vstd::string::group_string_axioms;

/// A color without the `#` signs at its start.
pub open spec fn without_hashes(s: Seq<char>) -> Seq<char>
    decreases s.len(),
{
    if s.len() > 0 && s.first() == '#' {
        without_hashes(s.drop_first())
    } else {
        s
    }
}

/// The value of a hexadecimal digit.
pub open spec fn hex_digit(b: u8) -> Option<u8> {
    if 0x30 <= b <= 0x39 {
        Some((b - 0x30) as u8)
    } else if 0x41 <= b <= 0x46 {
        Some((b - 0x37) as u8)
    } else if 0x61 <= b <= 0x66 {
        Some((b - 0x57) as u8)
    } else {
        None
    }
}

/// The number that two bytes write in hexadecimal; a plus sign in front counts for nothing.
pub open spec fn hex_pair(high: u8, low: u8) -> Option<u8> {
    if high == 0x2b {
        hex_digit(low)
    } else {
        match (hex_digit(high), hex_digit(low)) {
            (Some(h), Some(l)) => Some((16 * h + l) as u8),
            _ => None,
        }
    }
}

/// Three numbers, where each of them is there.
pub open spec fn all_three(r: Option<u8>, g: Option<u8>, b: Option<u8>) -> Option<(u8, u8, u8)> {
    match (r, g, b) {
        (Some(r), Some(g), Some(b)) => Some((r, g, b)),
        _ => None,
    }
}

/// The bytes that say which color is meant.
pub open spec fn color_bytes(hex: Seq<char>) -> Seq<u8> {
    vstd::utf8::encode_utf8(without_hashes(hex))
}

/// The red, green and blue of a color in hexadecimal, with one digit or with two for each.
pub open spec fn rgb(hex: Seq<char>) -> Option<(u8, u8, u8)> {
    let b = color_bytes(hex);
    if b.len() == 3 {
        all_three(hex_pair(b[0], b[0]), hex_pair(b[1], b[1]), hex_pair(b[2], b[2]))
    } else if b.len() == 6 {
        all_three(hex_pair(b[0], b[1]), hex_pair(b[2], b[3]), hex_pair(b[4], b[5]))
    } else {
        None
    }
}

/// Whether cutting a color into its three parts never cuts through a character. What follows a
/// part that is no number does not matter.
pub open spec fn cuts_cleanly(hex: Seq<char>) -> bool {
    let b = color_bytes(hex);
    &&& b.len() == 3 ==> {
        &&& vstd::utf8::is_char_boundary(b, 1)
        &&& hex_pair(b[0], b[0]) is Some ==> vstd::utf8::is_char_boundary(b, 2)
    }
    &&& b.len() == 6 ==> {
        &&& vstd::utf8::is_char_boundary(b, 2)
        &&& hex_pair(b[0], b[1]) is Some ==> vstd::utf8::is_char_boundary(b, 4)
    }
}

/// The escape sequence that sets the color of what is written next.
pub open spec fn foreground(r: u8, g: u8, b: u8) -> Seq<char> {
    "\x1b[38;2;"@ + text::decimal(r as nat) + ";"@ + text::decimal(g as nat) + ";"@
        + text::decimal(b as nat) + "m"@
}

/// The escape sequence for a color in hexadecimal; nothing where it is none.
pub open spec fn foreground_hex(hex: Seq<char>) -> Seq<char> {
    match rgb(hex) {
        Some((r, g, b)) => foreground(r, g, b),
        None => Seq::<char>::empty(),
    }
}

/// A color without the `#` signs at its start.
fn strip_hashes(hex: &str) -> (rest: String)
    ensures
        rest@ == without_hashes(hex@),
{
    let chars = text::to_chars(hex);
    let mut from: usize = 0;
    assert(chars@.skip(0) =~= chars@);
    while from < chars.len() && chars[from] == '#'
        invariant
            from <= chars@.len(),
            without_hashes(chars@.skip(from as int)) == without_hashes(hex@),
        decreases chars@.len() - from,
    {
        assert(chars@.skip(from as int).drop_first() =~= chars@.skip(from + 1));
        from = from + 1;
    }
    let end: usize = chars.len();
    assert(chars@.subrange(from as int, end as int) =~= chars@.skip(from as int));
    text::to_text(&chars, from, end)
}

/// The value of a hexadecimal digit.
fn hex_digit_of(b: u8) -> (value: Option<u8>)
    ensures
        value == hex_digit(b),
{
    if 0x30 <= b && b <= 0x39 {
        Some(b - 0x30)
    } else if 0x41 <= b && b <= 0x46 {
        Some(b - 0x37)
    } else if 0x61 <= b && b <= 0x66 {
        Some(b - 0x57)
    } else {
        None
    }
}

/// The number that two bytes write in hexadecimal; a plus sign in front counts for nothing.
fn hex_pair_of(high: u8, low: u8) -> (value: Option<u8>)
    ensures
        value == hex_pair(high, low),
{
    if high == 0x2b {
        return hex_digit_of(low);
    }
    match (hex_digit_of(high), hex_digit_of(low)) {
        (Some(h), Some(l)) => Some(16 * h + l),
        _ => None,
    }
}

/// Whether cutting a color into its three parts never cuts through a character.
pub fn is_cut_cleanly(hex: &str) -> (yes: bool)
    ensures
        yes == cuts_cleanly(hex@),
{
    let rest = strip_hashes(hex);
    let b = rest.as_str().as_bytes();
    if b.len() == 3 {
        rest.as_str().is_char_boundary(1) && (hex_pair_of(b[0], b[0]).is_none()
            || rest.as_str().is_char_boundary(2))
    } else if b.len() == 6 {
        rest.as_str().is_char_boundary(2) && (hex_pair_of(b[0], b[1]).is_none()
            || rest.as_str().is_char_boundary(4))
    } else {
        true
    }
}

/// The red, green and blue of a color in hexadecimal, with one digit or with two for each.
pub fn hex_to_rgb(hex: &str) -> (color: Option<(u8, u8, u8)>)
    requires
        cuts_cleanly(hex@),
    ensures
        color == rgb(hex@),
{
    let rest = strip_hashes(hex);
    let b = rest.as_str().as_bytes();
    let (red, green, blue) = if b.len() == 3 {
        (hex_pair_of(b[0], b[0]), hex_pair_of(b[1], b[1]), hex_pair_of(b[2], b[2]))
    } else if b.len() == 6 {
        (hex_pair_of(b[0], b[1]), hex_pair_of(b[2], b[3]), hex_pair_of(b[4], b[5]))
    } else {
        (None, None, None)
    };
    match (red, green, blue) {
        (Some(r), Some(g), Some(b)) => Some((r, g, b)),
        _ => None,
    }
}

/// The escape sequence that sets the color of what is written next.
pub fn fg_rgb(r: u8, g: u8, b: u8) -> (escape: String)
    ensures
        escape@ == foreground(r, g, b),
{
    let mut escape = "\x1b[38;2;".to_owned();
    escape.append(text::decimal_text(r as u64).as_str());
    escape.append(";");
    escape.append(text::decimal_text(g as u64).as_str());
    escape.append(";");
    escape.append(text::decimal_text(b as u64).as_str());
    escape.append("m");
    escape
}

/// The escape sequence for a color in hexadecimal; nothing where it is none.
pub fn fg_hex(hex: &str) -> (escape: String)
    requires
        cuts_cleanly(hex@),
    ensures
        escape@ == foreground_hex(hex@),
{
    match hex_to_rgb(hex) {
        Some((r, g, b)) => fg_rgb(r, g, b),
        None => String::new(),
    }
}

/// The escape sequences of the three colors of the display.
#[derive(Debug)]
pub struct Theme {
    /// primary
    pub p: String,
    /// secondary
    pub s: String,
    /// tertiary
    pub t: String,
}

/// The escape sequences of the three colors of the display.
#[verifier::ext_equal]
pub struct ThemeView {
    pub p: Seq<char>,
    pub s: Seq<char>,
    pub t: Seq<char>,
}

impl View for Theme {
    type V = ThemeView;

    open spec fn view(&self) -> ThemeView {
        ThemeView { p: self.p@, s: self.s@, t: self.t@ }
    }
}

/// Whether none of the configured colors has a character cut.
pub open spec fn all_cut_cleanly(cfg: ColorConfig) -> bool {
    &&& cuts_cleanly(cfg.primary@)
    &&& cuts_cleanly(cfg.secondary@)
    &&& cuts_cleanly(cfg.tertiary@)
}

/// Whether none of the configured colors has a character cut.
pub fn are_cut_cleanly(cfg: &ColorConfig) -> (yes: bool)
    ensures
        yes == all_cut_cleanly(*cfg),
{
    is_cut_cleanly(cfg.primary.as_str()) && is_cut_cleanly(cfg.secondary.as_str())
        && is_cut_cleanly(cfg.tertiary.as_str())
}

/// The escape sequences of the configured colors.
pub open spec fn theme_of(cfg: ColorConfig) -> ThemeView {
    ThemeView {
        p: foreground_hex(cfg.primary@),
        s: foreground_hex(cfg.secondary@),
        t: foreground_hex(cfg.tertiary@),
    }
}

impl Theme {
    /// The escape sequences of the configured colors.
    pub fn from_config(cfg: &ColorConfig) -> (theme: Theme)
        requires
            all_cut_cleanly(*cfg),
        ensures
            theme@ == theme_of(*cfg),
    {
        Theme {
            p: fg_hex(cfg.primary.as_str()),
            s: fg_hex(cfg.secondary.as_str()),
            t: fg_hex(cfg.tertiary.as_str()),
        }
    }
}

/// A `#` sign in front of a color changes nothing.
pub proof fn law_hash_is_optional(hex: Seq<char>)
    ensures
        rgb(seq!['#'] + hex) == rgb(hex),
        cuts_cleanly(seq!['#'] + hex) == cuts_cleanly(hex),
{
    assert((seq!['#'] + hex).drop_first() =~= hex);
}

/// What is left of an ASCII color is ASCII.
proof fn lemma_without_hashes_is_ascii(hex: Seq<char>)
    requires
        vstd::utf8::is_ascii_chars(hex),
    ensures
        vstd::utf8::is_ascii_chars(without_hashes(hex)),
    decreases hex.len(),
{
    if hex.len() > 0 && hex.first() == '#' {
        lemma_without_hashes_is_ascii(hex.drop_first());
    }
}

/// A color in ASCII, which every color is, never has a character cut.
pub proof fn law_ascii_is_cut_cleanly(hex: Seq<char>)
    requires
        vstd::utf8::is_ascii_chars(hex),
    ensures
        cuts_cleanly(hex),
{
    lemma_without_hashes_is_ascii(hex);
    let rest = without_hashes(hex);
    let b = color_bytes(hex);
    vstd::utf8::is_ascii_chars_encode_utf8(rest);
    vstd::utf8::encode_utf8_valid_utf8(rest);
    assert forall|i: int| 0 <= i < b.len() implies vstd::utf8::is_char_boundary(b, i) by {
        assert(rest[i] as u8 == b[i]);
        assert(vstd::utf8::is_leading_byte_width_1(b[i]));
        vstd::utf8::is_char_boundary_iff_is_leading_byte(b, i);
    }
}

/// The colors of a configuration that names none are colors, and none of them has a character cut.
pub proof fn law_default_colors_are_colors(config: ColorConfig)
    requires
        config.is_default_config(),
    ensures
        cuts_cleanly(config.primary@) && rgb(config.primary@) is Some,
        cuts_cleanly(config.secondary@) && rgb(config.secondary@) is Some,
        cuts_cleanly(config.tertiary@) && rgb(config.tertiary@) is Some,
{
    reveal_strlit("#cdcddd");
    reveal_strlit("#333333");
    reveal_strlit("#e5e5f5");
    lemma_six_digits_are_a_color(config.primary@);
    lemma_six_digits_are_a_color(config.secondary@);
    lemma_six_digits_are_a_color(config.tertiary@);
}

/// A `#` sign and six hexadecimal digits are a color.
proof fn lemma_six_digits_are_a_color(hex: Seq<char>)
    requires
        hex.len() == 7,
        hex[0] == '#',
        forall|i: int|
            1 <= i < 7 ==> '0' <= #[trigger] hex[i] <= '\u{7f}' && hex_digit(hex[i] as u8) is Some,
    ensures
        cuts_cleanly(hex),
        rgb(hex) is Some,
{
    let rest = hex.drop_first();
    assert forall|i: int| 0 <= i < rest.len() implies '0' <= #[trigger] rest[i] <= '\u{7f}'
        && hex_digit(rest[i] as u8) is Some by {
        assert(rest[i] == hex[i + 1]);
    }
    assert(hex_digit('#' as u8) is None);
    assert(rest.first() != '#');
    assert(without_hashes(rest) == rest);
    assert(without_hashes(hex) == rest);
    assert forall|i: int| 0 <= i < hex.len() implies '\0' <= #[trigger] hex[i] <= '\u{7f}' by {}
    law_ascii_is_cut_cleanly(hex);
    assert forall|i: int| 0 <= i < rest.len() implies '\0' <= #[trigger] rest[i] <= '\u{7f}' by {}
    vstd::utf8::is_ascii_chars_encode_utf8(rest);
    let b = color_bytes(hex);
    assert forall|i: int| 0 <= i < 6 implies hex_digit(#[trigger] b[i]) is Some by {
        assert(b[i] == rest[i] as u8);
    }
    assert(hex_digit(0x2b) is None);
    assert(hex_digit(b[0]) is Some && hex_digit(b[2]) is Some && hex_digit(b[4]) is Some);
}

/// A color with one digit for each part is the color with each of them written twice.
pub proof fn law_short_form_doubles_each_digit(r: char, g: char, b: char)
    requires
        vstd::utf8::is_ascii_chars(seq![r, g, b]),
        r != '#',
    ensures
        rgb(seq![r, g, b]) == rgb(seq![r, r, g, g, b, b]),
{
    let short = seq![r, g, b];
    let long = seq![r, r, g, g, b, b];
    assert(vstd::utf8::is_ascii_chars(long)) by {
        assert(short[0] == r && short[1] == g && short[2] == b);
    }
    vstd::utf8::is_ascii_chars_encode_utf8(short);
    vstd::utf8::is_ascii_chars_encode_utf8(long);
}

/// The value of a hexadecimal digit, in either case.
pub open spec fn digit_value(c: char) -> int {
    if '0' <= c <= '9' {
        c as int - '0' as int
    } else if 'a' <= c <= 'f' {
        c as int - 'a' as int + 10
    } else {
        c as int - 'A' as int + 10
    }
}

/// Whether a character is a hexadecimal digit, in either case.
pub open spec fn is_digit(c: char) -> bool {
    '0' <= c <= '9' || 'a' <= c <= 'f' || 'A' <= c <= 'F'
}

proof fn lemma_digits_have_values(c: char)
    requires
        is_digit(c),
    ensures
        c != '#',
        '\0' <= c <= '\u{7f}',
        hex_digit(c as u8) == Some(digit_value(c) as u8),
        0 <= digit_value(c) < 16,
        c as u8 != 0x2b,
{
}

/// Six hexadecimal digits are a color: two each for red, green and blue.
pub proof fn law_six_digits_give_a_color(d: Seq<char>)
    requires
        d.len() == 6,
        forall|i: int| 0 <= i < 6 ==> is_digit(#[trigger] d[i]),
    ensures
        rgb(d) matches Some((r, g, b)) && r == 16 * digit_value(d[0]) + digit_value(d[1]) && g == 16
            * digit_value(d[2]) + digit_value(d[3]) && b == 16 * digit_value(d[4]) + digit_value(
            d[5],
        ),
{
    assert forall|i: int| 0 <= i < 6 implies '\0' <= #[trigger] d[i] <= '\u{7f}' by {
        lemma_digits_have_values(d[i]);
    }
    vstd::utf8::is_ascii_chars_encode_utf8(d);
    lemma_digits_have_values(d[0]);
    lemma_digits_have_values(d[1]);
    lemma_digits_have_values(d[2]);
    lemma_digits_have_values(d[3]);
    lemma_digits_have_values(d[4]);
    lemma_digits_have_values(d[5]);
    assert(without_hashes(d) == d);
    let b = color_bytes(d);
    assert(b[0] == d[0] as u8 && b[1] == d[1] as u8 && b[2] == d[2] as u8);
    assert(b[3] == d[3] as u8 && b[4] == d[4] as u8 && b[5] == d[5] as u8);
}

/// Three hexadecimal digits are the color with each of them written twice.
pub proof fn law_three_digits_give_a_color(d: Seq<char>)
    requires
        d.len() == 3,
        forall|i: int| 0 <= i < 3 ==> is_digit(#[trigger] d[i]),
    ensures
        rgb(d) matches Some((r, g, b)) && r == 17 * digit_value(d[0]) && g == 17 * digit_value(d[1])
            && b == 17 * digit_value(d[2]),
{
    assert forall|i: int| 0 <= i < 3 implies '\0' <= #[trigger] d[i] <= '\u{7f}' by {
        lemma_digits_have_values(d[i]);
    }
    vstd::utf8::is_ascii_chars_encode_utf8(d);
    lemma_digits_have_values(d[0]);
    lemma_digits_have_values(d[1]);
    lemma_digits_have_values(d[2]);
    assert(without_hashes(d) == d);
    let b = color_bytes(d);
    assert(b[0] == d[0] as u8 && b[1] == d[1] as u8 && b[2] == d[2] as u8);
}

/// What is not three or six bytes long, but for the `#` signs at its start, is no color.
pub proof fn law_other_lengths_are_no_color(hex: Seq<char>)
    requires
        hex.len() == 0 || hex[0] != '#',
        vstd::utf8::encode_utf8(hex).len() != 3,
        vstd::utf8::encode_utf8(hex).len() != 6,
    ensures
        rgb(hex) is None,
{
}

/// A byte that is no hexadecimal digit makes a color of six bytes none, unless it is a plus sign in
/// front of a digit; and a color of three bytes none in any case.
pub proof fn law_other_bytes_are_no_color(hex: Seq<char>, i: int)
    requires
        hex.len() == 0 || hex[0] != '#',
        ({
            let b = vstd::utf8::encode_utf8(hex);
            &&& b.len() == 3 || b.len() == 6
            &&& 0 <= i < b.len()
            &&& !(b[i] < 0x80 && is_digit(b[i] as char))
            &&& b.len() == 6 && i % 2 == 0 ==> b[i] != 0x2b
        }),
    ensures
        rgb(hex) is None,
{
    let b = vstd::utf8::encode_utf8(hex);
    assert(color_bytes(hex) == b);
    assert(hex_digit(b[i]) is None);
    assert(hex_digit(0x2b) is None);
}

/// The value of two characters: that of both digits, or of the second one where the first is a plus
/// sign.
pub open spec fn pair_value(high: char, low: char) -> int {
    if high == '+' {
        digit_value(low)
    } else {
        16 * digit_value(high) + digit_value(low)
    }
}

/// In place of the first digit of two there may be a plus sign, which counts for nothing.
pub proof fn law_plus_signs_count_for_nothing(d: Seq<char>)
    requires
        d.len() == 6,
        is_digit(d[0]) || d[0] == '+',
        is_digit(d[1]),
        is_digit(d[2]) || d[2] == '+',
        is_digit(d[3]),
        is_digit(d[4]) || d[4] == '+',
        is_digit(d[5]),
    ensures
        rgb(d) matches Some((r, g, b)) && r == pair_value(d[0], d[1]) && g == pair_value(d[2], d[3])
            && b == pair_value(d[4], d[5]),
{
    assert forall|k: int| 0 <= k < 6 && d[k] != '+' implies is_digit(#[trigger] d[k]) by {
        assert(k == 0 || k == 1 || k == 2 || k == 3 || k == 4 || k == 5);
    }
    assert forall|k: int| 0 <= k < 6 implies '\0' <= #[trigger] d[k] <= '\u{7f}' && d[k]
        != '#' by {
        if d[k] != '+' {
            lemma_digits_have_values(d[k]);
        }
    }
    vstd::utf8::is_ascii_chars_encode_utf8(d);
    assert(d[0] != '#');
    assert(without_hashes(d) == d);
    let b = color_bytes(d);
    assert(b[0] == d[0] as u8 && b[1] == d[1] as u8 && b[2] == d[2] as u8);
    assert(b[3] == d[3] as u8 && b[4] == d[4] as u8 && b[5] == d[5] as u8);
    lemma_digits_have_values(d[1]);
    lemma_digits_have_values(d[3]);
    lemma_digits_have_values(d[5]);
    if d[0] != '+' {
        lemma_digits_have_values(d[0]);
    }
    if d[2] != '+' {
        lemma_digits_have_values(d[2]);
    }
    if d[4] != '+' {
        lemma_digits_have_values(d[4]);
    }
}

/// A color is set by its three numbers in decimal, and what is no color sets nothing.
pub proof fn law_colors_are_set_by_their_numbers(hex: Seq<char>, r: u8, g: u8, b: u8)
    ensures
        rgb(hex) == Some((r, g, b)) ==> foreground_hex(hex) == "\x1b[38;2;"@ + text::decimal(
            r as nat,
        ) + ";"@ + text::decimal(g as nat) + ";"@ + text::decimal(b as nat) + "m"@,
        rgb(hex) is None ==> foreground_hex(hex) == Seq::<char>::empty(),
        foreground(r, g, b) == "\x1b[38;2;"@ + text::decimal(r as nat) + ";"@ + text::decimal(
            g as nat,
        ) + ";"@ + text::decimal(b as nat) + "m"@,
{
}

/// The theme has the first configured color as its primary one, the second as its secondary one and
/// the third as its tertiary one.
pub proof fn law_theme_has_the_configured_colors(cfg: ColorConfig, theme: Theme)
    ensures
        theme_of(cfg).p == foreground_hex(cfg.primary@),
        theme_of(cfg).s == foreground_hex(cfg.secondary@),
        theme_of(cfg).t == foreground_hex(cfg.tertiary@),
        theme@.p == theme.p@,
        theme@.s == theme.s@,
        theme@.t == theme.t@,
{
}

/// A color is cut within a character exactly if the first cut is within one, or if the first part is
/// a number and the second cut is within one.
pub proof fn law_cuts_within_characters(hex: Seq<char>)
    requires
        hex.len() == 0 || hex[0] != '#',
    ensures
        ({
            let b = vstd::utf8::encode_utf8(hex);
            &&& b.len() != 3 && b.len() != 6 ==> cuts_cleanly(hex)
            &&& b.len() == 3 ==> cuts_cleanly(hex) == (vstd::utf8::is_char_boundary(b, 1) && (
            b[0] < 0x80 && is_digit(b[0] as char) ==> vstd::utf8::is_char_boundary(b, 2)))
            &&& b.len() == 6 && vstd::utf8::is_char_boundary(b, 2) && vstd::utf8::is_char_boundary(
                b,
                4,
            ) ==> cuts_cleanly(hex)
            &&& b.len() == 6 && !vstd::utf8::is_char_boundary(b, 2) ==> !cuts_cleanly(hex)
            &&& b.len() == 6 && vstd::utf8::is_char_boundary(b, 2) && !vstd::utf8::is_char_boundary(
                b,
                4,
            ) ==> cuts_cleanly(hex) == !(b[1] < 0x80 && is_digit(b[1] as char) && (b[0] == 0x2b || (
            b[0] < 0x80 && is_digit(b[0] as char))))
        }),
{
}

} // verus!
