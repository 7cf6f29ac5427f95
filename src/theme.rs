//! Colours, glyph sets and colour themes.
use crate::config::{first_key_index, find_entry, ConfigSymbols, ConfigTheme};
use crate::text::{lower_of, lowercase};
use vstd::prelude::*;
use vstd::string::StringExecFns;

verus! {

/// A terminal colour.
#[derive(Clone, Copy, Debug, PartialEq, Eq, Structural)]
pub enum Color {
    Rgb(u8, u8, u8),
    White,
}

/// The twelve colours handed out to calendars, in order.
pub open spec fn palette(i: int) -> Color {
    if i == 0 {
        Color::Rgb(203, 166, 247)
    } else if i == 1 {
        Color::Rgb(245, 194, 231)
    } else if i == 2 {
        Color::Rgb(235, 160, 172)
    } else if i == 3 {
        Color::Rgb(243, 139, 168)
    } else if i == 4 {
        Color::Rgb(250, 179, 135)
    } else if i == 5 {
        Color::Rgb(249, 226, 175)
    } else if i == 6 {
        Color::Rgb(166, 227, 161)
    } else if i == 7 {
        Color::Rgb(148, 226, 213)
    } else if i == 8 {
        Color::Rgb(137, 220, 235)
    } else if i == 9 {
        Color::Rgb(116, 199, 236)
    } else if i == 10 {
        Color::Rgb(137, 180, 250)
    } else {
        Color::Rgb(180, 190, 254)
    }
}

/// The colour of the calendar at position `i`: the palette, cycled.
pub fn calendar_color(i: usize) -> (r: Color)
    ensures
        r == palette(i as int % 12),
{
    let k = i % 12;
    if k == 0 {
        Color::Rgb(203, 166, 247)
    } else if k == 1 {
        Color::Rgb(245, 194, 231)
    } else if k == 2 {
        Color::Rgb(235, 160, 172)
    } else if k == 3 {
        Color::Rgb(243, 139, 168)
    } else if k == 4 {
        Color::Rgb(250, 179, 135)
    } else if k == 5 {
        Color::Rgb(249, 226, 175)
    } else if k == 6 {
        Color::Rgb(166, 227, 161)
    } else if k == 7 {
        Color::Rgb(148, 226, 213)
    } else if k == 8 {
        Color::Rgb(137, 220, 235)
    } else if k == 9 {
        Color::Rgb(116, 199, 236)
    } else if k == 10 {
        Color::Rgb(137, 180, 250)
    } else {
        Color::Rgb(180, 190, 254)
    }
}

/// The glyphs drawn for icons and arrows.
#[derive(Debug)]
pub struct Symbols {
    pub calendar: String,
    pub clock: String,
    pub help: String,
    pub left_arrow: String,
    pub right_arrow: String,
    pub up_arrow: String,
    pub down_arrow: String,
}

/// The views of the seven glyphs, in field order.
pub open spec fn glyphs(s: Symbols) -> Seq<Seq<char>> {
    seq![
        s.calendar@,
        s.clock@,
        s.help@,
        s.left_arrow@,
        s.right_arrow@,
        s.up_arrow@,
        s.down_arrow@,
    ]
}

pub open spec fn nerd_font_glyphs() -> Seq<Seq<char>> {
    seq![
        "\u{f455} "@,
        "\u{f017} "@,
        "\u{f128}"@,
        "\u{f060}"@,
        "\u{f061}"@,
        "\u{f062}"@,
        "\u{f063}"@,
    ]
}

pub open spec fn unicode_glyphs() -> Seq<Seq<char>> {
    seq!["\u{1f4c5}"@, "\u{1f552}"@, "?"@, "\u{25c4}"@, "\u{25ba}"@, "\u{25b2}"@, "\u{25bc}"@]
}

pub open spec fn ascii_glyphs() -> Seq<Seq<char>> {
    seq!["[C]"@, "[T]"@, "[?]"@, "<"@, ">"@, "^"@, "v"@]
}

/// The glyph views a configuration gives: each override, else the nerd-font glyph.
pub open spec fn configured_glyphs(c: ConfigSymbols) -> Seq<Seq<char>> {
    let d = nerd_font_glyphs();
    let o = seq![c.calendar, c.clock, c.help, c.left_arrow, c.right_arrow, c.up_arrow, c.down_arrow];
    Seq::new(
        7,
        |i: int|
            match o[i] {
                Some(s) => s@,
                None => d[i],
            },
    )
}

fn or_default(o: &Option<String>, d: String) -> (r: String)
    ensures
        r@ == (match o {
            Some(s) => s@,
            None => d@,
        }),
{
    match o {
        Some(s) => s.clone(),
        None => d,
    }
}

impl Symbols {
    /// Glyphs of a configured custom font (looked up by exact name), else a
    /// built-in set chosen by the lower-cased name: `unicode`, `ascii`, or the
    /// nerd-font set for any other name.
    pub fn from_string(name: &str, custom_fonts: &Option<Vec<(String, ConfigSymbols)>>) -> (r: Self)
        ensures
            glyphs(r) == (match custom_fonts {
                Some(fonts) if first_key_index(fonts@, name@) is Some => configured_glyphs(
                    fonts@[first_key_index(fonts@, name@)->0].1,
                ),
                _ => if lower_of(name@) == "unicode"@ {
                    unicode_glyphs()
                } else if lower_of(name@) == "ascii"@ {
                    ascii_glyphs()
                } else {
                    nerd_font_glyphs()
                },
            }),
    {
        if let Some(fonts) = custom_fonts {
            if let Some(i) = find_entry(fonts, name) {
                return Self::from_config(&fonts[i].1);
            }
        }
        let lower = lowercase(name);
        if crate::config::str_eq(lower.as_str(), "unicode") {
            Self::unicode()
        } else if crate::config::str_eq(lower.as_str(), "ascii") {
            Self::ascii()
        } else {
            Self::nerd_font()
        }
    }

    /// The nerd-font glyphs with the configured overrides applied.
    pub fn from_config(config: &ConfigSymbols) -> (r: Self)
        ensures
            glyphs(r) == configured_glyphs(*config),
    {
        let default = Self::default_glyphs();
        let r = Self {
            calendar: or_default(&config.calendar, default.calendar),
            clock: or_default(&config.clock, default.clock),
            help: or_default(&config.help, default.help),
            left_arrow: or_default(&config.left_arrow, default.left_arrow),
            right_arrow: or_default(&config.right_arrow, default.right_arrow),
            up_arrow: or_default(&config.up_arrow, default.up_arrow),
            down_arrow: or_default(&config.down_arrow, default.down_arrow),
        };
        assert(glyphs(r) =~= configured_glyphs(*config));
        r
    }

    /// The default glyph set: the nerd-font one.
    pub fn default_glyphs() -> (r: Self)
        ensures
            glyphs(r) == nerd_font_glyphs(),
    {
        Self::nerd_font()
    }

    /// Glyphs of a patched nerd font.
    pub fn nerd_font() -> (r: Self)
        ensures
            glyphs(r) == nerd_font_glyphs(),
    {
        Self {
            calendar: String::from_str("\u{f455} "),
            clock: String::from_str("\u{f017} "),
            help: String::from_str("\u{f128}"),
            left_arrow: String::from_str("\u{f060}"),
            right_arrow: String::from_str("\u{f061}"),
            up_arrow: String::from_str("\u{f062}"),
            down_arrow: String::from_str("\u{f063}"),
        }
    }

    /// Plain Unicode glyphs.
    pub fn unicode() -> (r: Self)
        ensures
            glyphs(r) == unicode_glyphs(),
    {
        Self {
            calendar: String::from_str("\u{1f4c5}"),
            clock: String::from_str("\u{1f552}"),
            help: String::from_str("?"),
            left_arrow: String::from_str("\u{25c4}"),
            right_arrow: String::from_str("\u{25ba}"),
            up_arrow: String::from_str("\u{25b2}"),
            down_arrow: String::from_str("\u{25bc}"),
        }
    }

    /// ASCII-only glyphs.
    pub fn ascii() -> (r: Self)
        ensures
            glyphs(r) == ascii_glyphs(),
    {
        Self {
            calendar: String::from_str("[C]"),
            clock: String::from_str("[T]"),
            help: String::from_str("[?]"),
            left_arrow: String::from_str("<"),
            right_arrow: String::from_str(">"),
            up_arrow: String::from_str("^"),
            down_arrow: String::from_str("v"),
        }
    }
}

impl Default for Symbols {
    fn default() -> (r: Self)
        ensures
            glyphs(r) == nerd_font_glyphs(),
    {
        Self::nerd_font()
    }
}

/// A colour theme.
#[derive(Clone, Copy, Debug, PartialEq, Eq, Structural)]
pub struct Theme {
    pub background: Color,
    pub foreground: Color,
    pub yellow: Color,
    pub blue: Color,
    pub mauve: Color,
    pub green: Color,
    pub red: Color,
    pub peach: Color,
    pub teal: Color,
}

/// The built-in dark theme.
pub open spec fn default_theme() -> Theme {
    Theme {
        background: Color::Rgb(30, 30, 46),
        foreground: Color::Rgb(205, 214, 244),
        yellow: Color::Rgb(249, 226, 175),
        blue: Color::Rgb(137, 180, 250),
        mauve: Color::Rgb(203, 166, 247),
        green: Color::Rgb(166, 227, 161),
        red: Color::Rgb(243, 139, 168),
        peach: Color::Rgb(250, 179, 135),
        teal: Color::Rgb(148, 226, 213),
    }
}

/// Value of a hexadecimal digit.
pub open spec fn hex_value(c: char) -> Option<u8> {
    if '0' <= c && c <= '9' {
        Some((c as u32 - '0' as u32) as u8)
    } else if 'a' <= c && c <= 'f' {
        Some((c as u32 - 'a' as u32 + 10) as u8)
    } else if 'A' <= c && c <= 'F' {
        Some((c as u32 - 'A' as u32 + 10) as u8)
    } else {
        None
    }
}

/// A two-character base-16 number as `u8::from_str_radix` reads it: two hex
/// digits, or a `+` sign and one digit.
pub open spec fn hex_pair(a: char, b: char) -> Option<u8> {
    match hex_value(b) {
        Some(lo) => if a == '+' {
            Some(lo)
        } else {
            match hex_value(a) {
                Some(hi) => Some((hi * 16 + lo) as u8),
                None => None,
            }
        },
        None => None,
    }
}

pub open spec fn channel(a: char, b: char) -> u8 {
    match hex_pair(a, b) {
        Some(v) => v,
        None => 255,
    }
}

/// All characters are ASCII.
pub open spec fn all_ascii(s: Seq<char>) -> bool {
    forall|i: int| 0 <= i < s.len() ==> (#[trigger] s[i]) as int <= 127
}

/// `#rrggbb` as a colour (an unreadable channel counts as 255); anything
/// else, and any text with a non-ASCII character, is white.
pub open spec fn parse_color_spec(s: Seq<char>) -> Color {
    if s.len() == 7 && s[0] == '#' && all_ascii(s) {
        Color::Rgb(channel(s[1], s[2]), channel(s[3], s[4]), channel(s[5], s[6]))
    } else {
        Color::White
    }
}

fn hex_digit(c: char) -> (r: Option<u8>)
    ensures
        r == hex_value(c),
{
    if '0' <= c && c <= '9' {
        Some((c as u32 - '0' as u32) as u8)
    } else if 'a' <= c && c <= 'f' {
        Some((c as u32 - 'a' as u32 + 10) as u8)
    } else if 'A' <= c && c <= 'F' {
        Some((c as u32 - 'A' as u32 + 10) as u8)
    } else {
        None
    }
}

fn read_channel(a: char, b: char) -> (r: u8)
    ensures
        r == channel(a, b),
{
    match hex_digit(b) {
        Some(lo) => {
            if a == '+' {
                lo
            } else {
                match hex_digit(a) {
                    Some(hi) => hi * 16 + lo,
                    None => 255,
                }
            }
        },
        None => 255,
    }
}

fn seven_ascii(s: &str) -> (r: bool)
    requires
        s@.len() == 7,
    ensures
        r == all_ascii(s@),
{
    let mut i: usize = 0;
    while i < 7
        invariant
            s@.len() == 7,
            i <= 7,
            forall|k: int| 0 <= k < i ==> (#[trigger] s@[k]) as int <= 127,
        decreases 7 - i,
    {
        if s.get_char(i) as u32 > 127 {
            return false;
        }
        i = i + 1;
    }
    true
}

/// Reads a `#rrggbb` colour.
pub fn parse_color(s: &str) -> (r: Color)
    ensures
        r == parse_color_spec(s@),
{
    if s.unicode_len() == 7 && s.get_char(0) == '#' && seven_ascii(s) {
        let red = read_channel(s.get_char(1), s.get_char(2));
        let green = read_channel(s.get_char(3), s.get_char(4));
        let blue = read_channel(s.get_char(5), s.get_char(6));
        Color::Rgb(red, green, blue)
    } else {
        Color::White
    }
}

pub open spec fn theme_from_config_spec(c: ConfigTheme) -> Theme {
    Theme {
        background: parse_color_spec(c.background@),
        foreground: parse_color_spec(c.foreground@),
        yellow: parse_color_spec(c.yellow@),
        blue: parse_color_spec(c.blue@),
        mauve: parse_color_spec(c.mauve@),
        green: parse_color_spec(c.green@),
        red: parse_color_spec(c.red@),
        peach: parse_color_spec(c.peach@),
        teal: parse_color_spec(c.teal@),
    }
}

impl Default for Theme {
    fn default() -> (r: Self)
        ensures
            r == default_theme(),
    {
        Self::default_theme()
    }
}

impl Theme {
    /// The configured theme of that (lower-cased) name, else the built-in one.
    pub fn from_string(name: &str, custom_themes: &Option<Vec<(String, ConfigTheme)>>) -> (r: Self)
        ensures
            r == (match custom_themes {
                Some(themes) if first_key_index(themes@, lower_of(name@)) is Some =>
                    theme_from_config_spec(
                    themes@[first_key_index(themes@, lower_of(name@))->0].1,
                ),
                _ => default_theme(),
            }),
    {
        let name_lower = lowercase(name);
        if let Some(themes) = custom_themes {
            if let Some(i) = find_entry(themes, name_lower.as_str()) {
                return Self::from_config(&themes[i].1);
            }
        }
        Self::default_theme()
    }

    /// Reads each colour of a configured theme.
    pub fn from_config(config: &ConfigTheme) -> (r: Self)
        ensures
            r == theme_from_config_spec(*config),
    {
        Self {
            background: parse_color(config.background.as_str()),
            foreground: parse_color(config.foreground.as_str()),
            yellow: parse_color(config.yellow.as_str()),
            blue: parse_color(config.blue.as_str()),
            mauve: parse_color(config.mauve.as_str()),
            green: parse_color(config.green.as_str()),
            red: parse_color(config.red.as_str()),
            peach: parse_color(config.peach.as_str()),
            teal: parse_color(config.teal.as_str()),
        }
    }

    /// The Catppuccin Mocha palette, which is the built-in theme.
    pub fn catppuccin_mocha() -> (r: Self)
        ensures
            r == default_theme(),
    {
        Self::default_theme()
    }

    /// The built-in dark theme.
    pub fn default_theme() -> (r: Self)
        ensures
            r == default_theme(),
    {
        Theme {
            background: Color::Rgb(30, 30, 46),
            foreground: Color::Rgb(205, 214, 244),
            yellow: Color::Rgb(249, 226, 175),
            blue: Color::Rgb(137, 180, 250),
            mauve: Color::Rgb(203, 166, 247),
            green: Color::Rgb(166, 227, 161),
            red: Color::Rgb(243, 139, 168),
            peach: Color::Rgb(250, 179, 135),
            teal: Color::Rgb(148, 226, 213),
        }
    }
}

} // verus!
