//! Colour themes: reading them from Alacritty's TOML files and keeping them in order.

use crate::error::{Fault, RadioError};
use crate::text::{
    byte_width, char_bytes, characters, comes_before, cut, first_position, holds, holds_text,
    is_space, is_text, lowercase, order_is_irreflexive, order_is_total, order_is_transitive, pieces,
    prefix_len, spelled, split, standing, strip, strip_end, strip_start, stripped, stripped_end,
    stripped_start, takes_bytes, text_bytes, texts, to_lowercase, trim, trimmed, CharClass,
    Standing,
};
use vstd::prelude::*;
use vstd::slice::slice_subrange;

verus! {

/// A colour by its red, green and blue parts.
#[derive(Clone, Copy, Debug, PartialEq, Eq, Structural)]
pub struct Rgb {
    pub red: u8,
    pub green: u8,
    pub blue: u8,
}

/// The colours that the screen is drawn with.
#[derive(Debug)]
pub struct Theme {
    pub name: String,
    pub background: Rgb,
    pub foreground: Rgb,
    pub accent: Rgb,
    pub secondary: Rgb,
}

impl Clone for Theme {
    fn clone(&self) -> (copy: Self)
        ensures
            copy@ == self@,
    {
        Theme {
            name: self.name.clone(),
            background: self.background,
            foreground: self.foreground,
            accent: self.accent,
            secondary: self.secondary,
        }
    }
}

/// A [`Theme`] as a mathematical value.
pub struct ThemeView {
    pub name: Seq<char>,
    pub background: Rgb,
    pub foreground: Rgb,
    pub accent: Rgb,
    pub secondary: Rgb,
}

impl View for Theme {
    type V = ThemeView;

    open spec fn view(&self) -> ThemeView {
        ThemeView {
            name: self.name@,
            background: self.background,
            foreground: self.foreground,
            accent: self.accent,
            secondary: self.secondary,
        }
    }
}

/// The value of a hexadecimal digit.
pub open spec fn hex_value(c: char) -> Option<u8> {
    if '0' <= c && c <= '9' {
        Some((c as u32 - 48) as u8)
    } else if 'a' <= c && c <= 'f' {
        Some((c as u32 - 87) as u8)
    } else if 'A' <= c && c <= 'F' {
        Some((c as u32 - 55) as u8)
    } else {
        None
    }
}

fn hex_digit(c: char) -> (value: Option<u8>)
    ensures
        value == hex_value(c),
        value matches Some(v) ==> v < 16,
{
    let n: u32 = c as u32;
    if '0' <= c && c <= '9' {
        Some((n - 48) as u8)
    } else if 'a' <= c && c <= 'f' {
        Some((n - 87) as u8)
    } else if 'A' <= c && c <= 'F' {
        Some((n - 55) as u8)
    } else {
        None
    }
}

/// What two characters say as a hexadecimal number: two digits, or one behind a `+`.
pub open spec fn hex_pair(first: char, second: char) -> Option<u8> {
    match (hex_value(first), hex_value(second)) {
        (Some(high), Some(low)) => Some((16 * high + low) as u8),
        (None, Some(low)) if first == '+' => Some(low),
        _ => None,
    }
}

/// What the first two bytes of a text hold.
pub enum Pair {
    /// A number.
    Byte(u8),
    /// Whole characters, but no number.
    NotHex,
    /// A character that begins in these two bytes and ends behind them.
    Cut,
}

/// Reads the first two bytes of a text.
pub open spec fn read_pair(text: Seq<char>) -> Pair {
    if text.len() > 0 && char_bytes(text[0]) == 2 {
        Pair::NotHex
    } else if text.len() > 1 && char_bytes(text[0]) == 1 && char_bytes(text[1]) == 1 {
        match hex_pair(text[0], text[1]) {
            Some(value) => Pair::Byte(value),
            None => Pair::NotHex,
        }
    } else {
        Pair::Cut
    }
}

fn pair(text: &[char]) -> (read: Pair)
    ensures
        read == read_pair(text@),
        read is Byte ==> text@.len() >= 2,
{
    if text.len() > 0 && byte_width(text[0]) == 2 {
        return Pair::NotHex;
    }
    if text.len() > 1 && byte_width(text[0]) == 1 && byte_width(text[1]) == 1 {
        match (hex_digit(text[0]), hex_digit(text[1])) {
            (Some(high), Some(low)) => Pair::Byte(16 * high + low),
            (None, Some(low)) => if text[0] == '+' {
                Pair::Byte(low)
            } else {
                Pair::NotHex
            },
            _ => Pair::NotHex,
        }
    } else {
        Pair::Cut
    }
}

/// A text without the `0x` marks that it begins with.
pub open spec fn strip_hex_marks(text: Seq<char>) -> Seq<char>
    decreases text.len(),
{
    if text.len() >= 2 && text[0] == '0' && text[1] == 'x' {
        strip_hex_marks(text.skip(2))
    } else {
        text
    }
}

fn stripped_hex_marks(text: &[char]) -> (rest: &[char])
    ensures
        rest@ == strip_hex_marks(text@),
    decreases text@.len(),
{
    if text.len() >= 2 && text[0] == '0' && text[1] == 'x' {
        assert(text@.skip(2) =~= text@.subrange(2, text@.len() as int));
        stripped_hex_marks(slice_subrange(text, 2, text.len()))
    } else {
        text
    }
}

/// The digits of a colour: trimmed, then without leading `#`, then without leading `0x`.
pub open spec fn color_digits(raw: Seq<char>) -> Seq<char> {
    strip_hex_marks(strip_start(trim(raw), CharClass::Only('#')))
}

/// What a colour setting says.
pub enum ColorReading {
    Color(Rgb),
    Fault(Fault),
    /// Six bytes, but a character lies across the border of two colour parts that are read.
    Cut,
}

/// Reads a colour setting: six bytes, two for each part.
pub open spec fn read_color(value: Option<Seq<char>>) -> ColorReading {
    match value {
        None => ColorReading::Fault(Fault::MissingColor),
        Some(raw) => {
            let digits = color_digits(raw);
            if text_bytes(digits) != 6 {
                ColorReading::Fault(Fault::UnsupportedColor(raw))
            } else {
                match read_pair(digits) {
                    Pair::Byte(red) => match read_pair(digits.skip(2)) {
                        Pair::Byte(green) => match read_pair(digits.skip(4)) {
                            Pair::Byte(blue) => ColorReading::Color(Rgb { red, green, blue }),
                            Pair::NotHex => ColorReading::Fault(Fault::InvalidDigit),
                            Pair::Cut => ColorReading::Cut,
                        },
                        Pair::NotHex => ColorReading::Fault(Fault::InvalidDigit),
                        Pair::Cut => ColorReading::Cut,
                    },
                    Pair::NotHex => ColorReading::Fault(Fault::InvalidDigit),
                    Pair::Cut => ColorReading::Cut,
                }
            }
        },
    }
}

/// The text that an optional string slice holds.
pub open spec fn optional_text(value: Option<&str>) -> Option<Seq<char>> {
    match value {
        Some(text) => Some(text@),
        None => None,
    }
}

/// `result` is what a colour reading that is not cut says.
pub open spec fn is_reading(result: Result<Rgb, RadioError>, reading: ColorReading) -> bool {
    match reading {
        ColorReading::Color(color) => result == Ok::<Rgb, RadioError>(color),
        ColorReading::Fault(fault) => result matches Err(error) && error@ == fault,
        ColorReading::Cut => false,
    }
}

fn color_reading(value: Option<&str>) -> (reading: Option<Result<Rgb, RadioError>>)
    ensures
        reading is None <==> read_color(optional_text(value)) is Cut,
        reading matches Some(result) ==> is_reading(result, read_color(optional_text(value))),
{
    let raw: &str = match value {
        Some(raw) => raw,
        None => {
            return Some(Err(RadioError::MissingColor));
        },
    };
    let chars: Vec<char> = characters(raw);
    let digits: &[char] = stripped_hex_marks(
        stripped_start(trimmed(chars.as_slice()), CharClass::Only('#')),
    );
    if !takes_bytes(digits, 6) {
        return Some(Err(RadioError::UnsupportedColor(raw.to_owned())));
    }
    let red: u8 = match pair(digits) {
        Pair::Byte(red) => red,
        Pair::NotHex => {
            return Some(Err(RadioError::InvalidDigit));
        },
        Pair::Cut => {
            return None;
        },
    };
    let tail: &[char] = slice_subrange(digits, 2, digits.len());
    assert(tail@ =~= digits@.skip(2));
    let green: u8 = match pair(tail) {
        Pair::Byte(green) => green,
        Pair::NotHex => {
            return Some(Err(RadioError::InvalidDigit));
        },
        Pair::Cut => {
            return None;
        },
    };
    let end: &[char] = slice_subrange(tail, 2, tail.len());
    assert(end@ =~= digits@.skip(4));
    match pair(end) {
        Pair::Byte(blue) => Some(Ok(Rgb { red, green, blue })),
        Pair::NotHex => Some(Err(RadioError::InvalidDigit)),
        Pair::Cut => None,
    }
}

/// Whether a colour setting can be read, be it as a colour or as an error.
pub fn color_is_readable(value: Option<&str>) -> (readable: bool)
    ensures
        readable == !(read_color(optional_text(value)) is Cut),
{
    color_reading(value).is_some()
}

/// Reads a colour such as `#1a2b3c` or `0x1a2b3c`.
pub fn parse_hex_color(value: Option<&str>) -> (color: Result<Rgb, RadioError>)
    requires
        !(read_color(optional_text(value)) is Cut),
    ensures
        is_reading(color, read_color(optional_text(value))),
        value is Some && read_color(Some(value->0@)) is Color ==> color is Ok && color->Ok_0
            == read_color(Some(value->0@))->Color_0,
        value is Some && read_color(Some(value->0@)) is Fault ==> color is Err && color->Err_0@
            == read_color(Some(value->0@))->Fault_0,
        value is None ==> color is Err && color->Err_0@ == Fault::MissingColor,
{
    color_reading(value).unwrap()
}

/// What has been read of a theme file: the section that the next setting belongs to, and the
/// value of every setting so far.
pub struct Settings {
    pub section: Seq<char>,
    pub values: Map<(Seq<char>, Seq<char>), Seq<char>>,
}

/// The name in a section heading: without the brackets around it.
pub open spec fn section_name(heading: Seq<char>) -> Seq<char> {
    strip_end(strip_start(heading, CharClass::Only('[')), CharClass::Only(']'))
}

/// A value without the white space and then the quotes around it.
pub open spec fn unquoted(raw: Seq<char>) -> Seq<char> {
    strip(strip(trim(raw), CharClass::Only('"')), CharClass::Only('\''))
}

/// Reads one more line: a comment, a section heading, a setting, or nothing of note.
pub open spec fn read_line(before: Settings, line: Seq<char>) -> Settings {
    let line = trim(line);
    if line.len() == 0 || line[0] == '#' {
        before
    } else if line[0] == '[' && line.last() == ']' {
        Settings { section: section_name(line), values: before.values }
    } else {
        match cut(line, '=') {
            None => before,
            Some((key, value)) => Settings {
                section: before.section,
                values: before.values.insert((before.section, trim(key)), unquoted(value)),
            },
        }
    }
}

/// Reads lines in order.
pub open spec fn read_lines(lines: Seq<Seq<char>>) -> Settings
    decreases lines.len(),
{
    if lines.len() == 0 {
        Settings { section: Seq::empty(), values: Map::empty() }
    } else {
        read_line(read_lines(lines.drop_last()), lines.last())
    }
}

/// The value that a file gives to a key of a section; the last one, if there are several.
pub open spec fn setting(
    settings: Settings,
    section: Seq<char>,
    key: Seq<char>,
) -> Option<Seq<char>> {
    if settings.values.contains_key((section, key)) {
        Some(settings.values[(section, key)])
    } else {
        None
    }
}

/// The settings of a theme file.
pub open spec fn settings_of(file: Seq<char>) -> Settings {
    read_lines(split(file, '\n'))
}

/// The colour settings that a theme is made from.
pub struct ThemeColors {
    pub background: Option<String>,
    pub foreground: Option<String>,
    pub green: Option<String>,
    pub blue: Option<String>,
    pub cyan: Option<String>,
    pub yellow: Option<String>,
    pub magenta: Option<String>,
    pub white: Option<String>,
}

/// The text that an optional string holds.
pub open spec fn optional_string(value: Option<String>) -> Option<Seq<char>> {
    match value {
        Some(text) => Some(text@),
        None => None,
    }
}

impl ThemeColors {
    /// These are the colours among the settings.
    pub open spec fn are_of(self, settings: Settings) -> bool {
        let primary = "colors.primary"@;
        let normal = "colors.normal"@;
        &&& optional_string(self.background) == setting(settings, primary, "background"@)
        &&& optional_string(self.foreground) == setting(settings, primary, "foreground"@)
        &&& optional_string(self.green) == setting(settings, normal, "green"@)
        &&& optional_string(self.blue) == setting(settings, normal, "blue"@)
        &&& optional_string(self.cyan) == setting(settings, normal, "cyan"@)
        &&& optional_string(self.yellow) == setting(settings, normal, "yellow"@)
        &&& optional_string(self.magenta) == setting(settings, normal, "magenta"@)
        &&& optional_string(self.white) == setting(settings, normal, "white"@)
    }
}

/// Takes over one setting if it is the wanted one.
fn take_over(
    slot: &mut Option<String>,
    section: &[char],
    key: &[char],
    value: &[char],
    wanted_section: &str,
    wanted_key: &str,
)
    ensures
        optional_string(*final(slot)) == (if section@ == wanted_section@ && key@ == wanted_key@ {
            Some(value@)
        } else {
            optional_string(*old(slot))
        }),
{
    if is_text(section, wanted_section) && is_text(key, wanted_key) {
        *slot = Some(spelled(value));
    }
}

/// Reads the colour settings of a theme file.
pub fn theme_colors(file: &str) -> (colors: ThemeColors)
    ensures
        colors.are_of(settings_of(file@)),
{
    let chars: Vec<char> = characters(file);
    let lines: Vec<&[char]> = pieces(chars.as_slice(), '\n');
    let ghost all = split(file@, '\n');
    let nothing: [char; 0] = [];
    let mut section: &[char] = &nothing;
    let mut colors: ThemeColors = ThemeColors {
        background: None,
        foreground: None,
        green: None,
        blue: None,
        cyan: None,
        yellow: None,
        magenta: None,
        white: None,
    };
    let mut i: usize = 0;
    assert(all.take(0) =~= Seq::<Seq<char>>::empty());
    assert(section@ =~= Seq::<char>::empty());
    while i < lines.len()
        invariant
            i <= lines@.len(),
            texts(lines@) == all,
            section@ == read_lines(all.take(i as int)).section,
            colors.are_of(read_lines(all.take(i as int))),
        decreases lines@.len() - i,
    {
        let ghost before = read_lines(all.take(i as int));
        assert(all.take(i + 1).drop_last() =~= all.take(i as int));
        assert(all.take(i + 1).last() == lines@[i as int]@);
        let line: &[char] = trimmed(lines[i]);
        i = i + 1;
        if line.len() == 0 || line[0] == '#' {
            continue ;
        }
        if line[0] == '[' && line[line.len() - 1] == ']' {
            section = stripped_end(
                stripped_start(line, CharClass::Only('[')),
                CharClass::Only(']'),
            );
            continue ;
        }
        let at: usize = first_position(line, '=');
        if at == line.len() {
            continue ;
        }
        assert(line@.subrange(0, at as int) =~= line@.take(at as int));
        assert(line@.subrange(at + 1, line@.len() as int) =~= line@.skip(at + 1));
        let key: &[char] = trimmed(slice_subrange(line, 0, at));
        let value: &[char] = stripped(
            stripped(trimmed(slice_subrange(line, at + 1, line.len())), CharClass::Only('"')),
            CharClass::Only('\''),
        );
        assert(read_line(before, lines@[i - 1]@).values == before.values.insert(
            (before.section, key@),
            value@,
        ));
        let primary: &str = "colors.primary";
        let normal: &str = "colors.normal";
        take_over(&mut colors.background, section, key, value, primary, "background");
        take_over(&mut colors.foreground, section, key, value, primary, "foreground");
        take_over(&mut colors.green, section, key, value, normal, "green");
        take_over(&mut colors.blue, section, key, value, normal, "blue");
        take_over(&mut colors.cyan, section, key, value, normal, "cyan");
        take_over(&mut colors.yellow, section, key, value, normal, "yellow");
        take_over(&mut colors.magenta, section, key, value, normal, "magenta");
        take_over(&mut colors.white, section, key, value, normal, "white");
    }
    assert(all.take(i as int) =~= all);
    colors
}

/// The first of two values that is there.
pub open spec fn first_of<T>(first: Option<T>, second: Option<T>) -> Option<T> {
    if first is Some {
        first
    } else {
        second
    }
}

/// The setting that the accent colour is read from: green, else blue, else cyan.
pub open spec fn accent_setting(settings: Settings) -> Option<Seq<char>> {
    let normal = "colors.normal"@;
    first_of(
        first_of(setting(settings, normal, "green"@), setting(settings, normal, "blue"@)),
        setting(settings, normal, "cyan"@),
    )
}

/// The setting that the secondary colour is read from: yellow, else magenta, else white.
pub open spec fn secondary_setting(settings: Settings) -> Option<Seq<char>> {
    let normal = "colors.normal"@;
    first_of(
        first_of(setting(settings, normal, "yellow"@), setting(settings, normal, "magenta"@)),
        setting(settings, normal, "white"@),
    )
}

/// What a theme file says.
pub enum ThemeReading {
    Theme(ThemeView),
    Fault(Fault),
    /// A colour that cannot be read stands before anything that is at fault.
    Cut,
}

/// Reads a theme: background, foreground, accent, secondary colour and name, in this order;
/// what is wrong first is what counts.
pub open spec fn read_theme(file: Seq<char>, stem: Option<Seq<char>>) -> ThemeReading {
    let settings = settings_of(file);
    let primary = "colors.primary"@;
    match read_color(setting(settings, primary, "background"@)) {
        ColorReading::Cut => ThemeReading::Cut,
        ColorReading::Fault(fault) => ThemeReading::Fault(fault),
        ColorReading::Color(background) => match read_color(
            setting(settings, primary, "foreground"@),
        ) {
            ColorReading::Cut => ThemeReading::Cut,
            ColorReading::Fault(fault) => ThemeReading::Fault(fault),
            ColorReading::Color(foreground) => match read_color(accent_setting(settings)) {
                ColorReading::Cut => ThemeReading::Cut,
                ColorReading::Fault(fault) => ThemeReading::Fault(fault),
                ColorReading::Color(accent) => match read_color(secondary_setting(settings)) {
                    ColorReading::Cut => ThemeReading::Cut,
                    ColorReading::Fault(fault) => ThemeReading::Fault(fault),
                    ColorReading::Color(secondary) => match stem {
                        None => ThemeReading::Fault(Fault::BadThemeFilename),
                        Some(name) => ThemeReading::Theme(
                            ThemeView { name, background, foreground, accent, secondary },
                        ),
                    },
                },
            },
        },
    }
}

/// `result` is what a theme reading that is not cut says.
pub open spec fn is_theme_reading(
    result: Result<Theme, RadioError>,
    reading: ThemeReading,
) -> bool {
    match reading {
        ThemeReading::Theme(theme) => result matches Ok(found) && found@ == theme,
        ThemeReading::Fault(fault) => result matches Err(error) && error@ == fault,
        ThemeReading::Cut => false,
    }
}

fn borrowed(value: &Option<String>) -> (text: Option<&str>)
    ensures
        optional_text(text) == optional_string(*value),
{
    match value {
        Some(text) => Some(text.as_str()),
        None => None,
    }
}

fn first_text<'a>(first: Option<&'a str>, second: Option<&'a str>) -> (text: Option<&'a str>)
    ensures
        optional_text(text) == first_of(optional_text(first), optional_text(second)),
{
    if first.is_some() {
        first
    } else {
        second
    }
}

fn theme_reading(file: &str, file_name: Option<&str>) -> (reading: Option<
    Result<Theme, RadioError>,
>)
    ensures
        reading is None <==> read_theme(file@, stem_of(optional_text(file_name))) is Cut,
        reading matches Some(result) ==> is_theme_reading(
            result,
            read_theme(file@, stem_of(optional_text(file_name))),
        ),
{
    let colors: ThemeColors = theme_colors(file);
    let background: Rgb = match color_reading(borrowed(&colors.background)) {
        None => {
            return None;
        },
        Some(Err(error)) => {
            return Some(Err(error));
        },
        Some(Ok(color)) => color,
    };
    let foreground: Rgb = match color_reading(borrowed(&colors.foreground)) {
        None => {
            return None;
        },
        Some(Err(error)) => {
            return Some(Err(error));
        },
        Some(Ok(color)) => color,
    };
    let accent_text: Option<&str> = first_text(
        first_text(borrowed(&colors.green), borrowed(&colors.blue)),
        borrowed(&colors.cyan),
    );
    let accent: Rgb = match color_reading(accent_text) {
        None => {
            return None;
        },
        Some(Err(error)) => {
            return Some(Err(error));
        },
        Some(Ok(color)) => color,
    };
    let secondary_text: Option<&str> = first_text(
        first_text(borrowed(&colors.yellow), borrowed(&colors.magenta)),
        borrowed(&colors.white),
    );
    let secondary: Rgb = match color_reading(secondary_text) {
        None => {
            return None;
        },
        Some(Err(error)) => {
            return Some(Err(error));
        },
        Some(Ok(color)) => color,
    };
    match file_name {
        None => Some(Err(RadioError::BadThemeFilename)),
        Some(file_name) => Some(
            Ok(Theme { name: file_stem(file_name), background, foreground, accent, secondary }),
        ),
    }
}

/// Whether a theme file can be read, be it as a theme or as an error.
pub fn theme_is_readable(file: &str, file_name: Option<&str>) -> (readable: bool)
    ensures
        readable == !(read_theme(file@, stem_of(optional_text(file_name))) is Cut),
{
    theme_reading(file, file_name).is_some()
}

/// Reads a theme from the contents and the name of its file.
pub fn parse_theme_file(file: &str, file_name: Option<&str>) -> (theme: Result<
    Theme,
    RadioError,
>)
    requires
        !(read_theme(file@, stem_of(optional_text(file_name))) is Cut),
    ensures
        is_theme_reading(theme, read_theme(file@, stem_of(optional_text(file_name)))),
        read_theme(file@, stem_of(optional_text(file_name))) matches ThemeReading::Theme(read)
            ==> theme is Ok && theme->Ok_0.name@ == read.name && theme->Ok_0.background
            == read.background && theme->Ok_0.foreground == read.foreground && theme->Ok_0.accent
            == read.accent && theme->Ok_0.secondary == read.secondary,
        read_theme(file@, stem_of(optional_text(file_name))) matches ThemeReading::Fault(fault)
            ==> theme is Err && theme->Err_0@ == fault,
        file_name is Some && theme is Ok ==> theme->Ok_0.name@ == stem(file_name->0@),
        file_name is None ==> theme is Err,
{
    theme_reading(file, file_name).unwrap()
}

/// The position behind the last dot of a file name; 0 if there is none.
pub open spec fn behind_last_dot(name: Seq<char>) -> nat
    decreases name.len(),
{
    if name.len() == 0 || name.last() == '.' {
        name.len()
    } else {
        behind_last_dot(name.drop_last())
    }
}

/// The part of a file name before its last dot, unless that dot comes first: then it is the
/// whole name, as it is for a name without a dot.
pub open spec fn stem(name: Seq<char>) -> Seq<char> {
    let n = behind_last_dot(name) as int;
    if n > 1 {
        name.take(n - 1)
    } else {
        name
    }
}

/// The part of a file name behind its last dot, if something comes before that dot.
pub open spec fn extension(name: Seq<char>) -> Option<Seq<char>> {
    let n = behind_last_dot(name) as int;
    if n > 1 {
        Some(name.skip(n))
    } else {
        None
    }
}

/// The stem of a file name that may be missing.
pub open spec fn stem_of(name: Option<Seq<char>>) -> Option<Seq<char>> {
    match name {
        Some(name) => Some(stem(name)),
        None => None,
    }
}

fn last_dot(name: &[char]) -> (n: usize)
    ensures
        n == behind_last_dot(name@),
        n <= name@.len(),
{
    let mut n: usize = name.len();
    assert(name@.take(n as int) =~= name@);
    while n > 0 && name[n - 1] != '.'
        invariant
            n <= name@.len(),
            behind_last_dot(name@) == behind_last_dot(name@.take(n as int)),
        decreases n,
    {
        assert(name@.take(n as int).drop_last() =~= name@.take(n - 1));
        n = n - 1;
    }
    n
}

/// The name of a file without its extension.
pub fn file_stem(name: &str) -> (found: String)
    ensures
        found@ == stem(name@),
{
    let chars: Vec<char> = characters(name);
    let n: usize = last_dot(chars.as_slice());
    if n > 1 {
        assert(chars@.subrange(0, n - 1) =~= chars@.take(n - 1));
        spelled(slice_subrange(chars.as_slice(), 0, n - 1))
    } else {
        name.to_owned()
    }
}

/// A file that is read as a theme: TOML by its extension, and no backup by its name.
pub open spec fn names_theme(name: Seq<char>) -> bool {
    extension(name) == Some("toml"@) && !holds(name, "backup"@) && !holds(name, ".bak"@)
}

/// Whether a file of this name is read as a theme.
pub fn is_theme_file(name: &str) -> (wanted: bool)
    ensures
        wanted == names_theme(name@),
{
    let chars: Vec<char> = characters(name);
    let n: usize = last_dot(chars.as_slice());
    if n <= 1 {
        return false;
    }
    assert(chars@.subrange(n as int, chars@.len() as int) =~= chars@.skip(n as int));
    is_text(slice_subrange(chars.as_slice(), n, chars.len()), "toml") && !holds_text(
        chars.as_slice(),
        "backup",
    ) && !holds_text(chars.as_slice(), ".bak")
}

/// A file that may hold a theme.
pub struct ThemeFile {
    /// Its name; missing where it is no Unicode text.
    pub name: Option<String>,
    /// What it holds.
    pub text: String,
}

impl ThemeFile {
    /// What the file says.
    pub open spec fn reading(self) -> ThemeReading {
        read_theme(self.text@, stem_of(optional_string(self.name)))
    }
}

/// The themes among the files, in the files' order; files that hold none are passed over.
pub open spec fn themes_in(files: Seq<ThemeFile>) -> Seq<ThemeView>
    decreases files.len(),
{
    if files.len() == 0 {
        Seq::empty()
    } else {
        let before = themes_in(files.drop_last());
        match files.last().reading() {
            ThemeReading::Theme(theme) => before.push(theme),
            _ => before,
        }
    }
}

/// A theme with the key that it is told apart and put in order by.
pub struct KeyedTheme {
    pub key: String,
    pub theme: Theme,
}

/// A [`KeyedTheme`] as a mathematical value.
pub struct KeyedView {
    pub key: Seq<char>,
    pub theme: ThemeView,
}

impl View for KeyedTheme {
    type V = KeyedView;

    open spec fn view(&self) -> KeyedView {
        KeyedView { key: self.key@, theme: self.theme@ }
    }
}

/// The theme at `at` is the first of its key.
pub open spec fn is_first_of_key(all: Seq<KeyedView>, at: int) -> bool {
    0 <= at < all.len() && forall|k: int|
        0 <= k < at ==> (#[trigger] all[k]).key != all[at].key
}

/// Every theme comes before the next by its key, so no key occurs twice.
pub open spec fn in_key_order(list: Seq<KeyedView>) -> bool {
    forall|i: int, j: int|
        0 <= i < j < list.len() ==> comes_before(
            (#[trigger] list[i]).key,
            (#[trigger] list[j]).key,
        )
}

/// A theme that is the first of its key in `all`.
pub open spec fn leads_key(theme: KeyedView, all: Seq<KeyedView>) -> bool {
    exists|at: int| #[trigger] is_first_of_key(all, at) && all[at] == theme
}

/// `list` holds the first theme of every key in `all`, and nothing else, in order.
pub open spec fn is_catalog(list: Seq<KeyedView>, all: Seq<KeyedView>) -> bool {
    &&& in_key_order(list)
    &&& forall|i: int| 0 <= i < list.len() ==> leads_key(#[trigger] list[i], all)
    &&& forall|at: int| #[trigger] is_first_of_key(all, at) ==> list.contains(all[at])
}

/// The themes of a list as mathematical values.
pub open spec fn theme_views(themes: Seq<Theme>) -> Seq<ThemeView> {
    Seq::new(themes.len(), |i: int| themes[i]@)
}

/// The themes of a list with their keys, as mathematical values.
pub open spec fn keyed_views(themes: Seq<KeyedTheme>) -> Seq<KeyedView> {
    Seq::new(themes.len(), |i: int| themes[i]@)
}

/// Themes with the keys that they have: their names in lower case.
pub open spec fn keyed(themes: Seq<ThemeView>) -> Seq<KeyedView> {
    Seq::new(
        themes.len(),
        |i: int| KeyedView { key: lowercase(themes[i].name), theme: themes[i] },
    )
}

/// Every theme has one of its key in the catalogue.
proof fn lemma_catalog_has_key(list: Seq<KeyedView>, all: Seq<KeyedView>, at: int)
    requires
        is_catalog(list, all),
        0 <= at < all.len(),
    ensures
        exists|i: int| 0 <= i < list.len() && (#[trigger] list[i]).key == all[at].key,
    decreases at,
{
    if is_first_of_key(all, at) {
        assert(list.contains(all[at]));
        let i = choose|i: int| 0 <= i < list.len() && list[i] == all[at];
        assert(list[i].key == all[at].key);
    } else {
        let k = choose|k: int| 0 <= k < at && (#[trigger] all[k]).key == all[at].key;
        lemma_catalog_has_key(list, all, k);
    }
}

/// A theme whose key is there already changes nothing.
proof fn lemma_catalog_keeps(list: Seq<KeyedView>, all: Seq<KeyedView>, new: KeyedView, pos: int)
    requires
        is_catalog(list, all),
        0 <= pos < list.len(),
        list[pos].key == new.key,
    ensures
        is_catalog(list, all.push(new)),
{
    let more = all.push(new);
    assert forall|i: int| 0 <= i < list.len() implies leads_key(#[trigger] list[i], more) by {
        let at = choose|at: int| #[trigger] is_first_of_key(all, at) && all[at] == list[i];
        assert(is_first_of_key(more, at));
    }
    assert forall|at: int| #[trigger] is_first_of_key(more, at) implies list.contains(more[at]) by {
        if at == all.len() {
            let home = choose|home: int|
                #[trigger] is_first_of_key(all, home) && all[home] == list[pos];
            assert(more[home].key == more[at].key);
        } else {
            assert forall|k: int| 0 <= k < at implies (#[trigger] all[k]).key != all[at].key by {
                assert(more[k] == all[k]);
            }
            assert(is_first_of_key(all, at));
        }
    }
}

/// A theme with a new key goes where the order wants it.
proof fn lemma_catalog_grows(list: Seq<KeyedView>, all: Seq<KeyedView>, new: KeyedView, pos: int)
    requires
        is_catalog(list, all),
        0 <= pos <= list.len(),
        forall|k: int| 0 <= k < pos ==> comes_before((#[trigger] list[k]).key, new.key),
        pos < list.len() ==> comes_before(new.key, list[pos].key),
    ensures
        is_catalog(list.insert(pos, new), all.push(new)),
{
    let more = all.push(new);
    let longer = list.insert(pos, new);
    assert forall|k: int| pos <= k < list.len() implies comes_before(
        new.key,
        (#[trigger] list[k]).key,
    ) by {
        if k > pos {
            order_is_transitive(new.key, list[pos].key, list[k].key);
        }
    }
    assert forall|i: int, j: int| 0 <= i < j < longer.len() implies comes_before(
        (#[trigger] longer[i]).key,
        (#[trigger] longer[j]).key,
    ) by {
        let a = if i < pos { i } else { i - 1 };
        let b = if j < pos { j } else { j - 1 };
        if i != pos {
            assert(longer[i] == list[a]);
        }
        if j != pos {
            assert(longer[j] == list[b]);
        }
    }
    assert(in_key_order(longer));
    assert forall|k: int| 0 <= k < all.len() implies (#[trigger] all[k]).key != new.key by {
        if all[k].key == new.key {
            lemma_catalog_has_key(list, all, k);
            let i = choose|i: int|
                0 <= i < list.len() && (#[trigger] list[i]).key == all[k].key;
            order_is_irreflexive(new.key);
        }
    }
    assert forall|i: int| 0 <= i < longer.len() implies leads_key(#[trigger] longer[i], more) by {
        if i == pos {
            assert forall|k: int| 0 <= k < all.len() implies (#[trigger] more[k]).key
                != more[all.len() as int].key by {
                assert(more[k] == all[k]);
            }
            assert(is_first_of_key(more, all.len() as int));
        } else {
            let a = if i < pos { i } else { i - 1 };
            assert(longer[i] == list[a]);
            let at = choose|at: int| #[trigger] is_first_of_key(all, at) && all[at] == list[a];
            assert(is_first_of_key(more, at));
        }
    }
    assert forall|at: int| #[trigger] is_first_of_key(more, at) implies longer.contains(
        more[at],
    ) by {
        if at == all.len() {
            assert(longer[pos] == new);
        } else {
            assert forall|k: int| 0 <= k < at implies (#[trigger] all[k]).key != all[at].key by {
                assert(more[k] == all[k]);
            }
            assert(is_first_of_key(all, at));
            let i = choose|i: int| 0 <= i < list.len() && list[i] == all[at];
            let b = if i < pos { i } else { i + 1 };
            assert(longer[b] == list[i]);
        }
    }
}

/// Two lists in key order with the same themes are the same list.
proof fn lemma_order_decides(a: Seq<KeyedView>, b: Seq<KeyedView>)
    requires
        in_key_order(a),
        in_key_order(b),
        forall|t: KeyedView| a.contains(t) <==> b.contains(t),
    ensures
        a == b,
    decreases a.len(),
{
    if a.len() == 0 {
        if b.len() > 0 {
            assert(b.contains(b[0]));
            assert(a.contains(b[0]));
        }
        assert(a =~= b);
    } else {
        assert(a.contains(a[0]));
        let k = choose|k: int| 0 <= k < b.len() && b[k] == a[0];
        assert(b.contains(b[0]));
        let m = choose|m: int| 0 <= m < a.len() && a[m] == b[0];
        if k > 0 {
            assert(comes_before(b[0].key, b[k].key));
            if m > 0 {
                assert(comes_before(a[0].key, a[m].key));
                order_is_transitive(a[0].key, b[0].key, a[0].key);
            }
            order_is_irreflexive(a[0].key);
        }
        let x = a.drop_first();
        let y = b.drop_first();
        assert forall|t: KeyedView| x.contains(t) implies y.contains(t) by {
            let i = choose|i: int| 0 <= i < x.len() && x[i] == t;
            assert(a[i + 1] == t);
            assert(a.contains(t));
            let j = choose|j: int| 0 <= j < b.len() && b[j] == t;
            if j == 0 {
                assert(comes_before(a[0].key, a[i + 1].key));
                order_is_irreflexive(a[0].key);
            }
            assert(y[j - 1] == t);
        }
        assert forall|t: KeyedView| y.contains(t) implies x.contains(t) by {
            let i = choose|i: int| 0 <= i < y.len() && y[i] == t;
            assert(b[i + 1] == t);
            assert(b.contains(t));
            let j = choose|j: int| 0 <= j < a.len() && a[j] == t;
            if j == 0 {
                assert(comes_before(b[0].key, b[i + 1].key));
                order_is_irreflexive(b[0].key);
            }
            assert(x[j - 1] == t);
        }
        assert forall|i: int, j: int| 0 <= i < j < x.len() implies comes_before(
            (#[trigger] x[i]).key,
            (#[trigger] x[j]).key,
        ) by {
            assert(x[i] == a[i + 1] && x[j] == a[j + 1]);
        }
        assert forall|i: int, j: int| 0 <= i < j < y.len() implies comes_before(
            (#[trigger] y[i]).key,
            (#[trigger] y[j]).key,
        ) by {
            assert(y[i] == b[i + 1] && y[j] == b[j + 1]);
        }
        lemma_order_decides(x, y);
        assert(a =~= seq![a[0]] + x);
        assert(b =~= seq![b[0]] + y);
    }
}

/// The themes that were read leave no choice in how they are listed.
pub proof fn catalog_is_unique(a: Seq<KeyedView>, b: Seq<KeyedView>, all: Seq<KeyedView>)
    requires
        is_catalog(a, all),
        is_catalog(b, all),
    ensures
        a == b,
{
    assert forall|t: KeyedView| a.contains(t) implies b.contains(t) by {
        let i = choose|i: int| 0 <= i < a.len() && a[i] == t;
        let at = choose|at: int| #[trigger] is_first_of_key(all, at) && all[at] == a[i];
    }
    assert forall|t: KeyedView| b.contains(t) implies a.contains(t) by {
        let i = choose|i: int| 0 <= i < b.len() && b[i] == t;
        let at = choose|at: int| #[trigger] is_first_of_key(all, at) && all[at] == b[i];
    }
    lemma_order_decides(a, b);
}

/// Lists themes by their keys: one for each key, the first, in the order of the keys.
pub fn list_by_key(all: &[KeyedTheme]) -> (list: Vec<KeyedTheme>)
    ensures
        is_catalog(keyed_views(list@), keyed_views(all@)),
{
    let mut list: Vec<KeyedTheme> = Vec::new();
    let mut keys: Vec<Vec<char>> = Vec::new();
    let ghost given = keyed_views(all@);
    let mut i: usize = 0;
    while i < all.len()
        invariant
            i <= all@.len(),
            given == keyed_views(all@),
            keys@.len() == list@.len(),
            forall|k: int| 0 <= k < keys@.len() ==> (#[trigger] keys@[k])@ == list@[k]@.key,
            is_catalog(keyed_views(list@), given.take(i as int)),
        decreases all@.len() - i,
    {
        let ghost before = keyed_views(list@);
        let ghost new = given[i as int];
        assert(given.take(i + 1) =~= given.take(i as int).push(new));
        let key: Vec<char> = characters(all[i].key.as_str());
        let mut pos: usize = 0;
        let mut known: bool = false;
        while pos < keys.len()
            invariant_except_break
                !known,
            invariant
                pos <= keys@.len(),
                keys@.len() == before.len(),
                key@ == new.key,
                forall|k: int| 0 <= k < keys@.len() ==> (#[trigger] keys@[k])@ == before[k].key,
                forall|k: int| 0 <= k < pos ==> comes_before((#[trigger] before[k]).key, new.key),
            ensures
                known ==> pos < before.len() && before[pos as int].key == new.key,
                !known && pos < before.len() ==> comes_before(new.key, before[pos as int].key),
            decreases keys@.len() - pos,
        {
            match standing(keys[pos].as_slice(), key.as_slice()) {
                Standing::Before => {
                    pos = pos + 1;
                },
                Standing::Same => {
                    known = true;
                    break ;
                },
                Standing::Behind => {
                    proof {
                        order_is_total(keys@[pos as int]@, key@);
                    }
                    break ;
                },
            }
        }
        if known {
            proof {
                lemma_catalog_keeps(before, given.take(i as int), new, pos as int);
            }
        } else {
            proof {
                lemma_catalog_grows(before, given.take(i as int), new, pos as int);
            }
            let ghost old_keys = keys@;
            let taken: KeyedTheme = KeyedTheme {
                key: all[i].key.clone(),
                theme: all[i].theme.clone(),
            };
            list.insert(pos, taken);
            keys.insert(pos, key);
            assert(keyed_views(list@) =~= before.insert(pos as int, new));
            assert forall|k: int| 0 <= k < keys@.len() implies (#[trigger] keys@[k])@
                == list@[k]@.key by {
                if k < pos {
                    assert(keys@[k] == old_keys[k]);
                } else if k > pos {
                    assert(keys@[k] == old_keys[k - 1]);
                }
            }
        }
        i = i + 1;
    }
    assert(given.take(i as int) =~= given);
    list
}

/// The themes that can be chosen from: those of the files, one for each name without regard to
/// case, in the order of their names in lower case.
pub fn load_alacritty_themes(files: &[ThemeFile]) -> (themes: Result<Vec<Theme>, RadioError>)
    requires
        forall|i: int| 0 <= i < files@.len() ==> !((#[trigger] files@[i]).reading() is Cut),
    ensures
        match themes {
            Ok(list) => list@.len() > 0 && is_catalog(
                keyed(theme_views(list@)),
                keyed(themes_in(files@)),
            ),
            Err(error) => error@ == Fault::NoThemes && themes_in(files@).len() == 0,
        },
{
    let mut all: Vec<KeyedTheme> = Vec::new();
    let mut i: usize = 0;
    assert(files@.take(0) =~= Seq::<ThemeFile>::empty());
    assert(keyed_views(all@) =~= keyed(themes_in(files@.take(0))));
    while i < files.len()
        invariant
            i <= files@.len(),
            forall|k: int| 0 <= k < files@.len() ==> !((#[trigger] files@[k]).reading() is Cut),
            keyed_views(all@) == keyed(themes_in(files@.take(i as int))),
        decreases files@.len() - i,
    {
        let ghost before = themes_in(files@.take(i as int));
        let ghost keyed_before = keyed_views(all@);
        let file: &ThemeFile = &files[i];
        assert(files@.take(i + 1).drop_last() =~= files@.take(i as int));
        assert(files@.take(i + 1).last() == *file);
        i = i + 1;
        if let Ok(theme) = parse_theme_file(file.text.as_str(), borrowed(&file.name)) {
            let key: String = to_lowercase(theme.name.as_str());
            let ghost new = KeyedView { key: lowercase(theme.name@), theme: theme@ };
            all.push(KeyedTheme { key, theme });
            assert(keyed_views(all@) =~= keyed_before.push(new));
            assert(keyed(before.push(new.theme)) =~= keyed(before).push(new));
        }
    }
    assert(files@.take(i as int) =~= files@);
    let list: Vec<KeyedTheme> = list_by_key(all.as_slice());
    let ghost given = keyed(themes_in(files@));
    let mut themes: Vec<Theme> = Vec::new();
    let mut k: usize = 0;
    while k < list.len()
        invariant
            k <= list@.len(),
            themes@.len() == k,
            forall|n: int| 0 <= n < k ==> (#[trigger] themes@[n])@ == list@[n]@.theme,
        decreases list@.len() - k,
    {
        themes.push(list[k].theme.clone());
        k = k + 1;
    }
    proof {
        let chosen = keyed_views(list@);
        assert forall|n: int| 0 <= n < chosen.len() implies keyed(theme_views(themes@))[n]
            == chosen[n] by {
            assert(leads_key(chosen[n], given));
        }
        assert(keyed(theme_views(themes@)) =~= chosen);
        if given.len() > 0 {
            assert(is_first_of_key(given, 0));
            assert(chosen.contains(given[0]));
        }
        if chosen.len() > 0 {
            assert(leads_key(chosen[0], given));
        }
    }
    if themes.len() == 0 {
        return Err(RadioError::NoThemes);
    }
    Ok(themes)
}

/// A line that is blank or a comment leaves everything as it was.
pub proof fn comments_change_nothing(before: Settings, line: Seq<char>)
    requires
        trim(line).len() == 0 || trim(line)[0] == '#',
    ensures
        read_line(before, line) == before,
{
}

/// A setting is read back as it was written: a line with a key, an equals sign and a value sets
/// the key to the value, in the section that the line stands in, and nothing else.
pub proof fn settings_are_read_back(before: Settings, key: Seq<char>, value: Seq<char>)
    requires
        key.len() > 0,
        trim(key) == key,
        !key.contains('='),
        key[0] != '#',
        !(key[0] == '[' && strip_end(seq!['='] + value, CharClass::Space).last() == ']'),
    ensures
        read_line(before, key + seq!['='] + value) == (Settings {
            section: before.section,
            values: before.values.insert((before.section, key), unquoted(value)),
        }),
        setting(
            read_line(before, key + seq!['='] + value),
            before.section,
            key,
        ) == Some(unquoted(value)),
{
    let line = key + seq!['='] + value;
    let space = CharClass::Space;
    assert(!is_space_at_start(key)) by {
        if is_space_at_start(key) {
            lemma_trim_shortens(key);
        }
    }
    assert(line[0] == key[0]);
    assert(strip_start(line, space) == line);
    let head = key + seq!['='];
    assert(line =~= head + value);
    assert(head.last() == '=');
    crate::text::lemma_strip_end_behind(head, value, space);
    let short = strip_end(value, space);
    assert(trim(line) == head + short);
    crate::text::lemma_strip_end_behind(seq!['='], value, space);
    assert((head + short).last() == (seq!['='] + short).last());
    assert(head + short =~= key + seq!['='] + short);
    crate::text::lemma_prefix_of_joined(key, '=', short);
    assert((head + short).take(key.len() as int) =~= key);
    assert((head + short).skip(key.len() as int + 1) =~= short);
    crate::text::trim_ignores_space_at_the_end(value);
}

spec fn is_space_at_start(text: Seq<char>) -> bool {
    text.len() > 0 && CharClass::Space.contains(text[0])
}

proof fn lemma_strip_start_shortens(text: Seq<char>, class: CharClass)
    ensures
        strip_start(text, class).len() <= text.len(),
    decreases text.len(),
{
    if text.len() > 0 && class.contains(text[0]) {
        lemma_strip_start_shortens(text.drop_first(), class);
    }
}

proof fn lemma_strip_end_shortens(text: Seq<char>, class: CharClass)
    ensures
        strip_end(text, class).len() <= text.len(),
    decreases text.len(),
{
    if text.len() > 0 && class.contains(text.last()) {
        lemma_strip_end_shortens(text.drop_last(), class);
    }
}

proof fn lemma_trim_shortens(text: Seq<char>)
    requires
        is_space_at_start(text),
    ensures
        trim(text).len() < text.len(),
{
    lemma_strip_start_shortens(text.drop_first(), CharClass::Space);
    lemma_strip_end_shortens(strip_start(text, CharClass::Space), CharClass::Space);
}

/// Two characters are the digits of a number, with small or capital letters.
pub open spec fn spells_part(high: char, low: char, part: u8) -> bool {
    hex_value(high) == Some(part / 16) && hex_value(low) == Some(part % 16)
}

/// Six characters are the digits of a colour's parts, with small or capital letters.
pub open spec fn spells_color(digits: Seq<char>, color: Rgb) -> bool {
    &&& digits.len() == 6
    &&& spells_part(digits[0], digits[1], color.red)
    &&& spells_part(digits[2], digits[3], color.green)
    &&& spells_part(digits[4], digits[5], color.blue)
}

/// A text of nothing but white space.
pub open spec fn is_blank(text: Seq<char>) -> bool {
    forall|i: int| 0 <= i < text.len() ==> is_space(#[trigger] text[i])
}

/// The mark `0x`, so many times.
pub open spec fn hex_marks(count: nat) -> Seq<char>
    decreases count,
{
    if count == 0 {
        Seq::empty()
    } else {
        seq!['0', 'x'] + hex_marks((count - 1) as nat)
    }
}

proof fn lemma_hex_digit(c: char)
    requires
        hex_value(c) is Some,
    ensures
        char_bytes(c) == 1,
        c != 'x',
        c != '#',
        !is_space(c),
{
}

proof fn lemma_blank_is_stripped(text: Seq<char>)
    requires
        is_blank(text),
    ensures
        strip_end(text, CharClass::Space) == Seq::<char>::empty(),
    decreases text.len(),
{
    if text.len() > 0 {
        let rest = text.drop_last();
        assert forall|i: int| 0 <= i < rest.len() implies is_space(#[trigger] rest[i]) by {
            assert(rest[i] == text[i]);
        }
        lemma_blank_is_stripped(rest);
    } else {
        assert(text =~= Seq::<char>::empty());
    }
}

proof fn lemma_hex_marks_are_stripped(count: nat, digits: Seq<char>)
    requires
        digits.len() > 1,
        digits[1] != 'x',
    ensures
        strip_hex_marks(hex_marks(count) + digits) == digits,
        count > 0 ==> hex_marks(count).len() > 0 && hex_marks(count)[0] == '0',
    decreases count,
{
    let whole = hex_marks(count) + digits;
    if count > 0 {
        let fewer = (count - 1) as nat;
        lemma_hex_marks_are_stripped(fewer, digits);
        assert(whole.skip(2) =~= hex_marks(fewer) + digits);
    } else {
        assert(whole =~= digits);
    }
}

/// Every colour is read back from its six digits, in small or capital letters: with or without
/// `#` before them, with or without `0x` behind that, and whatever white space is around.
pub proof fn colors_are_read_back(
    color: Rgb,
    before: Seq<char>,
    hashes: nat,
    marks: nat,
    digits: Seq<char>,
    behind: Seq<char>,
)
    requires
        is_blank(before),
        spells_color(digits, color),
        is_blank(behind),
    ensures
        read_color(
            Some(before + Seq::new(hashes, |i: int| '#') + hex_marks(marks) + digits + behind),
        ) == ColorReading::Color(color),
{
    let hash = Seq::new(hashes, |i: int| '#');
    let marked = hex_marks(marks) + digits;
    let core = hash + marked;
    let raw = before + hash + hex_marks(marks) + digits + behind;
    lemma_hex_digit(digits[0]);
    lemma_hex_digit(digits[1]);
    lemma_hex_digit(digits[2]);
    lemma_hex_digit(digits[3]);
    lemma_hex_digit(digits[4]);
    lemma_hex_digit(digits[5]);
    lemma_hex_marks_are_stripped(marks, digits);
    assert(marked[0] == '0' || marked[0] == digits[0]);
    assert(core[0] == '#' || core[0] == marked[0]);
    assert(core.last() == digits[5]);
    let space = CharClass::Space;
    assert(raw =~= before + (core + behind));
    assert((core + behind)[0] == core[0]);
    crate::text::lemma_strip_start_before(before, core + behind, space);
    lemma_blank_is_stripped(behind);
    crate::text::lemma_strip_end_behind(core, behind, space);
    assert(core + Seq::<char>::empty() =~= core);
    assert(trim(raw) == core);
    crate::text::lemma_strip_start_before(hash, marked, CharClass::Only('#'));
    assert(color_digits(raw) == digits);
    reveal_with_fuel(text_bytes, 8);
    assert(text_bytes(digits) == 6) by {
        let a = digits.drop_first();
        let b = a.drop_first();
        let c = b.drop_first();
        let d = c.drop_first();
        let e = d.drop_first();
        assert(e.drop_first().len() == 0);
    }
    assert(digits.skip(2)[0] == digits[2] && digits.skip(2)[1] == digits[3]);
    assert(digits.skip(4)[0] == digits[4] && digits.skip(4)[1] == digits[5]);
}

/// The digit for a number below 16, with small or capital letters.
pub open spec fn hex_char(value: int, capital: bool) -> char {
    if value < 10 {
        (48 + value) as char
    } else if capital {
        (55 + value) as char
    } else {
        (87 + value) as char
    }
}

/// The digits of a colour.
pub open spec fn spelled_color(color: Rgb, capital: bool) -> Seq<char> {
    seq![
        hex_char(color.red as int / 16, capital),
        hex_char(color.red as int % 16, capital),
        hex_char(color.green as int / 16, capital),
        hex_char(color.green as int % 16, capital),
        hex_char(color.blue as int / 16, capital),
        hex_char(color.blue as int % 16, capital),
    ]
}

/// Every colour can be spelled, with small as with capital letters.
pub proof fn every_color_can_be_spelled(color: Rgb, capital: bool)
    ensures
        spells_color(spelled_color(color, capital), color),
{
}

/// Every theme that was read is represented in the catalogue by one of the same key.
pub proof fn every_theme_is_represented(list: Seq<KeyedView>, all: Seq<KeyedView>, at: int)
    requires
        is_catalog(list, all),
        0 <= at < all.len(),
    ensures
        exists|i: int| 0 <= i < list.len() && (#[trigger] list[i]).key == all[at].key,
{
    lemma_catalog_has_key(list, all, at);
}

/// A text of ASCII characters.
pub open spec fn is_ascii(text: Seq<char>) -> bool {
    forall|i: int| 0 <= i < text.len() ==> (#[trigger] text[i]) as u32 <= 0x7f
}

proof fn lemma_strip_keeps_ascii(text: Seq<char>, class: CharClass)
    requires
        is_ascii(text),
    ensures
        is_ascii(strip_start(text, class)),
        is_ascii(strip_end(text, class)),
    decreases text.len(),
{
    if text.len() > 0 {
        lemma_strip_keeps_ascii(text.drop_first(), class);
        lemma_strip_keeps_ascii(text.drop_last(), class);
    }
}

proof fn lemma_unquoted_keeps_ascii(raw: Seq<char>)
    requires
        is_ascii(raw),
    ensures
        is_ascii(trim(raw)),
        is_ascii(unquoted(raw)),
{
    let space = CharClass::Space;
    let double = CharClass::Only('"');
    let single = CharClass::Only('\'');
    lemma_strip_keeps_ascii(raw, space);
    lemma_strip_keeps_ascii(strip_start(raw, space), space);
    let a = trim(raw);
    lemma_strip_keeps_ascii(a, double);
    lemma_strip_keeps_ascii(strip_start(a, double), double);
    let b = strip(a, double);
    lemma_strip_keeps_ascii(b, single);
    lemma_strip_keeps_ascii(strip_start(b, single), single);
}

proof fn lemma_hex_marks_keep_ascii(text: Seq<char>)
    requires
        is_ascii(text),
    ensures
        is_ascii(strip_hex_marks(text)),
    decreases text.len(),
{
    if text.len() >= 2 && text[0] == '0' && text[1] == 'x' {
        lemma_hex_marks_keep_ascii(text.skip(2));
    }
}

proof fn lemma_ascii_bytes(text: Seq<char>)
    requires
        is_ascii(text),
    ensures
        text_bytes(text) == text.len(),
    decreases text.len(),
{
    if text.len() > 0 {
        assert(char_bytes(text[0]) == 1);
        lemma_ascii_bytes(text.drop_first());
    }
}

/// A colour setting in ASCII can always be read, be it as a colour or as an error.
pub proof fn ascii_colors_are_readable(raw: Seq<char>)
    requires
        is_ascii(raw),
    ensures
        !(read_color(Some(raw)) is Cut),
{
    lemma_unquoted_keeps_ascii(raw);
    lemma_strip_keeps_ascii(trim(raw), CharClass::Only('#'));
    lemma_hex_marks_keep_ascii(strip_start(trim(raw), CharClass::Only('#')));
    let digits = color_digits(raw);
    lemma_ascii_bytes(digits);
    if digits.len() == 6 {
        assert(char_bytes(digits[0]) == 1 && char_bytes(digits[1]) == 1);
        assert(char_bytes(digits.skip(2)[0]) == 1 && char_bytes(digits.skip(2)[1]) == 1);
        assert(char_bytes(digits.skip(4)[0]) == 1 && char_bytes(digits.skip(4)[1]) == 1);
    }
}

/// All values are ASCII.
spec fn has_ascii_values(settings: Settings) -> bool {
    forall|key: (Seq<char>, Seq<char>)| #[trigger]
        settings.values.contains_key(key) ==> is_ascii(settings.values[key])
}

proof fn lemma_split_keeps_ascii(text: Seq<char>, sep: char)
    requires
        is_ascii(text),
    ensures
        forall|i: int| 0 <= i < split(text, sep).len() ==> is_ascii(#[trigger] split(text, sep)[i]),
    decreases text.len(),
{
    let n = prefix_len(text, sep) as int;
    if n < text.len() {
        let rest = text.skip(n + 1);
        lemma_split_keeps_ascii(rest, sep);
        assert forall|i: int| 0 <= i < split(text, sep).len() implies is_ascii(
            #[trigger] split(text, sep)[i],
        ) by {
            if i > 0 {
                assert(split(text, sep)[i] == split(rest, sep)[i - 1]);
            }
        }
    }
}

proof fn lemma_lines_keep_ascii(lines: Seq<Seq<char>>)
    requires
        forall|i: int| 0 <= i < lines.len() ==> is_ascii(#[trigger] lines[i]),
    ensures
        has_ascii_values(read_lines(lines)),
    decreases lines.len(),
{
    if lines.len() > 0 {
        let fewer = lines.drop_last();
        assert forall|i: int| 0 <= i < fewer.len() implies is_ascii(#[trigger] fewer[i]) by {
            assert(fewer[i] == lines[i]);
        }
        lemma_lines_keep_ascii(fewer);
        lemma_unquoted_keeps_ascii(lines.last());
        let line = trim(lines.last());
        let n = prefix_len(line, '=') as int;
        if n < line.len() {
            lemma_unquoted_keeps_ascii(line.skip(n + 1));
        }
    }
}

/// A theme file in ASCII can always be read, be it as a theme or as an error.
pub proof fn ascii_themes_are_readable(file: Seq<char>, name: Option<Seq<char>>)
    requires
        is_ascii(file),
    ensures
        !(read_theme(file, name) is Cut),
{
    lemma_split_keeps_ascii(file, '\n');
    lemma_lines_keep_ascii(split(file, '\n'));
    let settings = settings_of(file);
    let primary = "colors.primary"@;
    lemma_setting_is_readable(settings, setting(settings, primary, "background"@));
    lemma_setting_is_readable(settings, setting(settings, primary, "foreground"@));
    lemma_setting_is_readable(settings, accent_setting(settings));
    lemma_setting_is_readable(settings, secondary_setting(settings));
}

proof fn lemma_setting_is_readable(settings: Settings, value: Option<Seq<char>>)
    requires
        has_ascii_values(settings),
        value matches Some(text) ==> exists|key: (Seq<char>, Seq<char>)| #[trigger]
            settings.values.contains_key(key) && settings.values[key] == text,
    ensures
        !(read_color(value) is Cut),
{
    if let Some(text) = value {
        ascii_colors_are_readable(text);
    }
}

/// Every colour setting is the value that its own key has in its own section, and is missing just
/// where that key has none there.
pub proof fn settings_come_from_their_sections(colors: ThemeColors, settings: Settings)
    requires
        colors.are_of(settings),
    ensures
        ({
            let values = settings.values;
            let background = ("colors.primary"@, "background"@);
            let foreground = ("colors.primary"@, "foreground"@);
            let green = ("colors.normal"@, "green"@);
            let blue = ("colors.normal"@, "blue"@);
            let cyan = ("colors.normal"@, "cyan"@);
            let yellow = ("colors.normal"@, "yellow"@);
            let magenta = ("colors.normal"@, "magenta"@);
            let white = ("colors.normal"@, "white"@);
            &&& colors.background is Some <==> values.contains_key(background)
            &&& colors.background is Some ==> colors.background->0@ == values[background]
            &&& colors.foreground is Some <==> values.contains_key(foreground)
            &&& colors.foreground is Some ==> colors.foreground->0@ == values[foreground]
            &&& colors.green is Some <==> values.contains_key(green)
            &&& colors.green is Some ==> colors.green->0@ == values[green]
            &&& colors.blue is Some <==> values.contains_key(blue)
            &&& colors.blue is Some ==> colors.blue->0@ == values[blue]
            &&& colors.cyan is Some <==> values.contains_key(cyan)
            &&& colors.cyan is Some ==> colors.cyan->0@ == values[cyan]
            &&& colors.yellow is Some <==> values.contains_key(yellow)
            &&& colors.yellow is Some ==> colors.yellow->0@ == values[yellow]
            &&& colors.magenta is Some <==> values.contains_key(magenta)
            &&& colors.magenta is Some ==> colors.magenta->0@ == values[magenta]
            &&& colors.white is Some <==> values.contains_key(white)
            &&& colors.white is Some ==> colors.white->0@ == values[white]
        }),
{
}

/// Two files that give the same values to the keys of the sections `colors.primary` and
/// `colors.normal` say the same, whatever else they hold: no setting of another section ever
/// changes the theme that is read.
pub proof fn other_sections_change_nothing(a: Seq<char>, b: Seq<char>, name: Option<Seq<char>>)
    requires
        forall|section: Seq<char>, key: Seq<char>|
            (section == "colors.primary"@ || section == "colors.normal"@) ==> {
                &&& (#[trigger] settings_of(a).values.contains_key((section, key))
                    <==> settings_of(b).values.contains_key((section, key)))
                &&& settings_of(a).values.contains_key((section, key)) ==> settings_of(
                    a,
                ).values[(section, key)] == settings_of(b).values[(section, key)]
            },
    ensures
        read_theme(a, name) == read_theme(b, name),
{
    lemma_same_setting(settings_of(a), settings_of(b), "colors.primary"@, "background"@);
    lemma_same_setting(settings_of(a), settings_of(b), "colors.primary"@, "foreground"@);
    lemma_same_setting(settings_of(a), settings_of(b), "colors.normal"@, "green"@);
    lemma_same_setting(settings_of(a), settings_of(b), "colors.normal"@, "blue"@);
    lemma_same_setting(settings_of(a), settings_of(b), "colors.normal"@, "cyan"@);
    lemma_same_setting(settings_of(a), settings_of(b), "colors.normal"@, "yellow"@);
    lemma_same_setting(settings_of(a), settings_of(b), "colors.normal"@, "magenta"@);
    lemma_same_setting(settings_of(a), settings_of(b), "colors.normal"@, "white"@);
}

proof fn lemma_same_setting(a: Settings, b: Settings, section: Seq<char>, key: Seq<char>)
    requires
        a.values.contains_key((section, key)) <==> b.values.contains_key((section, key)),
        a.values.contains_key((section, key)) ==> a.values[(section, key)] == b.values[(
            section,
            key,
        )],
    ensures
        setting(a, section, key) == setting(b, section, key),
{
}

/// A theme that is read has the name of its file, the background and the foreground of
/// `colors.primary`, and of `colors.normal` the green as its accent, or the blue where there is no
/// green, or the cyan where there is no blue either; and likewise the yellow, magenta or white as
/// its secondary colour.
pub proof fn themes_have_the_colors_of_their_file(file: Seq<char>, name: Option<Seq<char>>)
    ensures
        read_theme(file, name) matches ThemeReading::Theme(theme) ==> {
            let values = settings_of(file).values;
            let background = ("colors.primary"@, "background"@);
            let foreground = ("colors.primary"@, "foreground"@);
            let green = ("colors.normal"@, "green"@);
            let blue = ("colors.normal"@, "blue"@);
            let cyan = ("colors.normal"@, "cyan"@);
            let yellow = ("colors.normal"@, "yellow"@);
            let magenta = ("colors.normal"@, "magenta"@);
            let white = ("colors.normal"@, "white"@);
            &&& name == Some(theme.name)
            &&& values.contains_key(background) && read_color(Some(values[background]))
                == ColorReading::Color(theme.background)
            &&& values.contains_key(foreground) && read_color(Some(values[foreground]))
                == ColorReading::Color(theme.foreground)
            &&& values.contains_key(green) ==> read_color(Some(values[green]))
                == ColorReading::Color(theme.accent)
            &&& !values.contains_key(green) && values.contains_key(blue) ==> read_color(
                Some(values[blue]),
            ) == ColorReading::Color(theme.accent)
            &&& !values.contains_key(green) && !values.contains_key(blue) ==> values.contains_key(
                cyan,
            ) && read_color(Some(values[cyan])) == ColorReading::Color(theme.accent)
            &&& values.contains_key(yellow) ==> read_color(Some(values[yellow]))
                == ColorReading::Color(theme.secondary)
            &&& !values.contains_key(yellow) && values.contains_key(magenta) ==> read_color(
                Some(values[magenta]),
            ) == ColorReading::Color(theme.secondary)
            &&& !values.contains_key(yellow) && !values.contains_key(magenta)
                ==> values.contains_key(white) && read_color(Some(values[white]))
                == ColorReading::Color(theme.secondary)
        },
{
}

/// A file with a name and with four settings that read as colours, the background and the
/// foreground of `colors.primary` and a choice of accent and secondary colour of `colors.normal`,
/// is read as a theme with these colours, whatever else it holds.
pub proof fn files_with_four_colors_are_themes(
    file: Seq<char>,
    name: Seq<char>,
    accent: Seq<char>,
    secondary: Seq<char>,
    theme: ThemeView,
)
    requires
        theme.name == name,
        accent == "green"@ || (accent == "blue"@ || accent == "cyan"@ && !settings_of(
            file,
        ).values.contains_key(("colors.normal"@, "blue"@))) && !settings_of(
            file,
        ).values.contains_key(("colors.normal"@, "green"@)),
        secondary == "yellow"@ || (secondary == "magenta"@ || secondary == "white"@ && !settings_of(
            file,
        ).values.contains_key(("colors.normal"@, "magenta"@))) && !settings_of(
            file,
        ).values.contains_key(("colors.normal"@, "yellow"@)),
        settings_of(file).values.contains_key(("colors.primary"@, "background"@)),
        settings_of(file).values.contains_key(("colors.primary"@, "foreground"@)),
        settings_of(file).values.contains_key(("colors.normal"@, accent)),
        settings_of(file).values.contains_key(("colors.normal"@, secondary)),
        read_color(Some(settings_of(file).values[("colors.primary"@, "background"@)]))
            == ColorReading::Color(theme.background),
        read_color(Some(settings_of(file).values[("colors.primary"@, "foreground"@)]))
            == ColorReading::Color(theme.foreground),
        read_color(Some(settings_of(file).values[("colors.normal"@, accent)]))
            == ColorReading::Color(theme.accent),
        read_color(Some(settings_of(file).values[("colors.normal"@, secondary)]))
            == ColorReading::Color(theme.secondary),
    ensures
        read_theme(file, Some(name)) == ThemeReading::Theme(theme),
{
}

/// A file is at fault where a colour is missing or wrong: the background before the foreground,
/// that before the accent, that before the secondary colour, and the name last of all.
pub proof fn files_without_their_colors_are_at_fault(file: Seq<char>, name: Option<Seq<char>>)
    ensures
        ({
            let values = settings_of(file).values;
            let background = ("colors.primary"@, "background"@);
            let foreground = ("colors.primary"@, "foreground"@);
            let green = ("colors.normal"@, "green"@);
            let blue = ("colors.normal"@, "blue"@);
            let cyan = ("colors.normal"@, "cyan"@);
            let yellow = ("colors.normal"@, "yellow"@);
            let magenta = ("colors.normal"@, "magenta"@);
            let white = ("colors.normal"@, "white"@);
            let reads_background = values.contains_key(background) && read_color(
                Some(values[background]),
            ) is Color;
            let reads_foreground = values.contains_key(foreground) && read_color(
                Some(values[foreground]),
            ) is Color;
            let missing = ThemeReading::Fault(Fault::MissingColor);
            &&& !values.contains_key(background) ==> read_theme(file, name) == missing
            &&& reads_background && !values.contains_key(foreground) ==> read_theme(file, name)
                == missing
            &&& reads_background && reads_foreground && !values.contains_key(green)
                && !values.contains_key(blue) && !values.contains_key(cyan) ==> read_theme(
                file,
                name,
            ) == missing
            &&& values.contains_key(background) && read_color(Some(values[background])) is Fault
                ==> read_theme(file, name) == ThemeReading::Fault(
                read_color(Some(values[background]))->Fault_0,
            )
            &&& reads_background && values.contains_key(foreground) && read_color(
                Some(values[foreground]),
            ) is Fault ==> read_theme(file, name) == ThemeReading::Fault(
                read_color(Some(values[foreground]))->Fault_0,
            )
            &&& reads_background && reads_foreground && values.contains_key(green) && read_color(
                Some(values[green]),
            ) is Fault ==> read_theme(file, name) == ThemeReading::Fault(
                read_color(Some(values[green]))->Fault_0,
            )
            &&& reads_background && reads_foreground && values.contains_key(green) && read_color(
                Some(values[green]),
            ) is Color && !values.contains_key(yellow) && !values.contains_key(magenta)
                && !values.contains_key(white) ==> read_theme(file, name) == missing
            &&& name is None ==> !(read_theme(file, name) is Theme)
        }),
{
}

/// A heading opens the section that stands between its brackets, however many there are, and changes
/// no value.
pub proof fn headings_open_their_section(
    before: Settings,
    space: Seq<char>,
    opening: nat,
    name: Seq<char>,
    closing: nat,
    behind: Seq<char>,
)
    requires
        is_blank(space),
        is_blank(behind),
        opening > 0,
        closing > 0,
        name.len() > 0 ==> name[0] != '[' && name.last() != ']',
    ensures
        read_line(
            before,
            space + (Seq::new(opening, |i: int| '[') + name + Seq::new(closing, |i: int| ']'))
                + behind,
        ) == (Settings { section: name, values: before.values }),
{
    let open = Seq::new(opening, |i: int| '[');
    let close = Seq::new(closing, |i: int| ']');
    let heading = open + name + close;
    assert(heading[0] == '[' && heading.last() == ']');
    crate::text::trimming_leaves_the_text(space, heading, behind);
    let left = CharClass::Only('[');
    let right = CharClass::Only(']');
    crate::text::lemma_strip_start_before(open, name + close, left);
    assert(open + (name + close) =~= heading);
    crate::text::lemma_strip_end_after(name, close, right);
}

/// A setting is read whatever white space is before and behind its key, and sets that key of the
/// section that is open to what stands behind the equals sign, and no other key.
pub proof fn settings_are_read_with_space_around(
    before: Settings,
    space: Seq<char>,
    key: Seq<char>,
    behind: Seq<char>,
    value: Seq<char>,
)
    requires
        is_blank(space),
        is_blank(behind),
        key.len() > 0,
        !is_space(key[0]),
        !is_space(key.last()),
        !key.contains('='),
        key[0] != '#',
        key[0] != '[',
    ensures
        ({
            let after = read_line(before, space + key + behind + seq!['='] + value);
            &&& after.section == before.section
            &&& after.values == before.values.insert((before.section, key), unquoted(value))
        }),
{
    let line = space + key + behind + seq!['='] + value;
    let class = CharClass::Space;
    let name = key + behind;
    let head = name + seq!['='];
    let short = strip_end(value, class);
    assert(line =~= space + (head + value));
    assert((head + value)[0] == key[0]);
    crate::text::lemma_strip_start_before(space, head + value, class);
    assert(head.last() == '=');
    crate::text::lemma_strip_end_behind(head, value, class);
    assert(trim(line) == head + short);
    assert forall|i: int| 0 <= i < name.len() implies name[i] != '=' by {
        if i < key.len() {
            assert(key.contains(key[i]));
        } else {
            assert(is_space(behind[i - key.len()]));
        }
    }
    crate::text::cutting_undoes_joining(name, '=', short);
    assert(Seq::<char>::empty() + key + behind =~= name);
    crate::text::trimming_leaves_the_text(Seq::empty(), key, behind);
    crate::text::trim_ignores_space_at_the_end(value);
    assert((head + short)[0] == key[0]);
}

/// A value is read without the white space around it, then without the double quotes around that,
/// and then without the single ones, however many there are on either side. What is inside the quotes
/// stays as it is.
pub proof fn quotes_are_taken_off(
    before: Seq<char>,
    doubles: (nat, nat),
    singles: (nat, nat),
    value: Seq<char>,
    behind: Seq<char>,
)
    requires
        is_blank(before),
        is_blank(behind),
        value.len() > 0 ==> {
            &&& value[0] != '"' && value[0] != '\''
            &&& value.last() != '"' && value.last() != '\''
            &&& doubles.0 + singles.0 > 0 || !is_space(value[0])
            &&& doubles.1 + singles.1 > 0 || !is_space(value.last())
        },
    ensures
        unquoted(
            before + (Seq::new(doubles.0, |i: int| '"') + (Seq::new(singles.0, |i: int| '\'')
                + value + Seq::new(singles.1, |i: int| '\'')) + Seq::new(
                doubles.1,
                |i: int| '"',
            )) + behind,
        ) == value,
{
    let d0 = Seq::new(doubles.0, |i: int| '"');
    let d1 = Seq::new(doubles.1, |i: int| '"');
    let s0 = Seq::new(singles.0, |i: int| '\'');
    let s1 = Seq::new(singles.1, |i: int| '\'');
    let inner = s0 + value + s1;
    let core = d0 + inner + d1;
    if value.len() > 0 {
        assert(inner[0] == '\'' || inner[0] == value[0]);
        assert(inner.last() == '\'' || inner.last() == value.last());
        assert(core[0] == '"' || core[0] == inner[0]);
        assert(core.last() == '"' || core.last() == inner.last());
    }
    crate::text::trimming_leaves_the_text(before, core, behind);
    crate::text::stripping_leaves_the_text(d0, inner, d1, CharClass::Only('"'));
    crate::text::stripping_leaves_the_text(s0, value, s1, CharClass::Only('\''));
}

/// A line that is no heading and has no equals sign changes nothing.
pub proof fn other_lines_change_nothing(before: Settings, line: Seq<char>)
    requires
        !line.contains('='),
        trim(line).len() == 0 || trim(line)[0] != '[' || trim(line).last() != ']',
    ensures
        read_line(before, line) == before,
{
    lemma_trim_is_a_part(line);
    let (head, tail) = choose|head: Seq<char>, tail: Seq<char>|
        #[trigger] (head + trim(line) + tail) == line;
    assert forall|i: int| 0 <= i < trim(line).len() implies trim(line)[i] != '=' by {
        assert(line[head.len() + i] == trim(line)[i]);
        assert(line.contains(line[head.len() + i]));
    }
    crate::text::cutting_undoes_joining(trim(line), '=', Seq::empty());
}

proof fn lemma_trim_is_a_part(text: Seq<char>)
    ensures
        exists|head: Seq<char>, tail: Seq<char>| #[trigger] (head + trim(text) + tail) == text,
{
    let space = CharClass::Space;
    let rest = strip_start(text, space);
    lemma_strip_start_is_the_end(text, space);
    lemma_strip_end_is_the_start(rest, space);
    let head = text.take(text.len() - rest.len());
    let tail = rest.skip(trim(text).len() as int);
    assert(head + trim(text) + tail =~= text);
}

proof fn lemma_strip_start_is_the_end(text: Seq<char>, class: CharClass)
    ensures
        strip_start(text, class).len() <= text.len(),
        strip_start(text, class) == text.skip(text.len() - strip_start(text, class).len()),
    decreases text.len(),
{
    if text.len() > 0 && class.contains(text[0]) {
        let rest = text.drop_first();
        let found = strip_start(rest, class);
        lemma_strip_start_is_the_end(rest, class);
        assert(rest.skip(rest.len() - found.len()) =~= text.skip(text.len() - found.len()));
    } else {
        assert(text.skip(0) =~= text);
    }
}

proof fn lemma_strip_end_is_the_start(text: Seq<char>, class: CharClass)
    ensures
        strip_end(text, class).len() <= text.len(),
        strip_end(text, class) == text.take(strip_end(text, class).len() as int),
    decreases text.len(),
{
    if text.len() > 0 && class.contains(text.last()) {
        let rest = text.drop_last();
        let found = strip_end(rest, class);
        lemma_strip_end_is_the_start(rest, class);
        assert(rest.take(found.len() as int) =~= text.take(found.len() as int));
    } else {
        assert(text.take(text.len() as int) =~= text);
    }
}

/// A file is read line by line: what one more line says goes by what has been read before it. The
/// first line is read with no section open and no key set.
pub proof fn files_are_read_line_by_line(file: Seq<char>, line: Seq<char>)
    requires
        !line.contains('\n'),
    ensures
        settings_of(file + seq!['\n'] + line) == read_line(settings_of(file), line),
        settings_of(line) == read_line(
            Settings { section: Seq::empty(), values: Map::empty() },
            line,
        ),
{
    crate::text::splitting_goes_text_by_text(file, '\n', line);
    crate::text::splitting_undoes_joining(line, '\n', Seq::empty());
    let lines = split(file, '\n') + seq![line];
    assert(lines.drop_last() =~= split(file, '\n'));
    reveal_with_fuel(read_lines, 2);
    assert(seq![line].drop_last() =~= Seq::<Seq<char>>::empty());
}

/// The name of a file is what stands before its last dot, and its extension what stands behind it;
/// a name without dots is all there is.
pub proof fn file_names_are_taken_apart(base: Seq<char>, ending: Seq<char>)
    requires
        base.len() > 0,
        !ending.contains('.'),
    ensures
        stem(base + seq!['.'] + ending) == base,
        extension(base + seq!['.'] + ending) == Some(ending),
        stem(ending) == ending,
        extension(ending) is None,
        stem(seq!['.'] + ending) == seq!['.'] + ending,
        extension(seq!['.'] + ending) is None,
        stem_of(Some(base + seq!['.'] + ending)) == Some(base),
        stem_of(None) is None,
{
    let name = base + seq!['.'] + ending;
    lemma_last_dot(base + seq!['.'], ending);
    assert(name =~= (base + seq!['.']) + ending);
    assert(name.take(base.len() as int) =~= base);
    assert(name.skip(base.len() as int + 1) =~= ending);
    lemma_last_dot(Seq::empty(), ending);
    assert(Seq::<char>::empty() + ending =~= ending);
    lemma_last_dot(seq!['.'], ending);
}

proof fn lemma_last_dot(head: Seq<char>, tail: Seq<char>)
    requires
        head.len() == 0 || head.last() == '.',
        !tail.contains('.'),
    ensures
        behind_last_dot(head + tail) == head.len(),
    decreases tail.len(),
{
    let whole = head + tail;
    if tail.len() > 0 {
        assert(whole.last() == tail.last());
        assert(tail.contains(tail.last()));
        let rest = tail.drop_last();
        assert forall|i: int| 0 <= i < rest.len() implies rest[i] != '.' by {
            assert(tail.contains(tail[i]));
        }
        assert(whole.drop_last() =~= head + rest);
        lemma_last_dot(head, rest);
    } else {
        assert(whole =~= head);
    }
}

/// A file is read as a theme if its name ends in `.toml` behind something else, and if neither
/// `backup` nor `.bak` is anywhere in it.
pub proof fn theme_files_are_told_by_their_names(base: Seq<char>, ending: Seq<char>)
    requires
        base.len() > 0,
        !ending.contains('.'),
    ensures
        ({
            let name = base + seq!['.'] + ending;
            &&& names_theme(name) ==> ending == "toml"@
            &&& ending == "toml"@ && !names_theme(name) ==> exists|head: Seq<char>, tail: Seq<char>|
                (#[trigger] (head + "backup"@ + tail)) == name || (head + ".bak"@ + tail) == name
            &&& !names_theme(ending)
        }),
        forall|head: Seq<char>, tail: Seq<char>|
            !names_theme(#[trigger] (head + "backup"@ + tail)),
        forall|head: Seq<char>, tail: Seq<char>| !names_theme(#[trigger] (head + ".bak"@ + tail)),
{
    let name = base + seq!['.'] + ending;
    file_names_are_taken_apart(base, ending);
    crate::text::texts_hold_their_parts(base, "backup"@, base);
    crate::text::texts_hold_their_parts(base, ".bak"@, base);
    if ending == "toml"@ && !names_theme(name) {
        if holds(name, "backup"@) {
            let (head, tail) = choose|head: Seq<char>, tail: Seq<char>|
                #[trigger] (head + "backup"@ + tail) == name;
            assert(head + "backup"@ + tail == name);
        } else {
            assert(holds(name, ".bak"@));
            let (head, tail) = choose|head: Seq<char>, tail: Seq<char>|
                #[trigger] (head + ".bak"@ + tail) == name;
            assert((head + "backup"@ + tail) == (head + "backup"@ + tail));
            assert((head + ".bak"@ + tail) == name);
        }
    }
    assert forall|head: Seq<char>, tail: Seq<char>| !names_theme(
        #[trigger] (head + "backup"@ + tail),
    ) by {
        crate::text::texts_hold_their_parts(head, "backup"@, tail);
    }
    assert forall|head: Seq<char>, tail: Seq<char>| !names_theme(
        #[trigger] (head + ".bak"@ + tail),
    ) by {
        crate::text::texts_hold_their_parts(head, ".bak"@, tail);
    }
}

/// The themes of two runs of files stand behind each other in the files' order; a file that is read
/// as a theme gives just that one, and any other gives none.
pub proof fn themes_come_in_the_order_of_files(
    first: Seq<ThemeFile>,
    file: ThemeFile,
    second: Seq<ThemeFile>,
)
    ensures
        themes_in(first + second) == themes_in(first) + themes_in(second),
        read_theme(file.text@, stem_of(optional_string(file.name))) is Theme ==> themes_in(
            seq![file],
        ) == seq![read_theme(file.text@, stem_of(optional_string(file.name)))->Theme_0],
        !(read_theme(file.text@, stem_of(optional_string(file.name))) is Theme) ==> themes_in(
            seq![file],
        ).len() == 0,
    decreases second.len(),
{
    if second.len() == 0 {
        assert(first + second =~= first);
        assert(themes_in(first) + themes_in(second) =~= themes_in(first));
    } else {
        assert((first + second).drop_last() =~= first + second.drop_last());
        themes_come_in_the_order_of_files(first, file, second.drop_last());
        assert(themes_in(first + second) =~= themes_in(first) + themes_in(second));
    }
    reveal_with_fuel(themes_in, 2);
    assert(seq![file].drop_last() =~= Seq::<ThemeFile>::empty());
    assert(file.reading() is Theme ==> themes_in(seq![file]) =~= seq![file.reading()->Theme_0]);
}

/// No theme before the one at `at` has the same name in lower case.
pub open spec fn is_first_of_name(all: Seq<ThemeView>, at: int) -> bool {
    0 <= at < all.len() && forall|k: int|
        0 <= k < at ==> lowercase((#[trigger] all[k]).name) != lowercase(all[at].name)
}

/// A theme was read, and none of the same name in lower case before it.
pub open spec fn was_read_first(theme: ThemeView, all: Seq<ThemeView>) -> bool {
    exists|at: int| #[trigger] is_first_of_name(all, at) && all[at] == theme
}

/// The catalogue lists themes in the order of their names in lower case, no such name twice, and
/// for every name the theme that was read first.
pub proof fn the_catalog_lists_every_name_once(list: Seq<ThemeView>, all: Seq<ThemeView>)
    requires
        is_catalog(keyed(list), keyed(all)),
    ensures
        forall|i: int, j: int|
            0 <= i < j < list.len() ==> comes_before(
                lowercase((#[trigger] list[i]).name),
                lowercase((#[trigger] list[j]).name),
            ),
        forall|at: int| #[trigger] is_first_of_name(all, at) ==> list.contains(all[at]),
        forall|i: int|
            0 <= i < list.len() ==> was_read_first(#[trigger] list[i], all),
{
    assert forall|i: int, j: int| 0 <= i < j < list.len() implies comes_before(
        lowercase((#[trigger] list[i]).name),
        lowercase((#[trigger] list[j]).name),
    ) by {
        assert(comes_before(keyed(list)[i].key, keyed(list)[j].key));
    }
    assert forall|at: int| #[trigger] is_first_of_name(all, at) implies list.contains(all[at]) by {
        assert forall|k: int| 0 <= k < at implies (#[trigger] keyed(all)[k]).key != keyed(
            all,
        )[at].key by {
            assert(lowercase(all[k].name) != lowercase(all[at].name));
        }
        assert(is_first_of_key(keyed(all), at));
        assert(keyed(list).contains(keyed(all)[at]));
        let i = choose|i: int| 0 <= i < keyed(list).len() && keyed(list)[i] == keyed(all)[at];
        assert(list[i] == all[at]);
    }
    assert forall|i: int| 0 <= i < list.len() implies was_read_first(#[trigger] list[i], all) by {
        assert(leads_key(keyed(list)[i], keyed(all)));
        let at = choose|at: int| #[trigger]
            is_first_of_key(keyed(all), at) && keyed(all)[at] == keyed(list)[i];
        assert forall|k: int| 0 <= k < at implies lowercase((#[trigger] all[k]).name) != lowercase(
            all[at].name,
        ) by {
            assert(keyed(all)[k].key != keyed(all)[at].key);
        }
        assert(is_first_of_name(all, at) && all[at] == list[i]);
    }
}

/// A line that gives a value to a key, as theme files have it.
pub open spec fn setting_line(key: Seq<char>, value: Seq<char>) -> Seq<char> {
    key + seq![' '] + seq!['='] + (seq![' '] + (seq!['"'] + value + seq!['"']))
}

/// A line that opens a section.
pub open spec fn heading_line(name: Seq<char>) -> Seq<char> {
    seq!['['] + name + seq![']']
}

/// A theme file with a section of two settings and another of two.
pub open spec fn theme_text(
    background: Seq<char>,
    foreground: Seq<char>,
    green: Seq<char>,
    yellow: Seq<char>,
) -> Seq<char> {
    heading_line("colors.primary"@) + seq!['\n'] + setting_line("background"@, background)
        + seq!['\n'] + setting_line("foreground"@, foreground) + seq!['\n'] + heading_line(
        "colors.normal"@,
    ) + seq!['\n'] + setting_line("green"@, green) + seq!['\n'] + setting_line(
        "yellow"@,
        yellow,
    )
}

proof fn lemma_setting_line(before: Settings, key: Seq<char>, digits: Seq<char>, color: Rgb)
    requires
        key.len() > 0,
        forall|i: int| 0 <= i < key.len() ==> 'a' <= #[trigger] key[i] <= 'z',
        spells_color(digits, color),
    ensures
        !setting_line(key, seq!['#'] + digits).contains('\n'),
        read_line(before, setting_line(key, seq!['#'] + digits)) == (Settings {
            section: before.section,
            values: before.values.insert((before.section, key), seq!['#'] + digits),
        }),
        read_color(Some(seq!['#'] + digits)) == ColorReading::Color(color),
{
    let value = seq!['#'] + digits;
    let raw = seq![' '] + (seq!['"'] + value + seq!['"']);
    let line = setting_line(key, value);
    lemma_hex_digit(digits[0]);
    lemma_hex_digit(digits[1]);
    lemma_hex_digit(digits[2]);
    lemma_hex_digit(digits[3]);
    lemma_hex_digit(digits[4]);
    lemma_hex_digit(digits[5]);
    assert(value.last() == digits[5]);
    let none = Seq::<char>::empty();
    assert forall|i: int| 0 <= i < line.len() implies line[i] != '\n' by {
        if i < key.len() {
            assert(line[i] == key[i]);
        } else if i >= key.len() + 5 && i < line.len() - 1 {
            assert(line[i] == digits[i - key.len() - 5]);
        }
    }
    assert(!key.contains('='));
    settings_are_read_with_space_around(before, none, key, seq![' '], raw);
    assert(none + key + seq![' '] + seq!['='] + raw =~= line);
    quotes_are_taken_off(seq![' '], (1, 1), (0, 0), value, none);
    let quote = Seq::new(1, |i: int| '"');
    let without = Seq::new(0, |i: int| '\'');
    assert(seq![' '] + (quote + (without + value + without) + quote) + none =~= raw);
    colors_are_read_back(color, none, 1, 0, digits, none);
    let hash = Seq::new(1, |i: int| '#');
    assert(none + hash + hex_marks(0) + digits + none =~= value);
}

proof fn lemma_heading_line(before: Settings, name: Seq<char>)
    requires
        name.len() > 0,
        forall|i: int| 0 <= i < name.len() ==> 'a' <= #[trigger] name[i] <= 'z' || name[i] == '.',
    ensures
        !heading_line(name).contains('\n'),
        read_line(before, heading_line(name)) == (Settings {
            section: name,
            values: before.values,
        }),
{
    let none = Seq::<char>::empty();
    let line = heading_line(name);
    assert forall|i: int| 0 <= i < line.len() implies line[i] != '\n' by {
        if 0 < i < line.len() - 1 {
            assert(line[i] == name[i - 1]);
        }
    }
    headings_open_their_section(before, none, 1, name, 1, none);
    let open = Seq::new(1, |i: int| '[');
    let close = Seq::new(1, |i: int| ']');
    assert(none + (open + name + close) + none =~= line);
}

/// A theme is read back from the file that it is written to: its four colours, each in six digits
/// behind a `#` and in quotes, under their keys and headings, and its name.
pub proof fn themes_are_read_back(
    theme: ThemeView,
    background: Seq<char>,
    foreground: Seq<char>,
    green: Seq<char>,
    yellow: Seq<char>,
)
    requires
        spells_color(background, theme.background),
        spells_color(foreground, theme.foreground),
        spells_color(green, theme.accent),
        spells_color(yellow, theme.secondary),
    ensures
        read_theme(
            theme_text(
                seq!['#'] + background,
                seq!['#'] + foreground,
                seq!['#'] + green,
                seq!['#'] + yellow,
            ),
            Some(theme.name),
        ) == ThemeReading::Theme(theme),
{
    reveal_strlit("colors.primary");
    reveal_strlit("colors.normal");
    reveal_strlit("background");
    reveal_strlit("foreground");
    reveal_strlit("green");
    reveal_strlit("yellow");
    let hash = seq!['#'];
    let primary = "colors.primary"@;
    let normal = "colors.normal"@;
    let end = seq!['\n'];
    let nothing = Settings { section: Seq::empty(), values: Map::empty() };
    let l1 = heading_line(primary);
    let l2 = setting_line("background"@, hash + background);
    let l3 = setting_line("foreground"@, hash + foreground);
    let l4 = heading_line(normal);
    let l5 = setting_line("green"@, hash + green);
    let l6 = setting_line("yellow"@, hash + yellow);
    let f1 = l1;
    let f2 = f1 + end + l2;
    let f3 = f2 + end + l3;
    let f4 = f3 + end + l4;
    let f5 = f4 + end + l5;
    let f6 = f5 + end + l6;
    lemma_heading_line(nothing, primary);
    files_are_read_line_by_line(Seq::empty(), l1);
    lemma_setting_line(settings_of(f1), "background"@, background, theme.background);
    files_are_read_line_by_line(f1, l2);
    lemma_setting_line(settings_of(f2), "foreground"@, foreground, theme.foreground);
    files_are_read_line_by_line(f2, l3);
    lemma_heading_line(settings_of(f3), normal);
    files_are_read_line_by_line(f3, l4);
    lemma_setting_line(settings_of(f4), "green"@, green, theme.accent);
    files_are_read_line_by_line(f4, l5);
    lemma_setting_line(settings_of(f5), "yellow"@, yellow, theme.secondary);
    files_are_read_line_by_line(f5, l6);
    assert(primary.len() == 14 && normal.len() == 13);
    assert("background"@[0] == 'b' && "foreground"@[0] == 'f');
    assert("green"@.len() == 5 && "yellow"@.len() == 6);
    files_with_four_colors_are_themes(f6, theme.name, "green"@, "yellow"@, theme);
}

/// What is no colour is refused: nothing at all as missing, a text that is not six characters, as
/// far as it is plain and without its marks, as unsupported, and six characters with one that is no
/// hexadecimal digit, nor a plus sign in the first place of a part, as not being digits.
pub proof fn what_is_no_color_is_refused(before: Seq<char>, text: Seq<char>, behind: Seq<char>)
    requires
        is_blank(before),
        is_blank(behind),
        is_ascii(text),
        text.len() > 0,
        !is_space(text[0]),
        !is_space(text.last()),
        text[0] != '#',
        !(text.len() >= 2 && text[0] == '0' && text[1] == 'x'),
    ensures
        read_color(None) == ColorReading::Fault(Fault::MissingColor),
        text.len() != 6 ==> read_color(Some(before + text + behind)) == ColorReading::Fault(
            Fault::UnsupportedColor(before + text + behind),
        ),
        text.len() == 6 && (exists|i: int|
            0 <= i < 6 && !('0' <= #[trigger] text[i] <= '9') && !('a' <= text[i] <= 'f') && !('A'
                <= text[i] <= 'F') && !(text[i] == '+' && i % 2 == 0)) ==> read_color(
            Some(before + text + behind),
        ) == ColorReading::Fault(Fault::InvalidDigit),
{
    crate::text::trimming_leaves_the_text(before, text, behind);
    lemma_ascii_bytes(text);
    let raw = before + text + behind;
    assert(strip_start(text, CharClass::Only('#')) == text);
    assert(color_digits(raw) == text);
    if text.len() == 6 {
        assert(char_bytes(text[0]) == 1 && char_bytes(text[1]) == 1);
        assert(char_bytes(text.skip(2)[0]) == 1 && char_bytes(text.skip(2)[1]) == 1);
        assert(char_bytes(text.skip(4)[0]) == 1 && char_bytes(text.skip(4)[1]) == 1);
        if exists|i: int|
            0 <= i < 6 && !('0' <= #[trigger] text[i] <= '9') && !('a' <= text[i] <= 'f') && !('A'
                <= text[i] <= 'F') && !(text[i] == '+' && i % 2 == 0) {
            let i = choose|i: int|
                0 <= i < 6 && !('0' <= #[trigger] text[i] <= '9') && !('a' <= text[i] <= 'f')
                    && !('A' <= text[i] <= 'F') && !(text[i] == '+' && i % 2 == 0);
            assert(hex_value(text[i]) is None);
            assert(text.skip(2)[0] == text[2] && text.skip(2)[1] == text[3]);
            assert(text.skip(4)[0] == text[4] && text.skip(4)[1] == text[5]);
            assert(i == 0 || i == 1 || i == 2 || i == 3 || i == 4 || i == 5);
        }
    }
}

/// Themes as mathematical values have every field as it is, one by one and in lists, and texts that
/// may be missing are the texts they are.
pub proof fn themes_are_seen_as_they_are(
    themes: Seq<Theme>,
    keyed_themes: Seq<KeyedTheme>,
    i: int,
    string: Option<String>,
    text: Option<&str>,
)
    ensures
        theme_views(themes).len() == themes.len(),
        0 <= i < themes.len() ==> {
            let seen = theme_views(themes)[i];
            &&& seen.name == themes[i].name@
            &&& seen.background == themes[i].background
            &&& seen.foreground == themes[i].foreground
            &&& seen.accent == themes[i].accent
            &&& seen.secondary == themes[i].secondary
            &&& themes[i]@ == seen
        },
        keyed_views(keyed_themes).len() == keyed_themes.len(),
        0 <= i < keyed_themes.len() ==> {
            let seen = keyed_views(keyed_themes)[i];
            &&& seen.key == keyed_themes[i].key@
            &&& seen.theme.name == keyed_themes[i].theme.name@
            &&& seen.theme.background == keyed_themes[i].theme.background
            &&& seen.theme.foreground == keyed_themes[i].theme.foreground
            &&& seen.theme.accent == keyed_themes[i].theme.accent
            &&& seen.theme.secondary == keyed_themes[i].theme.secondary
        },
        string is Some ==> optional_string(string) == Some(string->0@),
        string is None ==> optional_string(string) is None,
        text is Some ==> optional_text(text) == Some(text->0@),
        text is None ==> optional_text(text) is None,
{
}

} // verus!
