use srtui::error::RadioError;
use srtui::theme::{
    color_is_readable, file_stem, is_theme_file, list_by_key, load_alacritty_themes,
    parse_hex_color, parse_theme_file, theme_colors, theme_is_readable, KeyedTheme, Rgb, Theme,
    ThemeFile,
};
use std::path::Path;

const NIGHT: &str = "\
# a comment = not a setting
[colors.primary]
background = \"#1a1b26\"
foreground = '0xa9b1d6'

[colors.normal]
black = \"#000000\"
green = \"#9ece6a\"
yellow = \"#e0af68\"
";

fn rgb(red: u8, green: u8, blue: u8) -> Rgb {
    Rgb { red, green, blue }
}

fn message(result: Result<Theme, RadioError>) -> String {
    match result {
        Ok(theme) => panic!("a theme: {theme:?}"),
        Err(error) => error.message(),
    }
}

fn file(name: &str, text: &str) -> ThemeFile {
    ThemeFile { name: Some(name.to_string()), text: text.to_string() }
}

fn theme_text(background: &str) -> String {
    format!("[colors.primary]\nbackground={background}\nforeground=#000000\n[colors.normal]\ngreen=#000000\nyellow=#000000\n")
}

#[test]
fn a_theme_file_is_read() {
    let theme = parse_theme_file(NIGHT, Some("tokyo_night.toml")).unwrap();
    assert_eq!(theme.name, "tokyo_night");
    assert_eq!(theme.background, rgb(0x1a, 0x1b, 0x26));
    assert_eq!(theme.foreground, rgb(0xa9, 0xb1, 0xd6));
    assert_eq!(theme.accent, rgb(0x9e, 0xce, 0x6a));
    assert_eq!(theme.secondary, rgb(0xe0, 0xaf, 0x68));
    assert_eq!(theme.clone().name, "tokyo_night");
}

#[test]
fn the_last_value_of_a_setting_counts() {
    let text = format!("{NIGHT}green = \"#000001\"\r\n  [colors.primary]  \n background=#000002 \n");
    let theme = parse_theme_file(&text, Some("x.toml")).unwrap();
    assert_eq!(theme.accent, rgb(0, 0, 1));
    assert_eq!(theme.background, rgb(0, 0, 2));
}

#[test]
fn settings_belong_to_their_section() {
    let colors = theme_colors("green = 1\n[colors.normal]\ngreen=2\n[ colors.normal ]\ngreen=3\n[[colors.normal]]\nblue = 'a=b'\n[colors.bright]\ncyan = 5\n");
    assert_eq!(colors.green.as_deref(), Some("2"));
    assert_eq!(colors.blue.as_deref(), Some("a=b"));
    assert_eq!(colors.cyan, None);
    assert_eq!(colors.background, None);
}

#[test]
fn comments_and_blank_lines_change_nothing() {
    let plain = theme_colors("[colors.normal]\nwhite = \"w\"\n");
    let noisy = theme_colors("\n# x\n[colors.normal]\n   \n#white = \"v\"\nwhite = \"w\"\nnoise\n");
    assert_eq!(plain.white, noisy.white);
    assert_eq!(noisy.white.as_deref(), Some("w"));
}

#[test]
fn a_setting_is_read_back() {
    let colors = theme_colors("[colors.normal]\nmagenta=  \"'v'\" \t\n");
    assert_eq!(colors.magenta.as_deref(), Some("v"));
}

#[test]
fn accent_and_secondary_fall_back() {
    let base = "[colors.primary]\nbackground=#000000\nforeground=#000000\n[colors.normal]\n";
    let text = format!("{base}cyan=#000003\nwhite=#000006\n");
    let theme = parse_theme_file(&text, Some("x.toml")).unwrap();
    assert_eq!((theme.accent, theme.secondary), (rgb(0, 0, 3), rgb(0, 0, 6)));
    let text = format!("{base}cyan=#000003\nblue=#000002\nwhite=#000006\nmagenta=#000005\n");
    let theme = parse_theme_file(&text, Some("x.toml")).unwrap();
    assert_eq!((theme.accent, theme.secondary), (rgb(0, 0, 2), rgb(0, 0, 5)));
    let text = format!("{text}green=#000001\nyellow=#000004\n");
    let theme = parse_theme_file(&text, Some("x.toml")).unwrap();
    assert_eq!((theme.accent, theme.secondary), (rgb(0, 0, 1), rgb(0, 0, 4)));
}

#[test]
fn what_is_wrong_first_is_reported() {
    assert_eq!(message(parse_theme_file("", Some("x.toml"))), "missing color string");
    assert_eq!(
        message(parse_theme_file(&theme_text("#12345"), None)),
        "unsupported color format: #12345"
    );
    assert_eq!(
        message(parse_theme_file(&theme_text("#12345g"), None)),
        "invalid digit found in string"
    );
    assert_eq!(
        message(parse_theme_file(&theme_text("#123456"), None)),
        "bad theme filename"
    );
    let bad_foreground = theme_text("#123456").replace("foreground=#000000", "foreground=red");
    assert_eq!(
        message(parse_theme_file(&bad_foreground, None)),
        "unsupported color format: red"
    );
}

#[test]
fn every_color_is_read_back() {
    for n in (0..=0xffffffu32).step_by(4099).chain([0xffffff]) {
        let color = rgb((n >> 16) as u8, (n >> 8) as u8, n as u8);
        for text in [
            format!("{n:06x}"),
            format!("{n:06X}"),
            format!("#{n:06x}"),
            format!("0x{n:06X}"),
            format!("#0x{n:06X}"),
            format!("\t\u{3000} ##0x0x{n:06x} \r\n"),
        ] {
            assert_eq!(parse_hex_color(Some(&text)).unwrap(), color, "{text}");
        }
    }
}

#[test]
fn color_parts_are_read_like_u8_in_base_16() {
    for a in 0..0x80u8 {
        for b in 0..0x80u8 {
            let (a, b) = (a as char, b as char);
            if a.is_whitespace() || b.is_whitespace() {
                continue;
            }
            let pair = format!("{a}{b}");
            let read = parse_hex_color(Some(&format!("12{pair}34")));
            match u8::from_str_radix(&pair, 16) {
                Ok(value) => assert_eq!(read.unwrap(), rgb(0x12, value, 0x34), "{pair}"),
                Err(_) => assert_eq!(read.unwrap_err().message(), "invalid digit found in string"),
            }
        }
    }
}

#[test]
fn colors_count_bytes() {
    assert_eq!(parse_hex_color(None).unwrap_err().message(), "missing color string");
    assert_eq!(
        parse_hex_color(Some("éaaaa")).unwrap_err().message(),
        "invalid digit found in string"
    );
    assert_eq!(
        parse_hex_color(Some("éé")).unwrap_err().message(),
        "unsupported color format: éé"
    );
    assert_eq!(
        parse_hex_color(Some("zzaéa")).unwrap_err().message(),
        "invalid digit found in string"
    );
    assert!(!color_is_readable(Some("aéaaa")));
    assert!(!color_is_readable(Some("11aéa")));
    assert!(!color_is_readable(Some("€€")));
    assert!(color_is_readable(Some("1122é")));
    assert!(color_is_readable(Some("aé")));
    assert!(color_is_readable(None));
    assert!(theme_is_readable(NIGHT, Some("x.toml")));
    assert!(!theme_is_readable(&theme_text("aéaaa"), Some("x.toml")));
}

#[test]
fn file_names_are_taken_apart_like_paths() {
    let names = [
        "a.toml", ".toml", "..toml", "a", "a.", "a.b.toml", ".a.toml", "a.TOML", "toml", "a.tom",
        "é.toml", "a.toml.bak", "backup.toml", "my.backup.toml", "a.bak.toml", "abak.toml", ".",
    ];
    for name in names {
        let path = Path::new(name);
        if let Some(stem) = path.file_stem() {
            assert_eq!(file_stem(name), stem.to_str().unwrap(), "{name}");
        }
        let toml = path.extension().and_then(|ext| ext.to_str()) == Some("toml");
        let backup = name.contains("backup") || name.contains(".bak");
        assert_eq!(is_theme_file(name), toml && !backup, "{name}");
    }
    assert!(is_theme_file("tokyo_night.toml"));
    assert!(!is_theme_file("tokyo_night.toml.bak"));
}

#[test]
fn themes_are_listed_once_and_in_order() {
    let files = [
        file("beta.toml", &theme_text("#000001")),
        file("Alpha.toml", &theme_text("#000002")),
        file("broken.toml", "nothing"),
        file("ALPHA.toml", &theme_text("#000003")),
        file("ärger.toml", &theme_text("#000004")),
        file("Ärger.toml", &theme_text("#000005")),
        file("alph.toml", &theme_text("#000006")),
        ThemeFile { name: None, text: theme_text("#000007") },
    ];
    let themes = load_alacritty_themes(&files).unwrap();
    let listed: Vec<(&str, u8)> =
        themes.iter().map(|t| (t.name.as_str(), t.background.blue)).collect();
    assert_eq!(listed, [("alph", 6), ("Alpha", 2), ("beta", 1), ("ärger", 4)]);
}

#[test]
fn the_order_of_files_decides_only_between_equal_names() {
    let one = [file("b.toml", &theme_text("#000001")), file("A.toml", &theme_text("#000002"))];
    let two = [file("A.toml", &theme_text("#000002")), file("b.toml", &theme_text("#000001"))];
    let names = |files: &[ThemeFile]| -> Vec<String> {
        load_alacritty_themes(files).unwrap().into_iter().map(|t| t.name).collect()
    };
    assert_eq!(names(&one), names(&two));
    assert_eq!(names(&one), ["A", "b"]);
}

#[test]
fn without_themes_there_is_an_error() {
    let error = load_alacritty_themes(&[file("a.toml", "")]).unwrap_err();
    assert_eq!(error.message(), "no Alacritty TOML themes found");
    assert!(load_alacritty_themes(&[]).is_err());
}

#[test]
fn keys_decide_what_is_listed() {
    let theme = parse_theme_file(NIGHT, Some("night.toml")).unwrap();
    let keyed = |key: &str, blue: u8| {
        let mut theme = theme.clone();
        theme.accent.blue = blue;
        KeyedTheme { key: key.to_string(), theme }
    };
    let all = [keyed("b", 1), keyed("a", 2), keyed("b", 3), keyed("", 4), keyed("ab", 5)];
    let listed: Vec<(String, u8)> =
        list_by_key(&all).into_iter().map(|t| (t.key, t.theme.accent.blue)).collect();
    let wanted = [("", 4), ("a", 2), ("ab", 5), ("b", 1)];
    assert_eq!(listed, wanted.map(|(key, blue)| (key.to_string(), blue)));
    assert!(list_by_key(&[]).is_empty());
}

#[test]
fn ascii_files_are_readable() {
    for text in ["aaaaaaa", "++++++", "#00", "x y z ;", "\"'0x1234"] {
        assert!(color_is_readable(Some(text)));
        assert!(theme_is_readable(&theme_text(text), Some("a.toml")));
    }
}
