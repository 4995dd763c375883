use mew::theme::{
    color_mode_from, dots_readable, hex_can_be_read, hex_to_ansi, hex_to_rgb, ColorMode, Palette, ThemeColors,
    ThemeConfig,
};

#[test]
fn hex_to_rgb_reads_pairs() {
    assert_eq!(hex_to_rgb("#ff8000"), (255, 128, 0));
    assert_eq!(hex_to_rgb("ff8000"), (255, 128, 0));
    assert_eq!(hex_to_rgb("  #ABCDEF \n"), (171, 205, 239));
    assert_eq!(hex_to_rgb("##123456"), (18, 52, 86));
    assert_eq!(hex_to_rgb("#45475a"), (69, 71, 90));
}

#[test]
fn hex_to_rgb_falls_back_to_white() {
    assert_eq!(hex_to_rgb("#fff"), (255, 255, 255));
    assert_eq!(hex_to_rgb(""), (255, 255, 255));
    assert_eq!(hex_to_rgb("#1234567"), (255, 255, 255));
}

#[test]
fn hex_to_rgb_bad_pair_is_255() {
    assert_eq!(hex_to_rgb("#gg0000"), (255, 0, 0));
    assert_eq!(hex_to_rgb("#00zz00"), (0, 255, 0));
    assert_eq!(hex_to_rgb("#-10000"), (255, 0, 0));
}

#[test]
fn hex_to_rgb_plus_sign_pair() {
    assert_eq!(hex_to_rgb("#+f0000"), (15, 0, 0));
}

#[test]
fn hex_to_rgb_two_byte_char_pair() {
    assert!(hex_can_be_read("#\u{e9}0000"));
    assert_eq!(hex_to_rgb("#\u{e9}0000"), (255, 0, 0));
}

#[test]
fn hex_cut_inside_a_char_is_refused() {
    assert!(!hex_can_be_read("#a\u{e9}000"));
    assert!(hex_can_be_read("#a\u{e9}00"));
    assert!(hex_can_be_read("#123456"));
}

#[test]
fn hex_to_ansi_escape() {
    assert_eq!(hex_to_ansi("#ff8000"), "\x1b[38;2;255;128;0m");
    assert_eq!(hex_to_ansi("nonsense"), "\x1b[38;2;255;255;255m");
    assert_eq!(hex_to_ansi("#000000"), "\x1b[38;2;0;0;0m");
}

#[test]
fn default_theme_palette() {
    let c = ThemeColors::default();
    assert_eq!(c.border, "#45475a");
    assert_eq!(c.title_cmd, "#94e2d5");
    assert_eq!(c.dots.len(), 8);
    assert_eq!(c.dots[0], "#f38ba8");
    assert_eq!(c.dots[7], "#f5c2e7");
    assert!(c.named_colors_readable());
    assert!(dots_readable(&c.dots));
}

#[test]
fn plain_palette_is_empty() {
    let p = Palette::from_config(&ThemeConfig::default(), ColorMode::Plain);
    assert!(p.is_plain);
    assert_eq!(p.border, "");
    assert_eq!(p.title_mew_hex, "");
    assert_eq!(p.reset, "");
    assert_eq!(p.bold, "");
    assert!(p.dots.is_empty());
    assert_eq!(p.color_palette_dots(), "\u{25cf} \u{25cf} \u{25cf} \u{25cf} \u{25cf} \u{25cf} \u{25cf} \u{25cf}");
}

#[test]
fn truecolor_palette_escapes() {
    let p = Palette::from_config(&ThemeConfig::default(), ColorMode::Truecolor);
    assert!(!p.is_plain);
    assert_eq!(p.border, "\x1b[38;2;69;71;90m");
    assert_eq!(p.status_error, "\x1b[38;2;243;139;168m");
    assert_eq!(p.dot_workspace_hex, "#89dceb");
    assert_eq!(p.title_mew_hex, "#cba6f7");
    assert_eq!(p.reset, "\x1b[0m");
    assert_eq!(p.bold, "\x1b[1m");
    assert_eq!(p.dots.len(), 8);
}

#[test]
fn palette_dots_strip() {
    let mut config = ThemeConfig::default();
    config.colors.dots = vec!["#ff0000".to_string(), "#00ff00".to_string()];
    let p = Palette::from_config(&config, ColorMode::Truecolor);
    assert_eq!(
        p.color_palette_dots(),
        "\x1b[38;2;255;0;0m\u{25cf}\x1b[0m \x1b[38;2;0;255;0m\u{25cf}\x1b[0m"
    );
    config.colors.dots = Vec::new();
    let p = Palette::from_config(&config, ColorMode::Truecolor);
    assert_eq!(p.color_palette_dots(), "");
}

#[test]
fn color_mode_rules() {
    assert_eq!(color_mode_from(false, None, Some("truecolor".into()), None), ColorMode::Plain);
    assert_eq!(color_mode_from(true, Some("1".into()), Some("truecolor".into()), None), ColorMode::Plain);
    assert_eq!(color_mode_from(true, None, Some("truecolor".into()), None), ColorMode::Truecolor);
    assert_eq!(color_mode_from(true, None, None, Some("xterm-256color".into())), ColorMode::Truecolor);
    assert_eq!(color_mode_from(true, None, None, None), ColorMode::Truecolor);
}

#[test]
fn no_color_empty_value_keeps_colour() {
    assert_eq!(color_mode_from(true, Some(String::new()), None, Some("dumb".into())), ColorMode::Truecolor);
    assert_eq!(color_mode_from(true, Some("0".into()), None, None), ColorMode::Plain);
    assert_eq!(color_mode_from(false, Some(String::new()), None, None), ColorMode::Plain);
}

#[test]
fn renderable_checks_dots() {
    let mut c = ThemeColors::default();
    c.dots.push("#a\u{e9}000".to_string());
    assert!(!dots_readable(&c.dots));
    assert!(c.named_colors_readable());
    c.border = "#a\u{e9}000".to_string();
    assert!(!c.named_colors_readable());
}

#[test]
fn written_colour_reads_back() {
    for (r, g, b) in [(0u8, 0u8, 0u8), (255, 255, 255), (18, 171, 9), (127, 128, 200)] {
        for text in [
            format!("#{:02x}{:02x}{:02x}", r, g, b),
            format!("#{:02X}{:02X}{:02X}", r, g, b),
            format!("{:02x}{:02x}{:02x}", r, g, b),
            format!(" \t##{:02X}{:02x}{:02X}\n ", r, g, b),
        ] {
            assert!(hex_can_be_read(&text));
            assert_eq!(hex_to_rgb(&text), (r, g, b), "{}", text);
        }
    }
}
