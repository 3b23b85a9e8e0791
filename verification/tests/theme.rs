use herdr_npm::adapters::tui::theme::{
    output_mentions_nerd_font, pad_icon, resolve_icon_mode, IconMode, Theme,
};
use unicode_width::UnicodeWidthStr;

#[test]
fn env_ascii_and_nerd_win_over_the_heuristic() {
    assert_eq!(resolve_icon_mode(Some("ascii"), true), IconMode::Ascii);
    assert_eq!(resolve_icon_mode(Some("nerd"), false), IconMode::Nerd);
    assert_eq!(resolve_icon_mode(Some("nope"), true), IconMode::Nerd);
    assert_eq!(resolve_icon_mode(None, false), IconMode::Ascii);
}

#[test]
fn pad_icon_keeps_the_gutter_width() {
    assert_eq!(pad_icon(">", 2), "> ");
    assert_eq!(pad_icon("#", 2).width(), 2);
    assert_eq!(pad_icon("too-wide-glyph", 2), "> ");
}

#[test]
fn nerd_font_spellings_match_without_scanning_the_host() {
    assert!(output_mentions_nerd_font("JetBrainsMono Nerd Font: style=Regular"));
    assert!(output_mentions_nerd_font("FiraCodeNerdFont-Regular.ttf"));
    assert!(output_mentions_nerd_font("CaskaydiaCove NF Mono (TrueType)"));
    assert!(!output_mentions_nerd_font("Menlo Regular"));
}

#[test]
fn icon_variable_is_trimmed_and_case_insensitive() {
    assert_eq!(resolve_icon_mode(Some("  ASCII\n"), true), IconMode::Ascii);
    assert_eq!(resolve_icon_mode(Some("\tNerd "), false), IconMode::Nerd);
    assert_eq!(resolve_icon_mode(Some("nope"), false), IconMode::Ascii);
}

#[test]
fn zero_columns_pad_to_nothing() {
    assert_eq!(pad_icon(">", 0), "");
    assert_eq!(pad_icon("#", 3), "#  ");
}

#[test]
fn resolved_theme_carries_its_glyphs() {
    let t = Theme::resolve(Some("nerd"), false);
    assert_eq!(t.mode, IconMode::Nerd);
    assert_eq!(t.icons.play, "\u{eb2c}");
    let a = Theme::resolve(None, false);
    assert_eq!(a.icons.play, ">");
    assert_eq!(a.magnifier_cols(), 1);
}
