use herdr_npm::domain::text::trim_text;

#[test]
fn unicode_white_space_is_trimmed() {
    assert_eq!(trim_text("\u{3000}\t a b \u{85}\u{a0}"), "a b");
    assert_eq!(trim_text("\u{200b}x"), "\u{200b}x");
}
