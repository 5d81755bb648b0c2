use deck::bigtext::FontStyle;
use deck::theme::{Color, Theme, ThemeName};
use deck::transition::TransitionKind;

#[test]
fn hacker_theme_properties() {
    let t = Theme::from_name(&ThemeName::Hacker);
    assert_eq!(t.bullet_prefix, "  > ");
    assert!(matches!(t.font, FontStyle::Block));
    assert!(matches!(t.default_transition, TransitionKind::Glitch));
    assert!(matches!(t.bg, Color::Rgb(10, 10, 20)));
}

#[test]
fn corporate_theme_properties() {
    let t = Theme::from_name(&ThemeName::Corporate);
    assert_eq!(t.bullet_prefix, "  • ");
    assert!(matches!(t.font, FontStyle::Large));
    assert!(matches!(t.default_transition, TransitionKind::Wipe));
}

#[test]
fn catppuccin_theme_properties() {
    let t = Theme::from_name(&ThemeName::Catppuccin);
    assert_eq!(t.bullet_prefix, "  ◆ ");
    assert!(matches!(t.font, FontStyle::Block));
    assert!(matches!(t.default_transition, TransitionKind::Dissolve));
}

#[test]
fn minimal_theme_properties() {
    let t = Theme::from_name(&ThemeName::Minimal);
    assert_eq!(t.bullet_prefix, "  · ");
    assert!(matches!(t.font, FontStyle::Large));
    assert!(matches!(t.default_transition, TransitionKind::Fade));
    assert!(matches!(t.bg, Color::Reset));
}

#[test]
fn h1_style_is_bold() {
    let t = Theme::from_name(&ThemeName::Hacker);
    let style = t.h1_style();
    assert!(style.bold);
}

#[test]
fn body_style_has_fg_and_bg() {
    let t = Theme::from_name(&ThemeName::Hacker);
    let style = t.body_style();
    assert_eq!(style.fg, Some(t.fg));
    assert_eq!(style.bg, Some(t.bg));
}

#[test]
fn bold_style_has_bold_modifier() {
    let t = Theme::from_name(&ThemeName::Hacker);
    assert!(t.bold_style().bold);
    assert_eq!(t.bold_style().fg, Some(t.bold));
}

#[test]
fn italic_style_has_italic_modifier() {
    let t = Theme::from_name(&ThemeName::Hacker);
    assert!(t.italic_style().italic);
    assert_eq!(t.italic_style().fg, Some(t.italic));
}

#[test]
fn code_style_uses_code_colors() {
    let t = Theme::from_name(&ThemeName::Hacker);
    assert_eq!(t.code_style().fg, Some(t.code_fg));
    assert_eq!(t.code_style().bg, Some(t.code_bg));
}

#[test]
fn status_accent_uses_accent() {
    let t = Theme::from_name(&ThemeName::Hacker);
    assert_eq!(t.status_accent().fg, Some(t.accent));
    assert_eq!(t.status_accent().bg, Some(t.bg));
}

#[test]
fn theme_names_parse() {
    let name: Vec<char> = "catppuccin".chars().collect();
    assert_eq!(ThemeName::from_chars(&name), Some(ThemeName::Catppuccin));
    let name: Vec<char> = "solarized".chars().collect();
    assert_eq!(ThemeName::from_chars(&name), None);
    assert_eq!(ThemeName::default(), ThemeName::Hacker);
}

#[test]
fn heading_and_rule_styles() {
    let t = Theme::from_name(&ThemeName::Corporate);
    assert_eq!(t.heading_style().fg, Some(Color::Rgb(100, 170, 255)));
    assert!(t.heading_style().bold);
    assert_eq!(t.rule_style().fg, Some(t.dim));
    assert_eq!(t.rule_style().bg, None);
    assert_eq!(t.status_style().fg, Some(t.dim));
    assert_eq!(t.code_border().fg, Some(t.dim));
    assert_eq!(t.bullet_style().fg, Some(t.accent));
}
