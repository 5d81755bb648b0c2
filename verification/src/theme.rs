//! The built-in themes: palettes, bullet glyphs, big-text font and default
//! transition, and the text styles derived from them.

use vstd::prelude::*;

use crate::bigtext::FontStyle;
use crate::text::{chars_of, seq_eq, string_of};
use crate::transition::TransitionKind;

verus! {

/// Built-in theme variants, selectable by name on the command line or in the
/// deck's frontmatter.
#[derive(Clone, Copy, Debug, PartialEq, Eq, Structural)]
pub enum ThemeName {
    Hacker,
    Minimal,
    Corporate,
    Catppuccin,
}

impl Default for ThemeName {
    fn default() -> (r: Self)
        ensures
            r == ThemeName::Hacker,
    {
        ThemeName::Hacker
    }
}

/// The theme a lower-case name selects, if any.
pub open spec fn theme_named(name: Seq<char>) -> Option<ThemeName> {
    if name == "hacker"@ {
        Some(ThemeName::Hacker)
    } else if name == "minimal"@ {
        Some(ThemeName::Minimal)
    } else if name == "corporate"@ {
        Some(ThemeName::Corporate)
    } else if name == "catppuccin"@ {
        Some(ThemeName::Catppuccin)
    } else {
        None
    }
}

/// The documented lower-case name of each theme.
pub open spec fn theme_name(k: ThemeName) -> Seq<char> {
    match k {
        ThemeName::Hacker => "hacker"@,
        ThemeName::Minimal => "minimal"@,
        ThemeName::Corporate => "corporate"@,
        ThemeName::Catppuccin => "catppuccin"@,
    }
}

/// Looking a theme up by name is a bijection with the documented names:
/// each kind's name selects that kind, and a name selects a kind only when
/// it is that kind's name (so distinct names give distinct kinds).
pub proof fn lemma_theme_names(k: ThemeName, name: Seq<char>)
    ensures
        theme_named(theme_name(k)) == Some(k),
        theme_named(name) == Some(k) <==> name == theme_name(k),
{
    reveal_strlit("hacker");
    reveal_strlit("minimal");
    reveal_strlit("corporate");
    reveal_strlit("catppuccin");
    assert("hacker"@.len() != "minimal"@.len());
    assert("hacker"@.len() != "corporate"@.len());
    assert("hacker"@.len() != "catppuccin"@.len());
    assert("minimal"@.len() != "corporate"@.len());
    assert("minimal"@.len() != "catppuccin"@.len());
    assert("corporate"@.len() != "catppuccin"@.len());
}

impl ThemeName {
    /// The theme named `name` (`"hacker"`, `"minimal"`, ...), if any.
    pub fn from_chars(name: &[char]) -> (r: Option<ThemeName>)
        ensures
            r == theme_named(name@),
    {
        if seq_eq(name, chars_of("hacker").as_slice()) {
            Some(ThemeName::Hacker)
        } else if seq_eq(name, chars_of("minimal").as_slice()) {
            Some(ThemeName::Minimal)
        } else if seq_eq(name, chars_of("corporate").as_slice()) {
            Some(ThemeName::Corporate)
        } else if seq_eq(name, chars_of("catppuccin").as_slice()) {
            Some(ThemeName::Catppuccin)
        } else {
            None
        }
    }
}

/// A terminal color: a 24-bit RGB triple or one of the named terminal colors
/// the themes use.
#[derive(Clone, Copy, Debug, PartialEq, Eq, Structural)]
pub enum Color {
    Rgb(u8, u8, u8),
    Reset,
    White,
    Yellow,
    DarkGray,
    Gray,
}

/// Foreground, background and the bold / italic modifiers of a text run.
#[derive(Clone, Copy, Debug, PartialEq, Eq, Structural)]
pub struct Style {
    pub fg: Option<Color>,
    pub bg: Option<Color>,
    pub bold: bool,
    pub italic: bool,
}

/// The colors, glyphs and defaults of one theme.
pub ghost struct Palette {
    pub bg: Color,
    pub fg: Color,
    pub heading: Color,
    pub accent: Color,
    pub dim: Color,
    pub code_bg: Color,
    pub code_fg: Color,
    pub bold: Color,
    pub italic: Color,
    pub bullet_prefix: Seq<char>,
    pub font: FontStyle,
    pub default_transition: TransitionKind,
}

/// The palette of each built-in theme.
pub open spec fn palette(name: ThemeName) -> Palette {
    match name {
        ThemeName::Hacker => Palette {
            bg: Color::Rgb(10, 10, 20),
            fg: Color::Rgb(0, 255, 65),
            heading: Color::Rgb(0, 255, 200),
            accent: Color::Rgb(255, 0, 100),
            dim: Color::Rgb(60, 60, 80),
            code_bg: Color::Rgb(20, 20, 35),
            code_fg: Color::Rgb(200, 200, 200),
            bold: Color::Rgb(255, 255, 100),
            italic: Color::Rgb(150, 150, 255),
            bullet_prefix: "  > "@,
            font: FontStyle::Block,
            default_transition: TransitionKind::Glitch,
        },
        ThemeName::Catppuccin => Palette {
            bg: Color::Rgb(30, 30, 46),
            fg: Color::Rgb(205, 214, 244),
            heading: Color::Rgb(137, 180, 250),
            accent: Color::Rgb(245, 194, 231),
            dim: Color::Rgb(88, 91, 112),
            code_bg: Color::Rgb(49, 50, 68),
            code_fg: Color::Rgb(166, 173, 200),
            bold: Color::Rgb(250, 179, 135),
            italic: Color::Rgb(180, 190, 254),
            bullet_prefix: "  ◆ "@,
            font: FontStyle::Block,
            default_transition: TransitionKind::Dissolve,
        },
        ThemeName::Corporate => Palette {
            bg: Color::Rgb(20, 25, 40),
            fg: Color::Rgb(215, 220, 230),
            heading: Color::Rgb(100, 170, 255),
            accent: Color::Rgb(230, 185, 55),
            dim: Color::Rgb(70, 78, 95),
            code_bg: Color::Rgb(28, 34, 52),
            code_fg: Color::Rgb(195, 200, 210),
            bold: Color::Rgb(245, 248, 255),
            italic: Color::Rgb(150, 175, 215),
            bullet_prefix: "  • "@,
            font: FontStyle::Large,
            default_transition: TransitionKind::Wipe,
        },
        ThemeName::Minimal => Palette {
            bg: Color::Reset,
            fg: Color::White,
            heading: Color::White,
            accent: Color::Yellow,
            dim: Color::DarkGray,
            code_bg: Color::Rgb(40, 40, 40),
            code_fg: Color::White,
            bold: Color::White,
            italic: Color::Gray,
            bullet_prefix: "  · "@,
            font: FontStyle::Large,
            default_transition: TransitionKind::Fade,
        },
    }
}

/// Color palette and font/transition defaults used by the renderer.
pub struct Theme {
    pub bg: Color,
    pub fg: Color,
    pub heading: Color,
    pub accent: Color,
    pub dim: Color,
    pub code_bg: Color,
    pub code_fg: Color,
    pub bold: Color,
    pub italic: Color,
    /// Pre-built `"  <bullet> "` prefix string.
    pub bullet_prefix: String,
    pub font: FontStyle,
    /// Slide-to-slide transition used when the deck doesn't override it.
    pub default_transition: TransitionKind,
}

impl View for Theme {
    type V = Palette;

    open spec fn view(&self) -> Palette {
        Palette {
            bg: self.bg,
            fg: self.fg,
            heading: self.heading,
            accent: self.accent,
            dim: self.dim,
            code_bg: self.code_bg,
            code_fg: self.code_fg,
            bold: self.bold,
            italic: self.italic,
            bullet_prefix: self.bullet_prefix@,
            font: self.font,
            default_transition: self.default_transition,
        }
    }
}

/// A style with the given colors and no modifier.
pub open spec fn plain_style(fg: Option<Color>, bg: Option<Color>) -> Style {
    Style { fg, bg, bold: false, italic: false }
}

impl Theme {
    /// Build one of the built-in themes by name.
    pub fn from_name(name: &ThemeName) -> (r: Self)
        ensures
            r@ == palette(*name),
    {
        match name {
            ThemeName::Hacker => Theme {
                bg: Color::Rgb(10, 10, 20),
                fg: Color::Rgb(0, 255, 65),
                heading: Color::Rgb(0, 255, 200),
                accent: Color::Rgb(255, 0, 100),
                dim: Color::Rgb(60, 60, 80),
                code_bg: Color::Rgb(20, 20, 35),
                code_fg: Color::Rgb(200, 200, 200),
                bold: Color::Rgb(255, 255, 100),
                italic: Color::Rgb(150, 150, 255),
                bullet_prefix: string_of(chars_of("  > ").as_slice()),
                font: FontStyle::Block,
                default_transition: TransitionKind::Glitch,
            },
            ThemeName::Catppuccin => Theme {
                bg: Color::Rgb(30, 30, 46),
                fg: Color::Rgb(205, 214, 244),
                heading: Color::Rgb(137, 180, 250),
                accent: Color::Rgb(245, 194, 231),
                dim: Color::Rgb(88, 91, 112),
                code_bg: Color::Rgb(49, 50, 68),
                code_fg: Color::Rgb(166, 173, 200),
                bold: Color::Rgb(250, 179, 135),
                italic: Color::Rgb(180, 190, 254),
                bullet_prefix: string_of(chars_of("  ◆ ").as_slice()),
                font: FontStyle::Block,
                default_transition: TransitionKind::Dissolve,
            },
            ThemeName::Corporate => Theme {
                bg: Color::Rgb(20, 25, 40),
                fg: Color::Rgb(215, 220, 230),
                heading: Color::Rgb(100, 170, 255),
                accent: Color::Rgb(230, 185, 55),
                dim: Color::Rgb(70, 78, 95),
                code_bg: Color::Rgb(28, 34, 52),
                code_fg: Color::Rgb(195, 200, 210),
                bold: Color::Rgb(245, 248, 255),
                italic: Color::Rgb(150, 175, 215),
                bullet_prefix: string_of(chars_of("  • ").as_slice()),
                font: FontStyle::Large,
                default_transition: TransitionKind::Wipe,
            },
            ThemeName::Minimal => Theme {
                bg: Color::Reset,
                fg: Color::White,
                heading: Color::White,
                accent: Color::Yellow,
                dim: Color::DarkGray,
                code_bg: Color::Rgb(40, 40, 40),
                code_fg: Color::White,
                bold: Color::White,
                italic: Color::Gray,
                bullet_prefix: string_of(chars_of("  · ").as_slice()),
                font: FontStyle::Large,
                default_transition: TransitionKind::Fade,
            },
        }
    }

    /// Style for the H1 big-text glyphs; the same as `heading_style`.
    pub fn h1_style(&self) -> (r: Style)
        ensures
            r == (Style { fg: Some(self.heading), bg: None, bold: true, italic: false }),
    {
        self.heading_style()
    }

    /// Style for headings (H2+): `heading` color, bold.
    pub fn heading_style(&self) -> (r: Style)
        ensures
            r == (Style { fg: Some(self.heading), bg: None, bold: true, italic: false }),
    {
        Style { fg: Some(self.heading), bg: None, bold: true, italic: false }
    }

    /// Style for normal body text: `fg` on `bg`.
    pub fn body_style(&self) -> (r: Style)
        ensures
            r == plain_style(Some(self.fg), Some(self.bg)),
    {
        Style { fg: Some(self.fg), bg: Some(self.bg), bold: false, italic: false }
    }

    /// Style for inline and fenced code: `code_fg` on `code_bg`.
    pub fn code_style(&self) -> (r: Style)
        ensures
            r == plain_style(Some(self.code_fg), Some(self.code_bg)),
    {
        Style { fg: Some(self.code_fg), bg: Some(self.code_bg), bold: false, italic: false }
    }

    /// Style for the border around fenced code blocks: `dim` foreground.
    pub fn code_border(&self) -> (r: Style)
        ensures
            r == plain_style(Some(self.dim), None),
    {
        Style { fg: Some(self.dim), bg: None, bold: false, italic: false }
    }

    /// Style for the leading bullet glyph: `accent` foreground.
    pub fn bullet_style(&self) -> (r: Style)
        ensures
            r == plain_style(Some(self.accent), None),
    {
        Style { fg: Some(self.accent), bg: None, bold: false, italic: false }
    }

    /// Style for `**bold**` runs: `bold` on `bg`, bold.
    pub fn bold_style(&self) -> (r: Style)
        ensures
            r == (Style { fg: Some(self.bold), bg: Some(self.bg), bold: true, italic: false }),
    {
        Style { fg: Some(self.bold), bg: Some(self.bg), bold: true, italic: false }
    }

    /// Style for `*italic*` runs: `italic` on `bg`, italic.
    pub fn italic_style(&self) -> (r: Style)
        ensures
            r == (Style { fg: Some(self.italic), bg: Some(self.bg), bold: false, italic: true }),
    {
        Style { fg: Some(self.italic), bg: Some(self.bg), bold: false, italic: true }
    }

    /// Style for horizontal rules: `dim` foreground.
    pub fn rule_style(&self) -> (r: Style)
        ensures
            r == plain_style(Some(self.dim), None),
    {
        Style { fg: Some(self.dim), bg: None, bold: false, italic: false }
    }

    /// Status bar base style: `dim` on `bg`.
    pub fn status_style(&self) -> (r: Style)
        ensures
            r == plain_style(Some(self.dim), Some(self.bg)),
    {
        Style { fg: Some(self.dim), bg: Some(self.bg), bold: false, italic: false }
    }

    /// Accent style used inside the status bar (title and timer): `accent` on `bg`.
    pub fn status_accent(&self) -> (r: Style)
        ensures
            r == plain_style(Some(self.accent), Some(self.bg)),
    {
        Style { fg: Some(self.accent), bg: Some(self.bg), bold: false, italic: false }
    }
}

} // verus!
