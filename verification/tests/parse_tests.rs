use deck::background::BackgroundKind;
use deck::markdown::Block;
use deck::parse::{
    default_title, extract_background, extract_columns, extract_frontmatter, extract_notes,
    parse_deck, parse_slide, split_slides, DeckMeta, Layout,
};
use deck::theme::ThemeName;
use deck::transition::TransitionKind;

#[test]
fn frontmatter_sets_meta() {
    let input = "---\ntitle = \"My Talk\"\nauthor = \"Ann\"\ntheme = \"corporate\"\ntransition = \"fade\"\nbackground = \"aurora\"\n---\n# One";
    let (meta, body) = extract_frontmatter(input);
    assert_eq!(meta.title, "My Talk");
    assert_eq!(meta.author.as_deref(), Some("Ann"));
    assert_eq!(meta.date, None);
    assert_eq!(meta.theme, ThemeName::Corporate);
    assert_eq!(meta.transition, TransitionKind::Fade);
    assert_eq!(meta.background, Some(BackgroundKind::Aurora));
    assert_eq!(body, "\n# One");
}

#[test]
fn frontmatter_defaults_and_fallbacks() {
    let (meta, body) = extract_frontmatter("# No frontmatter");
    assert_eq!(meta.title, "Untitled");
    assert_eq!(body, "# No frontmatter");
    // An unknown theme name rejects the whole frontmatter.
    let input = "---\ntheme = \"neon\"\n---\nbody";
    let (meta, body) = extract_frontmatter(input);
    assert_eq!(meta.theme, ThemeName::Hacker);
    assert_eq!(body, input);
    // Invalid TOML does too.
    let input = "---\ntitle = \n---\nbody";
    let (meta, body) = extract_frontmatter(input);
    assert_eq!(meta.title, "Untitled");
    assert_eq!(body, input);
    // Unknown keys are ignored.
    let (meta, _) = extract_frontmatter("---\n\nfoo = 1\ntitle = \"X\"\n---\nbody");
    assert_eq!(meta.title, "X");
    assert_eq!(default_title(), "Untitled");
    let d = DeckMeta::default();
    assert_eq!(d.transition, TransitionKind::Cut);
}

#[test]
fn slides_split_on_rule_lines() {
    let slides = split_slides("# A\n\n---\n\n# B\n  ---  \n\n---\n# C\n");
    assert_eq!(slides, vec!["# A", "# B", "# C"]);
    assert!(split_slides("").is_empty());
}

#[test]
fn notes_and_backgrounds_are_extracted() {
    let (text, notes) = extract_notes("# A\n  <!-- note: say hi -->\nbody\n<!-- note:bye-->");
    assert_eq!(text, "# A\nbody");
    assert_eq!(notes, vec!["say hi", "bye"]);
    let (text, bg) = extract_background("<!-- background: matrix -->\n# A\n<!-- background: bogus -->");
    assert_eq!(text, "# A");
    assert_eq!(bg, None);
    let (_, bg) = extract_background("<!-- background: rain -->");
    assert_eq!(bg, Some(BackgroundKind::Rain));
}

#[test]
fn columns_are_extracted() {
    let raw = "## Title\n::: columns\n::: left\nL1\nL2\n:::\n::: right\nR\n:::\n:::\nafter";
    let (before, left, right) = extract_columns(raw).unwrap();
    assert_eq!(before, "## Title");
    assert_eq!(left, "L1\nL2");
    assert_eq!(right, "R");
    assert_eq!(extract_columns("no columns here"), None);
    assert_eq!(extract_columns("::: columns\n::: left\n:::\n"), None);
}

#[test]
fn slide_layouts() {
    let s = parse_slide("<!-- layout: center -->\n# Hi\n<!-- note: n -->");
    assert_eq!(s.layout, Layout::Center);
    assert_eq!(s.notes, vec!["n"]);
    assert!(matches!(&s.blocks[0], Block::Heading { level: 1, text } if text == "Hi"));
    let s = parse_slide("# T\n::: columns\n::: left\n- a\n:::\n::: right\nb\n:::\n:::");
    assert_eq!(s.layout, Layout::Columns);
    assert_eq!(s.blocks.len(), 1);
    let cols = s.columns.unwrap();
    assert!(matches!(&cols.left[0], Block::BulletList { items } if items.len() == 1));
    assert!(matches!(&cols.right[0], Block::Paragraph { .. }));
    let s = parse_slide("plain");
    assert_eq!(s.layout, Layout::Default);
    assert_eq!(Layout::default(), Layout::Default);
}

#[test]
fn deck_drops_empty_slides_and_applies_background() {
    let input = "---\nbackground = \"orbit\"\n---\n# One\n---\n<!-- note: only a note -->\n---\n# Three\n<!-- background: wave -->";
    let deck = parse_deck(input);
    assert_eq!(deck.slides.len(), 2);
    assert_eq!(deck.slides[0].background, Some(BackgroundKind::Orbit));
    assert_eq!(deck.slides[1].background, Some(BackgroundKind::Wave));
    let deck = parse_deck("<!-- background: plasma -->\n# A\n---\n# B");
    assert_eq!(deck.slides[0].background, Some(BackgroundKind::Plasma));
    assert_eq!(deck.slides[1].background, None);
    assert_eq!(deck.meta.title, "Untitled");
}

#[test]
fn frontmatter_end_is_a_whole_line() {
    let input = ["---", "title = '''", "---x'''", "---", "# S"].join("\n");
    let (meta, body) = extract_frontmatter(&input);
    assert_eq!(meta.title, "---x");
    assert_eq!(body, "\n# S");
    // A closing line with trailing spaces still closes it.
    let (meta, body) = extract_frontmatter("---\ntitle = \"T\"\n---  \n# S");
    assert_eq!(meta.title, "T");
    assert_eq!(body, "\n# S");
}
