use deck::bigtext::{cache_key, glyph_block, glyph_large, render, BigtextCache, FontStyle};

#[test]
fn block_font_renders_5_rows() {
    let lines = render("A", FontStyle::Block);
    assert_eq!(lines.len(), 5);
}

#[test]
fn large_font_renders_7_rows() {
    let lines = render("A", FontStyle::Large);
    assert_eq!(lines.len(), 7);
}

#[test]
fn unknown_chars_fallback() {
    let lines = render("🎉", FontStyle::Block);
    assert_eq!(lines, vec!["🎉"]);
}

#[test]
fn space_produces_empty_glyph() {
    assert!(glyph_block(' ').is_some());
    assert!(glyph_large(' ').is_some());
}

#[test]
fn lowercase_uppercased() {
    let lower = render("abc", FontStyle::Block);
    let upper = render("ABC", FontStyle::Block);
    assert_eq!(lower, upper);
}

#[test]
fn multi_char_joins_with_space() {
    let lines = render("HI", FontStyle::Block);
    assert!(lines[0].contains(' '));
}

#[test]
fn glyph_block_all_digits() {
    for d in '0'..='9' {
        assert!(glyph_block(d).is_some(), "glyph_block missing digit '{d}'");
    }
}

#[test]
fn glyph_large_all_digits() {
    for d in '0'..='9' {
        assert!(glyph_large(d).is_some(), "glyph_large missing digit '{d}'");
    }
}

#[test]
fn unsupported_char_returns_none() {
    assert!(glyph_block('~').is_none());
    assert!(glyph_block('(').is_none());
    assert!(glyph_large('~').is_none());
}

#[test]
fn partial_unsupported_falls_back_to_plain() {
    let lines = render("café", FontStyle::Block);
    assert_eq!(lines, vec!["CAFÉ"]);
}

#[test]
fn rows_join_glyph_rows_with_one_space() {
    let h = glyph_block('H').unwrap();
    let i = glyph_block('I').unwrap();
    let lines = render("HI", FontStyle::Block);
    for row in 0..5 {
        assert_eq!(lines[row], format!("{} {}", h[row], i[row]));
    }
}

#[test]
fn empty_text_renders_one_empty_row() {
    assert_eq!(render("", FontStyle::Large), vec![String::new()]);
}

#[test]
fn cache_returns_what_render_gives() {
    let mut cache = BigtextCache::new();
    let first = cache.render("Hi", FontStyle::Large).to_vec();
    assert_eq!(first, render("Hi", FontStyle::Large));
    let again = cache.render("Hi", FontStyle::Large).to_vec();
    assert_eq!(again, first);
    assert_eq!(cache.render("Hi", FontStyle::Block).to_vec(), render("Hi", FontStyle::Block));
}

#[test]
fn cache_key_separates_fonts() {
    assert_ne!(cache_key("Hi", FontStyle::Block), cache_key("Hi", FontStyle::Large));
    assert_eq!(cache_key("Hi", FontStyle::Block), deck::util::fnv1a("Hi"));
}
