use deck::markdown::{parse_blocks, Block, Span};

#[test]
fn parse_heading() {
    let blocks = parse_blocks("# Hello");
    assert!(matches!(&blocks[0], Block::Heading { level: 1, text } if text == "Hello"));
}

#[test]
fn parse_h2_heading() {
    let blocks = parse_blocks("## Sub");
    assert!(matches!(&blocks[0], Block::Heading { level: 2, text } if text == "Sub"));
}

#[test]
fn parse_paragraph() {
    let blocks = parse_blocks("Just some text");
    assert!(matches!(&blocks[0], Block::Paragraph { spans } if !spans.is_empty()));
}

#[test]
fn parse_bold_span() {
    let blocks = parse_blocks("**bold**");
    if let Block::Paragraph { spans } = &blocks[0] {
        assert!(matches!(&spans[0], Span::Bold(t) if t == "bold"));
    } else {
        panic!("expected paragraph");
    }
}

#[test]
fn parse_italic_span() {
    let blocks = parse_blocks("*italic*");
    if let Block::Paragraph { spans } = &blocks[0] {
        assert!(matches!(&spans[0], Span::Italic(t) if t == "italic"));
    } else {
        panic!("expected paragraph");
    }
}

#[test]
fn parse_inline_code() {
    let blocks = parse_blocks("`code`");
    if let Block::Paragraph { spans } = &blocks[0] {
        assert!(matches!(&spans[0], Span::Code(t) if t == "code"));
    } else {
        panic!("expected paragraph");
    }
}

#[test]
fn parse_bullet_list() {
    let blocks = parse_blocks("- One\n- Two\n- Three");
    if let Block::BulletList { items } = &blocks[0] {
        assert_eq!(items.len(), 3);
    } else {
        panic!("expected bullet list");
    }
}

#[test]
fn parse_numbered_list() {
    let blocks = parse_blocks("1. First\n2. Second");
    if let Block::NumberedList { items } = &blocks[0] {
        assert_eq!(items.len(), 2);
    } else {
        panic!("expected numbered list");
    }
}

#[test]
fn parse_code_block() {
    let blocks = parse_blocks("```rust\nfn main() {}\n```");
    if let Block::Code { lang, code } = &blocks[0] {
        assert_eq!(lang.as_deref(), Some("rust"));
        assert!(code.contains("fn main"));
    } else {
        panic!("expected code block");
    }
}

#[test]
fn parse_horizontal_rule() {
    let blocks = parse_blocks("---");
    assert!(matches!(&blocks[0], Block::HorizontalRule));
}

#[test]
fn parse_image() {
    let blocks = parse_blocks("![alt text](./photo.png)");
    if let Block::Image { path, alt } = &blocks[0] {
        assert_eq!(path, "./photo.png");
        assert_eq!(alt, "alt text");
    } else {
        panic!("expected image, got {:?}", blocks[0]);
    }
}

#[test]
fn parse_empty_input() {
    let blocks = parse_blocks("");
    assert!(blocks.is_empty());
}

#[test]
fn parse_code_block_no_language() {
    let blocks = parse_blocks("```\nplain code\n```");
    if let Block::Code { lang, code } = &blocks[0] {
        assert!(lang.is_none());
        assert!(code.contains("plain code"));
    } else {
        panic!("expected code block");
    }
}

#[test]
fn parse_h3_through_h6() {
    for level in 3..=6u8 {
        let hashes = "#".repeat(level as usize);
        let input = format!("{hashes} Level {level}");
        let blocks = parse_blocks(&input);
        assert!(
            matches!(&blocks[0], Block::Heading { level: l, .. } if *l == level),
            "H{level} not parsed correctly"
        );
    }
}

#[test]
fn parse_mixed_paragraph_spans_in_order() {
    let blocks = parse_blocks("plain **bold** *it* `c`");
    if let Block::Paragraph { spans } = &blocks[0] {
        assert!(matches!(&spans[0], Span::Plain(t) if t == "plain "));
        assert!(matches!(&spans[1], Span::Bold(t) if t == "bold"));
        assert!(matches!(&spans[2], Span::Plain(t) if t == " "));
        assert!(matches!(&spans[3], Span::Italic(t) if t == "it"));
        assert!(matches!(&spans[5], Span::Code(t) if t == "c"));
    } else {
        panic!("expected paragraph");
    }
}

#[test]
fn parse_nested_list_is_flattened() {
    let blocks = parse_blocks("- a\n  - b\n- c");
    let bullet_lists = blocks.iter().filter(|b| matches!(b, Block::BulletList { .. })).count();
    assert_eq!(bullet_lists, 2);
}
