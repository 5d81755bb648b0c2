use deck::layout::{
    centered_area, clock_text, estimate_height, estimate_line_height, goto_overlay_rect,
    help_overlay_rect, notes_text, padded, spans_to_line, status_line, typewriter_partial_line,
    Rect, StatusBar, StyledSpan,
};
use deck::markdown::{Block, ListItem, Span};
use deck::theme::{Style, Theme, ThemeName};

fn line(text: &str) -> Vec<StyledSpan> {
    let style = Style { fg: None, bg: None, bold: false, italic: false };
    vec![StyledSpan { text: text.to_string(), style }]
}

fn rect(x: u16, y: u16, width: u16, height: u16) -> Rect {
    Rect { x, y, width, height }
}

#[test]
fn estimate_line_height_zero_width() {
    assert_eq!(estimate_line_height(&line("hello"), 0), 1);
}

#[test]
fn estimate_line_height_fits_in_one_row() {
    assert_eq!(estimate_line_height(&line("hello"), 80), 1);
}

#[test]
fn estimate_line_height_wraps() {
    assert_eq!(estimate_line_height(&line(&"a".repeat(200)), 80), 3);
}

#[test]
fn estimate_line_height_exact_fit() {
    assert_eq!(estimate_line_height(&line(&"a".repeat(80)), 80), 1);
}

#[test]
fn estimate_line_height_empty() {
    assert_eq!(estimate_line_height(&line(""), 80), 1);
}

#[test]
fn estimate_line_height_counts_wide_chars() {
    // Ten full-width characters take twenty columns.
    assert_eq!(estimate_line_height(&line(&"Ｈ".repeat(10)), 10), 2);
    // Non-ASCII text is measured in columns, not bytes.
    assert_eq!(estimate_line_height(&line(&"é".repeat(10)), 10), 1);
}

#[test]
fn padded_shrinks_area() {
    let p = padded(rect(0, 0, 100, 50), 3, 2);
    assert_eq!(p.x, 3);
    assert_eq!(p.y, 2);
    assert_eq!(p.width, 94);
    assert_eq!(p.height, 46);
}

#[test]
fn padded_handles_small_area() {
    let p = padded(rect(0, 0, 4, 2), 3, 2);
    assert_eq!(p.width, 0);
    assert_eq!(p.height, 0);
}

#[test]
fn estimate_height_heading() {
    let blocks = vec![Block::Heading { level: 1, text: "Hi".into() }];
    assert_eq!(estimate_height(&blocks, 80), 8);
}

#[test]
fn estimate_height_paragraph() {
    let blocks = vec![Block::Paragraph { spans: vec![Span::Plain("hello world".into())] }];
    assert_eq!(estimate_height(&blocks, 80), 2);
}

#[test]
fn estimate_height_empty() {
    let blocks: Vec<Block> = vec![];
    assert_eq!(estimate_height(&blocks, 80), 0);
}

#[test]
fn spans_to_line_maps_styles() {
    let theme = Theme::from_name(&ThemeName::Hacker);
    let spans = vec![Span::Plain("hello ".into()), Span::Bold("world".into())];
    let line = spans_to_line(&spans, &theme);
    assert_eq!(line.len(), 2);
}

#[test]
fn estimate_height_bullet_list() {
    let blocks = vec![Block::BulletList {
        items: vec![
            ListItem { spans: vec![Span::Plain("a".into())] },
            ListItem { spans: vec![Span::Plain("b".into())] },
            ListItem { spans: vec![Span::Plain("c".into())] },
        ],
    }];
    assert_eq!(estimate_height(&blocks, 80), 3);
}

#[test]
fn estimate_height_code_block() {
    let blocks = vec![Block::Code {
        lang: Some("rust".into()),
        code: "fn a() {}\nfn b() {}\nfn c() {}".into(),
    }];
    assert_eq!(estimate_height(&blocks, 80), 6);
}

#[test]
fn estimate_height_mixed_blocks() {
    let blocks = vec![
        Block::Heading { level: 1, text: "Title".into() },
        Block::Paragraph { spans: vec![Span::Plain("hello".into())] },
        Block::HorizontalRule,
    ];
    assert_eq!(estimate_height(&blocks, 80), 12);
}

#[test]
fn estimate_height_other_blocks() {
    let blocks = vec![
        Block::Heading { level: 2, text: "Sub".into() },
        Block::Image { path: "a.png".into(), alt: String::new() },
        Block::NumberedList { items: vec![ListItem { spans: vec![] }] },
        Block::Paragraph { spans: vec![Span::Plain("x".repeat(100))] },
    ];
    // 2 + 8 + 1 + (ceil(100/0 -> 1 column) = 100, + 1)
    assert_eq!(estimate_height(&blocks, 0), 2 + 8 + 1 + 101);
}

#[test]
fn spans_to_line_styles_each_kind() {
    let theme = Theme::from_name(&ThemeName::Hacker);
    let spans = vec![
        Span::Plain("p".into()),
        Span::Bold("b".into()),
        Span::Italic("i".into()),
        Span::Code("c".into()),
    ];
    let line = spans_to_line(&spans, &theme);
    assert_eq!(line[0].style, theme.body_style());
    assert_eq!(line[1].style, theme.bold_style());
    assert_eq!(line[2].style, theme.italic_style());
    assert_eq!(line[3].style, theme.code_style());
    assert_eq!(line[3].text, "`c`");
}

#[test]
fn typewriter_shows_prefix_and_cursor() {
    let bold = Style { fg: None, bg: None, bold: true, italic: false };
    let plain = Style { fg: None, bg: None, bold: false, italic: false };
    let cursor = Style { fg: None, bg: None, bold: false, italic: true };
    let spans = vec![
        StyledSpan { text: "héllo".into(), style: bold },
        StyledSpan { text: " world".into(), style: plain },
    ];
    let none = typewriter_partial_line(&spans, 0, cursor);
    assert_eq!(none, vec![StyledSpan { text: "▌".into(), style: cursor }]);
    let part = typewriter_partial_line(&spans, 3, cursor);
    assert_eq!(
        part,
        vec![
            StyledSpan { text: "hél".into(), style: bold },
            StyledSpan { text: "▌".into(), style: cursor },
        ]
    );
    let exact = typewriter_partial_line(&spans, 5, cursor);
    assert_eq!(exact.len(), 2);
    assert_eq!(exact[0].text, "héllo");
    let across = typewriter_partial_line(&spans, 7, cursor);
    assert_eq!(across[1], StyledSpan { text: " w".into(), style: plain });
    let all = typewriter_partial_line(&spans, 100, cursor);
    assert_eq!(all.len(), 3);
    assert_eq!(all[1].text, " world");
}

#[test]
fn status_line_segments() {
    let info = StatusBar {
        title: "Talk",
        author: Some("Ann"),
        slide_num: 3,
        total: 12,
        elapsed_secs: 125,
    };
    let s = status_line(&info, 40);
    assert_eq!(s.left, " Talk — Ann ");
    assert_eq!(s.center, " 3/12 ");
    assert_eq!(s.right, " 02:05 ");
    // 12 + 6 + 7 = 25 columns used, 15 left: 7 before, 8 after.
    assert_eq!(s.left_pad, 7);
    assert_eq!(s.right_pad, 8);
    let info = StatusBar { title: "T", author: Some(""), slide_num: 1, total: 1, elapsed_secs: 0 };
    let s = status_line(&info, 5);
    assert_eq!(s.left, " T ");
    assert_eq!(s.left_pad + s.right_pad, 0);
}

#[test]
fn overlays_are_centred() {
    let h = help_overlay_rect(rect(0, 0, 100, 40));
    assert_eq!(h, rect(31, 11, 38, 18));
    let g = goto_overlay_rect(rect(0, 0, 10, 9));
    assert_eq!(g, rect(0, 4, 22, 3));
    let c = centered_area(rect(3, 2, 94, 46), 12);
    assert_eq!(c, rect(3, 19, 94, 12));
    let c = centered_area(rect(3, 2, 94, 10), 12);
    assert_eq!(c, rect(3, 2, 94, 10));
}

#[test]
fn presenter_texts() {
    assert_eq!(clock_text(3671), "61:11");
    assert_eq!(clock_text(9), "00:09");
    assert_eq!(notes_text(&["a".to_string(), "b".to_string()]), "a\nb");
    assert_eq!(notes_text(&[]), "");
}

#[test]
fn estimate_height_saturates_instead_of_wrapping() {
    let blocks = vec![Block::Heading { level: 1, text: "T".into() }; 8192];
    assert_eq!(estimate_height(&blocks, 80), u16::MAX);
    let items: Vec<ListItem> = (0..70000).map(|_| ListItem { spans: vec![] }).collect();
    assert_eq!(estimate_height(&[Block::BulletList { items }], 80), u16::MAX);
}
