# deck

Terminal presentations: Markdown slides with TOML frontmatter, progressive
bullet reveal, column layouts, speaker notes, a presenter view that drives
follower screens through a small sync file, big ASCII headings, images and
animated backgrounds.

## Layout

- `src/` — the library, verified with Verus:
  - `parse.rs`: frontmatter, slide splitting, per-slide directives, columns,
    the whole deck;
  - `markdown.rs`: the block/span model built from a CommonMark event stream;
  - `session.rs`: the running presentation — navigation, key handling, the
    follower's position — with its laws (previous undoes next, positions stay
    valid, a follower takes the presenter's position);
  - `input.rs`, `sync.rs`, `layout.rs`, `graphics.rs`, `image.rs`,
    `bigtext.rs`, `glyphs.rs`, `entrance.rs`, `transition.rs`, `theme.rs`,
    `background.rs`, `util.rs`, `text.rs`, `clock.rs`, `highlight.rs`
    (syntect highlighting with its cache).
- `app/` — the `deck` program: command line, terminal event loop, drawing
  with ratatui, file I/O for decks, images and the sync file, and the
  floating-point animations.
- `tests/` — tests of the library.
