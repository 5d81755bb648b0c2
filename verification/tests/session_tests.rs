use deck::input::Key;
use deck::markdown::{Block, ListItem, Span};
use deck::parse::{Deck, DeckMeta, Layout, Slide};
use deck::session::{count_bullets, initial_reveal, visible_blocks, App};
use deck::sync::{parse_sync_payload, sync_payload, SyncFile};
use deck::theme::{Theme, ThemeName};

fn dummy_slide(blocks: Vec<Block>) -> Slide {
    Slide { blocks, layout: Layout::Default, columns: None, notes: vec![], background: None }
}

fn bullet_list(n: usize) -> Block {
    Block::BulletList {
        items: (0..n)
            .map(|i| ListItem { spans: vec![Span::Plain(format!("item {i}"))] })
            .collect(),
    }
}

fn heading(level: u8, text: &str) -> Block {
    Block::Heading { level, text: text.to_string() }
}

fn make_deck(slides: Vec<Slide>) -> Deck {
    Deck { meta: DeckMeta::default(), slides }
}

fn make_app(slides: Vec<Slide>) -> App {
    let theme = Theme::from_name(&ThemeName::Hacker);
    App::new(make_deck(slides), theme, None, false)
}

fn sync_for(label: &str) -> SyncFile {
    SyncFile::for_file("/tmp/deck", &format!("/__deck_test__{label}"))
}

/// What the follower's event loop does each turn: read the shared file
/// (here a string standing in for it) and hand the position to `tick`.
fn follower_tick(app: &mut App, file: &Option<String>) {
    let read = match (&app.sync, file) {
        (Some(_), Some(content)) => parse_sync_payload(content),
        _ => None,
    };
    app.tick(read);
}

/// What the presenter's event loop does with a move: write the position.
fn presenter_write(app: &App, out: Option<(usize, usize)>, file: &mut Option<String>) {
    if let (Some(_), Some((slide, reveal))) = (&app.sync, out) {
        *file = Some(sync_payload(slide, reveal));
    }
}

#[test]
fn count_bullets_empty_slide() {
    let slide = dummy_slide(vec![]);
    assert_eq!(count_bullets(&slide), 0);
}

#[test]
fn count_bullets_ignores_numbered_lists() {
    let slide = dummy_slide(vec![
        bullet_list(3),
        Block::NumberedList { items: vec![ListItem { spans: vec![Span::Plain("x".into())] }] },
    ]);
    assert_eq!(count_bullets(&slide), 3);
}

#[test]
fn count_bullets_sums_multiple_lists() {
    let slide = dummy_slide(vec![bullet_list(2), bullet_list(3)]);
    assert_eq!(count_bullets(&slide), 5);
}

#[test]
fn initial_reveal_with_bullets_returns_zero() {
    let slide = dummy_slide(vec![bullet_list(3)]);
    assert_eq!(initial_reveal(&slide), 0);
}

#[test]
fn initial_reveal_without_bullets_returns_max() {
    let slide = dummy_slide(vec![heading(1, "Hi")]);
    assert_eq!(initial_reveal(&slide), usize::MAX);
}

#[test]
fn advance_reveals_next_bullet() {
    let mut app = make_app(vec![dummy_slide(vec![bullet_list(3)])]);
    assert_eq!(app.reveal_count, 0);
    app.advance();
    assert_eq!(app.reveal_count, 1);
    app.advance();
    assert_eq!(app.reveal_count, 2);
}

#[test]
fn advance_moves_to_next_slide_when_all_revealed() {
    let mut app =
        make_app(vec![dummy_slide(vec![bullet_list(1)]), dummy_slide(vec![heading(1, "Two")])]);
    app.advance();
    assert_eq!(app.slide_index, 0);
    app.advance();
    assert_eq!(app.slide_index, 1);
}

#[test]
fn advance_stays_on_last_slide() {
    let mut app = make_app(vec![dummy_slide(vec![heading(1, "Only")])]);
    app.advance();
    assert_eq!(app.slide_index, 0);
}

#[test]
fn go_back_hides_last_bullet() {
    let mut app = make_app(vec![dummy_slide(vec![bullet_list(3)])]);
    app.advance();
    app.advance();
    assert_eq!(app.reveal_count, 2);
    app.go_back();
    assert_eq!(app.reveal_count, 1);
}

#[test]
fn go_back_moves_to_previous_slide() {
    let mut app =
        make_app(vec![dummy_slide(vec![bullet_list(1)]), dummy_slide(vec![heading(1, "Two")])]);
    app.advance();
    app.advance();
    assert_eq!(app.slide_index, 1);
    app.go_back();
    assert_eq!(app.slide_index, 0);
    assert_eq!(app.reveal_count, 1);
}

#[test]
fn go_back_stays_on_first_slide() {
    let mut app = make_app(vec![dummy_slide(vec![heading(1, "First")])]);
    app.go_back();
    assert_eq!(app.slide_index, 0);
}

#[test]
fn go_to_jumps_to_valid_index() {
    let mut app = make_app(vec![dummy_slide(vec![]), dummy_slide(vec![]), dummy_slide(vec![])]);
    app.go_to(2);
    assert_eq!(app.slide_index, 2);
}

#[test]
fn go_to_clamps_out_of_bounds() {
    let mut app = make_app(vec![dummy_slide(vec![]), dummy_slide(vec![])]);
    app.go_to(100);
    assert_eq!(app.slide_index, 1);
}

#[test]
fn go_to_noop_when_already_there() {
    let mut app = make_app(vec![dummy_slide(vec![]), dummy_slide(vec![])]);
    app.go_to(0);
    assert!(app.transition.is_none());
}

#[test]
fn handle_key_quit_returns_true() {
    let mut app = make_app(vec![dummy_slide(vec![])]);
    assert!(app.handle_key(Key::Char('q')).quit);
}

#[test]
fn handle_key_quit_closes_help_first() {
    let mut app = make_app(vec![dummy_slide(vec![])]);
    app.show_help = true;
    assert!(!app.handle_key(Key::Char('q')).quit);
    assert!(!app.show_help);
}

#[test]
fn handle_key_follower_ignores_navigation() {
    let mut app = make_app(vec![dummy_slide(vec![]), dummy_slide(vec![])]);
    app.is_follower = true;
    assert!(!app.handle_key(Key::Right).quit);
    assert_eq!(app.slide_index, 0);
}

#[test]
fn presenter_writes_sync_follower_reads() {
    let mk_slides = || {
        vec![
            dummy_slide(vec![heading(1, "One")]),
            dummy_slide(vec![heading(1, "Two")]),
            dummy_slide(vec![heading(1, "Three")]),
        ]
    };
    let theme = Theme::from_name(&ThemeName::Hacker);
    let mut presenter =
        App::new(make_deck(mk_slides()), theme, Some(sync_for("presenter_follower")), false);
    let theme2 = Theme::from_name(&ThemeName::Hacker);
    let mut follower =
        App::new(make_deck(mk_slides()), theme2, Some(sync_for("presenter_follower")), true);

    let mut file: Option<String> = None;
    assert_eq!(presenter.slide_index, 0);
    assert_eq!(follower.slide_index, 0);

    let out = presenter.advance();
    presenter_write(&presenter, out, &mut file);
    assert_eq!(presenter.slide_index, 1);
    follower_tick(&mut follower, &file);
    assert_eq!(follower.slide_index, 1, "follower should sync to slide 1");

    let out = presenter.advance();
    presenter_write(&presenter, out, &mut file);
    assert_eq!(presenter.slide_index, 2);
    follower_tick(&mut follower, &file);
    assert_eq!(follower.slide_index, 2, "follower should sync to slide 2");

}

#[test]
fn presenter_sync_with_bullet_reveals() {
    let mk_slides = || {
        vec![
            dummy_slide(vec![heading(1, "Title")]),
            dummy_slide(vec![heading(2, "Bullets"), bullet_list(3)]),
            dummy_slide(vec![heading(1, "End")]),
        ]
    };
    let theme = Theme::from_name(&ThemeName::Hacker);
    let mut presenter =
        App::new(make_deck(mk_slides()), theme, Some(sync_for("bullet_reveal")), false);
    let theme2 = Theme::from_name(&ThemeName::Hacker);
    let mut follower =
        App::new(make_deck(mk_slides()), theme2, Some(sync_for("bullet_reveal")), true);
    let mut file: Option<String> = None;

    let out = presenter.advance();
    presenter_write(&presenter, out, &mut file);
    assert_eq!(presenter.slide_index, 1);
    assert_eq!(presenter.reveal_count, 0);
    follower_tick(&mut follower, &file);
    assert_eq!(follower.slide_index, 1);
    assert_eq!(follower.reveal_count, 0);

    let out = presenter.advance();
    presenter_write(&presenter, out, &mut file);
    assert_eq!(presenter.slide_index, 1);
    assert_eq!(presenter.reveal_count, 1);
    follower_tick(&mut follower, &file);
    assert_eq!(follower.reveal_count, 1, "follower should sync reveal to 1");

    let out = presenter.advance();
    presenter_write(&presenter, out, &mut file);
    assert_eq!(presenter.reveal_count, 2);
    follower_tick(&mut follower, &file);
    assert_eq!(follower.reveal_count, 2, "follower should sync reveal to 2");

    let out = presenter.advance();
    presenter_write(&presenter, out, &mut file);
    assert_eq!(presenter.reveal_count, 3);
    follower_tick(&mut follower, &file);
    assert_eq!(follower.reveal_count, 3, "follower should sync reveal to 3");

    let out = presenter.advance();
    presenter_write(&presenter, out, &mut file);
    assert_eq!(presenter.slide_index, 2);
    follower_tick(&mut follower, &file);
    assert_eq!(follower.slide_index, 2, "follower should sync to slide 2");

}

#[test]
fn back_after_advance_returns_to_same_position() {
    let mut app = make_app(vec![
        dummy_slide(vec![bullet_list(2)]),
        dummy_slide(vec![heading(1, "Two")]),
        dummy_slide(vec![bullet_list(1)]),
    ]);
    let mut seen = Vec::new();
    for _ in 0..5 {
        seen.push((app.slide_index, app.reveal_count));
        app.advance();
    }
    for expected in seen.into_iter().rev() {
        app.go_back();
        assert_eq!((app.slide_index, app.reveal_count), expected);
    }
}

#[test]
fn presenter_move_reports_position_only_with_sync() {
    let mut plain = make_app(vec![dummy_slide(vec![]), dummy_slide(vec![])]);
    assert_eq!(plain.advance(), None);
    let theme = Theme::from_name(&ThemeName::Hacker);
    let mut synced = App::new(
        make_deck(vec![dummy_slide(vec![]), dummy_slide(vec![])]),
        theme,
        Some(sync_for("reports")),
        false,
    );
    assert_eq!(synced.advance(), Some((1, usize::MAX)));
}

#[test]
fn goto_typed_number_jumps_and_clamps() {
    let mut app = make_app(vec![dummy_slide(vec![]), dummy_slide(vec![]), dummy_slide(vec![])]);
    app.handle_key(Key::Char(':'));
    assert!(app.in_goto);
    app.handle_key(Key::Char('2'));
    assert_eq!(app.goto_input, "2");
    app.handle_key(Key::Enter);
    assert_eq!(app.slide_index, 1);
    assert!(!app.in_goto);
    assert_eq!(app.goto_input, "");
    app.handle_key(Key::Char(':'));
    app.handle_key(Key::Char('9'));
    app.handle_key(Key::Char('9'));
    app.handle_key(Key::Backspace);
    assert_eq!(app.goto_input, "9");
    app.handle_key(Key::Enter);
    assert_eq!(app.slide_index, 2);
    app.handle_key(Key::Char(':'));
    app.handle_key(Key::Char('0'));
    app.handle_key(Key::Enter);
    assert_eq!(app.slide_index, 0);
}

#[test]
fn goto_overflowing_number_is_ignored() {
    let mut app = make_app(vec![dummy_slide(vec![]), dummy_slide(vec![])]);
    app.handle_key(Key::Char(':'));
    for _ in 0..30 {
        app.handle_key(Key::Char('9'));
    }
    app.handle_key(Key::Enter);
    assert_eq!(app.slide_index, 0);
    assert!(!app.in_goto);
}

#[test]
fn deck_transition_overrides_theme_default() {
    let mut deck = make_deck(vec![dummy_slide(vec![]), dummy_slide(vec![])]);
    deck.meta.transition = deck::transition::TransitionKind::Fade;
    let mut app = App::new(deck, Theme::from_name(&ThemeName::Hacker), None, false);
    app.advance();
    assert_eq!(app.transition.as_ref().unwrap().kind, deck::transition::TransitionKind::Fade);
    let mut app = make_app(vec![dummy_slide(vec![]), dummy_slide(vec![])]);
    app.advance();
    assert_eq!(app.transition.as_ref().unwrap().kind, deck::transition::TransitionKind::Glitch);
}

#[test]
fn toggles_and_timer_reset() {
    let mut app = make_app(vec![dummy_slide(vec![])]);
    app.handle_key(Key::Char('p'));
    assert_eq!(app.mode, deck::session::Mode::Presenter);
    app.handle_key(Key::Char('p'));
    assert_eq!(app.mode, deck::session::Mode::Normal);
    app.handle_key(Key::Char('?'));
    assert!(app.show_help);
    let before = app.timer;
    assert!(!app.handle_key(Key::Char('r')).quit);
    assert!(app.timer >= before);
    assert!(!app.handle_key(Key::Other).quit);
}

#[test]
fn reveal_shows_blocks_up_to_first_hidden_bullet() {
    let blocks = vec![heading(2, "T"), bullet_list(2), Block::HorizontalRule, bullet_list(3), heading(2, "End")];
    assert_eq!(visible_blocks(&blocks, 0), vec![None]);
    assert_eq!(visible_blocks(&blocks, 1), vec![None, Some(1)]);
    assert_eq!(visible_blocks(&blocks, 2), vec![None, Some(2), None]);
    assert_eq!(visible_blocks(&blocks, 4), vec![None, Some(2), None, Some(2)]);
    assert_eq!(visible_blocks(&blocks, usize::MAX), vec![None, Some(2), None, Some(3), None]);
    let empty_list = vec![bullet_list(0), heading(1, "x")];
    assert_eq!(visible_blocks(&empty_list, 0), vec![Some(0), None]);
}

#[test]
fn tick_drops_a_transition_only_once_it_is_done() {
    let mut app = make_app(vec![dummy_slide(vec![]), dummy_slide(vec![])]);
    app.advance();
    assert!(app.transition.is_some());
    app.tick_at(None, false);
    assert!(app.transition.is_some());
    app.tick(None);
    assert!(app.transition.is_some()); // 400 ms have not passed
    app.tick_at(None, true);
    assert!(app.transition.is_none());
    assert_eq!(app.slide_index, 1);
}
