use poemgrid::grid::{Area, Cell, Color, GridBuffer, Symbol};
use poemgrid::poem::{Action, Direction, InputResult, KeyEvent, Mode, Poem};

fn initial() -> Cell {
    Cell { symbol: Symbol::One('A'), fg: Color::Reset, bg: Color::Reset }
}

#[test]
fn normal_grammar_table() {
    let m = Mode::Normal;
    assert_eq!(m.translate_event_to_action(KeyEvent::Char('h')), Action::Move(Direction::Left));
    assert_eq!(m.translate_event_to_action(KeyEvent::Char('j')), Action::Move(Direction::Down));
    assert_eq!(m.translate_event_to_action(KeyEvent::Char('k')), Action::Move(Direction::Up));
    assert_eq!(m.translate_event_to_action(KeyEvent::Char('l')), Action::Move(Direction::Right));
    assert_eq!(m.translate_event_to_action(KeyEvent::Char('i')), Action::SwitchMode(Mode::Insert));
    assert_eq!(m.translate_event_to_action(KeyEvent::Char('x')), Action::Ignore);
    assert_eq!(m.translate_event_to_action(KeyEvent::Esc), Action::Ignore);
    assert_eq!(m.translate_event_to_action(KeyEvent::Other), Action::Ignore);
}

#[test]
fn insert_grammar_table() {
    let m = Mode::Insert;
    assert_eq!(m.translate_event_to_action(KeyEvent::Esc), Action::SwitchMode(Mode::Normal));
    assert_eq!(m.translate_event_to_action(KeyEvent::Char('x')), Action::PutChar('x'));
    assert_eq!(m.translate_event_to_action(KeyEvent::Char('h')), Action::PutChar('h'));
    assert_eq!(m.translate_event_to_action(KeyEvent::Other), Action::Ignore);
}

#[test]
fn right_right_up_then_down() {
    let mut p = Poem::new(10, 10);
    assert_eq!(p.handle(KeyEvent::Char('l')), InputResult::Done);
    assert_eq!(p.handle(KeyEvent::Char('l')), InputResult::Done);
    assert_eq!((p.cursor_x(), p.cursor_y()), (2, 0));
    // `k` at the top row issues no vertical move.
    assert_eq!(p.handle(KeyEvent::Char('k')), InputResult::Done);
    assert_eq!((p.cursor_x(), p.cursor_y()), (2, 0));
    assert_eq!(p.handle(KeyEvent::Char('j')), InputResult::Done);
    assert_eq!((p.cursor_x(), p.cursor_y()), (2, 1));
}

#[test]
fn left_at_origin_saturates() {
    let mut p = Poem::new(10, 10);
    assert_eq!(p.handle(KeyEvent::Char('h')), InputResult::Done);
    assert_eq!((p.cursor_x(), p.cursor_y()), (0, 0));
}

#[test]
fn movement_clamps_at_far_edges() {
    let mut p = Poem::new(2, 2);
    for _ in 0..5 {
        p.handle(KeyEvent::Char('l'));
        p.handle(KeyEvent::Char('j'));
    }
    assert_eq!((p.cursor_x(), p.cursor_y()), (1, 1));
}

#[test]
fn insert_edit_escape_round_trip() {
    let mut p = Poem::new(10, 10);
    assert_eq!(p.handle(KeyEvent::Char('i')), InputResult::Done);
    assert_eq!(p.mode(), Mode::Insert);
    assert_eq!((p.cursor_x(), p.cursor_y()), (0, 0));
    assert_eq!(p.cell(0, 0), initial());
    assert_eq!(p.handle(KeyEvent::Char('x')), InputResult::Done);
    assert_eq!(p.cell(0, 0).symbol, Symbol::One('x'));
    // Colors of the overwritten cell are kept.
    assert_eq!(p.cell(0, 0).fg, Color::Reset);
    assert_eq!(p.cell(0, 0).bg, Color::Reset);
    assert_eq!((p.cursor_x(), p.cursor_y()), (0, 0));
    assert_eq!(p.mode(), Mode::Insert);
    assert_eq!(p.handle(KeyEvent::Esc), InputResult::Done);
    assert_eq!(p.mode(), Mode::Normal);
    assert_eq!(p.cell(0, 0).symbol, Symbol::One('x'));
    assert_eq!(p.cell(1, 0), initial());
}

#[test]
fn unmatched_keys_are_handed_back() {
    let mut p = Poem::new(10, 10);
    // Not part of the Normal grammar.
    assert_eq!(p.handle(KeyEvent::Char('z')), InputResult::Ignored(KeyEvent::Char('z')));
    assert_eq!(p.handle(KeyEvent::Esc), InputResult::Ignored(KeyEvent::Esc));
    assert_eq!(p.handle(KeyEvent::Other), InputResult::Ignored(KeyEvent::Other));
    assert_eq!((p.cursor_x(), p.cursor_y()), (0, 0));
    assert_eq!(p.mode(), Mode::Normal);
    assert_eq!(p.cell(0, 0), initial());
    // Not part of the Insert grammar.
    p.handle(KeyEvent::Char('i'));
    assert_eq!(p.handle(KeyEvent::Other), InputResult::Ignored(KeyEvent::Other));
    assert_eq!(p.mode(), Mode::Insert);
    assert_eq!(p.cell(0, 0), initial());
}

#[test]
fn end_to_end_edit_scenario() {
    let mut p = Poem::new(10, 10);
    for x in 0..10 {
        for y in 0..10 {
            assert_eq!(p.cell(x, y), initial());
        }
    }
    for key in [
        KeyEvent::Char('l'),
        KeyEvent::Char('l'),
        KeyEvent::Char('i'),
        KeyEvent::Char('B'),
        KeyEvent::Esc,
        KeyEvent::Char('h'),
    ] {
        assert_eq!(p.handle(key), InputResult::Done);
    }
    assert_eq!(p.cell(2, 0).symbol, Symbol::One('B'));
    for x in 0..10 {
        for y in 0..10 {
            if (x, y) != (2, 0) {
                assert_eq!(p.cell(x, y), initial());
            }
        }
    }
    assert_eq!((p.cursor_x(), p.cursor_y()), (1, 0));
    assert_eq!(p.mode(), Mode::Normal);
}

#[test]
fn draw_overlays_cursor_colors_in_normal_mode() {
    let p = Poem::new(2, 2);
    let mut dest = GridBuffer::new(
        4,
        4,
        Cell { symbol: Symbol::One('.'), fg: Color::Reset, bg: Color::Reset },
    );
    p.draw(Area::new(1, 1, 2, 2), &mut dest);
    // The cursor cell keeps its symbol under the Normal highlight.
    assert_eq!(
        dest.get(1, 1),
        Cell { symbol: Symbol::One('A'), fg: Color::White, bg: Color::Blue }
    );
    // The rest of the buffer is copied with its own colors.
    assert_eq!(dest.get(2, 1), initial());
    assert_eq!(dest.get(1, 2), initial());
    assert_eq!(dest.get(2, 2), initial());
    // Outside the area nothing changes.
    assert_eq!(dest.get(0, 0).symbol, Symbol::One('.'));
    assert_eq!(dest.get(3, 3).symbol, Symbol::One('.'));
}

#[test]
fn draw_overlays_inverted_colors_in_insert_mode() {
    let mut p = Poem::new(2, 2);
    p.handle(KeyEvent::Char('l'));
    p.handle(KeyEvent::Char('i'));
    let mut dest = GridBuffer::new(
        4,
        4,
        Cell { symbol: Symbol::One('.'), fg: Color::Reset, bg: Color::Reset },
    );
    p.draw(Area::new(0, 0, 2, 2), &mut dest);
    assert_eq!(
        dest.get(1, 0),
        Cell { symbol: Symbol::One('A'), fg: Color::Blue, bg: Color::White }
    );
    assert_eq!(dest.get(0, 0), initial());
}
