use accepted::draw::escape::row_escape;
use accepted::compiler::CompilerOutput;
use accepted::draw::char_style::{CharModification, CharStyle, Color, DiffStyle, StyleChange, TermColor};
use accepted::draw::cursor::{CursorShape, CursorState};
use accepted::draw::{styles, DoubleBuffer, LinenumView, Term, Tile};
use accepted::edit_core::{Cursor, CursorRange};
use accepted::numfmt::decimal_chars;
use accepted::search::find_chars;
use accepted::char_width::width_or_zero;

#[test]
fn new_screen_is_blank() {
    let t = Term::new(2, 3);
    assert_eq!(t.cursor, CursorState::Hide);
    let rows = t.render();
    assert_eq!(rows.len(), 2);
    assert!(rows.iter().all(|r| r.is_empty()));
}

#[test]
fn put_writes_and_wraps() {
    let mut t = Term::new(2, 3);
    let mut v = t.view((0, 0), 2, 3);
    let red = CharStyle::fg(Color::Rgb { r: 255, g: 0, b: 0 });
    assert_eq!(v.put(&mut t, 'a', red, None), Some(Cursor { row: 0, col: 0 }));
    assert_eq!(v.put(&mut t, 'b', red, None), Some(Cursor { row: 0, col: 1 }));
    // 'c' does not fit before the right edge: it goes on the next row
    assert_eq!(v.put(&mut t, 'c', red, None), Some(Cursor { row: 0, col: 2 }));
    assert_eq!(v.cursor, Cursor { row: 1, col: 1 });
    assert_eq!(t.buf[1][0], Tile::Char('c', red, None));
    let rows = t.render();
    assert_eq!(rows[0], vec![('a', red), ('b', red)]);
}

#[test]
fn put_out_of_view_does_nothing() {
    let mut t = Term::new(1, 2);
    let mut v = t.view((0, 0), 1, 2);
    v.put(&mut t, 'a', styles::default(), None);
    assert_eq!(v.put(&mut t, 'b', styles::default(), None), None);
    assert!(v.is_out());
    assert_eq!(v.put(&mut t, 'c', styles::default(), None), None);
}

#[test]
fn wide_chars_take_two_cells() {
    assert_eq!(width_or_zero('漢'), 2);
    assert_eq!(width_or_zero('a'), 1);
    assert_eq!(width_or_zero('\u{7}'), 0);
    let mut t = Term::new(1, 5);
    let mut v = t.view((0, 0), 1, 5);
    v.put(&mut t, '漢', styles::default(), None);
    assert_eq!(v.cursor, Cursor { row: 0, col: 2 });
    assert_eq!(t.buf[0][1], Tile::Empty);
}

#[test]
fn pos_finds_the_text_position_of_a_cell() {
    let mut t = Term::new(1, 4);
    let mut v = t.view((0, 0), 1, 4);
    let p = Cursor { row: 7, col: 3 };
    v.put(&mut t, 'x', styles::default(), Some(p));
    assert_eq!(t.pos(Cursor { row: 0, col: 2 }), Some(p));
    assert_eq!(t.pos(Cursor { row: 0, col: 0 }), Some(p));
}

#[test]
fn present_plan_finds_changed_rows() {
    let mut db = DoubleBuffer::new(3, 4);
    let plan = db.present_plan();
    assert_eq!(plan.lines, Some(vec![]));
    assert!(!plan.write_cursor);
    let mut v = db.view((1, 0), 1, 4);
    v.puts(&mut db.back, "hi", styles::default());
    let plan = db.present_plan();
    assert_eq!(plan.lines, Some(vec![1]));
    assert!(plan.write_cursor);
    db.redraw();
    assert_eq!(db.present_plan().lines, None);
    db.swap(3, 4);
    assert_eq!(db.front.render()[1], vec![('h', styles::default()), ('i', styles::default())]);
}

#[test]
fn line_numbers_and_markers() {
    assert_eq!(LinenumView::prefix_width(9), 4);
    assert_eq!(LinenumView::prefix_width(99), 5);
    let outputs = vec![CompilerOutput {
        message: "oops".to_string(),
        line: 0,
        level: "error".to_string(),
        span: CursorRange(Cursor { row: 0, col: 0 }, Cursor { row: 0, col: 0 }),
    }];
    let mut t = Term::new(2, 8);
    let v = t.view((0, 0), 2, 8);
    let mut lv = LinenumView::new(0, 9, &outputs, v, &mut t);
    assert_eq!(t.buf[0][0], Tile::Char('1', styles::ui(), None));
    assert_eq!(t.buf[0][3], Tile::Char('e', styles::highlight(), None));
    lv.put(&mut t, 'x', styles::default(), None);
    assert_eq!(lv.cursor(), Some(Cursor { row: 0, col: 5 }));
    lv.newline(&mut t);
    assert_eq!(t.buf[1][0], Tile::Char('2', styles::ui(), None));
}

#[test]
fn style_changes() {
    let a = CharStyle::fg_bg(Color::Rgb { r: 1, g: 2, b: 3 }, Color::Reset);
    let b = CharStyle::bg(Color::Rgb { r: 4, g: 5, b: 6 });
    let d = DiffStyle { is_ansi_color: false, from: a, to: b }.changes();
    assert_eq!(d.fg, Some(TermColor::Reset));
    assert_eq!(d.bg, Some(TermColor::Rgb(4, 5, 6)));
    assert_eq!(d.modification, None);
    let same = DiffStyle { is_ansi_color: false, from: a, to: a }.changes();
    assert_eq!(same.fg, None);
    assert_eq!(same.bg, None);
    let m = CharStyle { modification: CharModification::UnderLine, ..a };
    assert_eq!(
        DiffStyle { is_ansi_color: false, from: a, to: m }.changes().modification,
        Some(CharModification::UnderLine)
    );
}

#[test]
fn ansi_palette() {
    // pure red is entry 196 of the 256-colour palette
    assert_eq!(Color::Rgb { r: 255, g: 0, b: 0 }.to_ansi(), TermColor::Ansi(196));
    assert_eq!(Color::Reset.to_ansi(), TermColor::Reset);
}

#[test]
fn decimal_notation() {
    assert_eq!(decimal_chars(0), vec!['0']);
    assert_eq!(decimal_chars(1230), vec!['1', '2', '3', '0']);
}

#[test]
fn search_finds_char_positions() {
    assert_eq!(find_chars("abc", "xxabcabc"), Some(2));
    assert_eq!(find_chars("abc", "xxab"), None);
    // the byte offset of a match after a two-byte char is one char less
    assert_eq!(find_chars("b", "éb"), Some(1));
}

#[test]
fn escape_sequences_for_styles() {
    let ch = StyleChange {
        fg: Some(TermColor::Rgb(255, 0, 10)),
        bg: Some(TermColor::Ansi(196)),
        modification: Some(CharModification::UnderLine),
    };
    assert_eq!(ch.escape(), "\x1b[38;2;255;0;10m\x1b[48;5;196m\x1b[4m");
    let ch = StyleChange { fg: Some(TermColor::Reset), bg: None, modification: Some(CharModification::Default) };
    assert_eq!(ch.escape(), "\x1b[39m\x1b[24m");
    let none = StyleChange { fg: None, bg: Some(TermColor::Reset), modification: None };
    assert_eq!(none.escape(), "\x1b[49m");
}

#[test]
fn escape_sequences_for_the_cursor() {
    let s = CursorState::Show(Cursor { row: 2, col: 4 }, CursorShape::Bar);
    assert_eq!(s.escape(), "\x1b[3;5H\x1b[6 q\x1b[?25h");
    assert_eq!(CursorState::Hide.escape(), "\x1b[?25l");
    assert_eq!(CursorShape::Block.escape(), "\x1b[0 q");
    assert_eq!(CursorShape::Underline.escape(), "\x1b[4 q");
}

#[test]
fn a_row_goes_out_with_only_the_style_changes() {
    let plain = accepted::draw::styles::default();
    let under = CharStyle { modification: CharModification::UnderLine, ..plain };
    let row = vec![('a', plain), ('b', under), ('c', under)];
    let s = row_escape(&row, false);
    assert_eq!(s, "\x1b[38;2;255;255;255m\x1b[49m\x1b[24ma\x1b[4mbc");
}
