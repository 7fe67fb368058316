use iced_tui::AnsiColor;
use iced_tui::Cell;
use iced_tui::CursorPosition;
use iced_tui::CursorShape;
use iced_tui::CursorStyle;
use iced_tui::Primitive;
use iced_tui::PrimitiveCell;
use iced_tui::Style;
use iced_tui::TermColor;

fn red() -> Style {
    Style::new().fg(TermColor::Ansi(AnsiColor::Red))
}

fn on_blue() -> Style {
    Style::new().bg(TermColor::Ansi(AnsiColor::Blue))
}

#[test]
fn it_works() {
    assert_eq!(2 + 2, 4);
}

#[test]
fn default_cell_is_transparent() {
    let cell = Cell::default();
    assert_eq!(cell.content, None);
    assert_eq!(cell.style, Style::default());
    assert!(cell.is_empty());
    assert!(!Cell::from_char(' ').is_empty());
    assert!(!Cell::default().style(red()).is_empty());
}

#[test]
fn cell_from_char_has_the_glyph_and_no_style() {
    let cell = Cell::from_char('x');
    assert_eq!(cell.content, Some('x'));
    assert!(cell.style.is_empty());
}

#[test]
fn cell_merge_replaces_the_glyph_only_where_the_overlay_has_one() {
    let mut cell = Cell::from_char('a').style(red());
    cell.merge(Cell::default().style(on_blue()));
    assert_eq!(cell.content, Some('a'));
    assert_eq!(cell.style, red().bg(TermColor::Ansi(AnsiColor::Blue)));

    cell.merge(Cell::from_char('b'));
    assert_eq!(cell.content, Some('b'));
    assert_eq!(cell.style, red().bg(TermColor::Ansi(AnsiColor::Blue)));
}

#[test]
fn cell_merge_with_the_transparent_cell_changes_nothing() {
    let mut cell = Cell::from_char('a').style(red().bold());
    cell.merge(Cell::default());
    assert_eq!(cell, Cell::from_char('a').style(red().bold()));

    let mut base = Cell::default();
    base.merge(cell);
    assert_eq!(base, cell);
}

#[test]
fn a_space_is_a_glyph() {
    let mut cell = Cell::from_char('a');
    cell.merge(Cell::from_char(' '));
    assert_eq!(cell.content, Some(' '));
}

#[test]
fn cell_merge_is_associative() {
    let a = Cell::from_char('a').style(red());
    let b = Cell::default().style(on_blue().bold());
    let c = Cell::from_char('c');

    let mut left = a;
    left.merge(b);
    left.merge(c);

    let mut bc = b;
    bc.merge(c);
    let mut right = a;
    right.merge(bc);

    assert_eq!(left, right);
}

#[test]
fn primitive_cell_from_char_places_an_unstyled_glyph() {
    let placed = PrimitiveCell::from_char(3, 4, 'z');
    assert_eq!(placed, PrimitiveCell::new(3, 4, Cell::from_char('z')));
    assert_eq!(placed.x, 3);
    assert_eq!(placed.y, 4);
}

#[test]
fn cursor_position_keeps_its_parts() {
    let style = CursorStyle::default().blinking(false);
    let cursor = CursorPosition::new(5, 6, style);
    assert_eq!(cursor.x, 5);
    assert_eq!(cursor.y, 6);
    assert_eq!(cursor.style, style);
}

#[test]
fn merge_of_nothing_is_the_empty_primitive() {
    let merged = Primitive::merge(vec![]);
    assert!(merged.is_empty());
    assert_eq!(merged.len(), 0);
    assert_eq!(merged.cursor_position(), None);
    assert_eq!(merged, Primitive::default());
}

#[test]
fn merge_of_one_is_that_primitive() {
    let p = Primitive::rectangle(1, 2, 3, 2, Cell::from_char('x').style(red()))
        .with_cursor(CursorPosition::new(1, 1, CursorStyle::default()));
    let merged = Primitive::merge(vec![p.clone()]);
    assert_eq!(merged, p);
    assert_eq!(merged.len(), 6);
}

#[test]
fn merge_lets_the_later_cell_override_the_set_fields() {
    let a = Primitive::from_cell(2, 3, Cell::from_char('a').style(red()));
    let b = Primitive::from_cell(2, 3, Cell::default().style(on_blue()));
    let merged = Primitive::merge(vec![a, b]);
    assert_eq!(
        merged.get(2, 3),
        Some(Cell::from_char('a').style(red().bg(TermColor::Ansi(AnsiColor::Blue))))
    );
    assert_eq!(merged.len(), 1);

    let a = Primitive::from_cell(2, 3, Cell::from_char('a').style(red()));
    let c = Primitive::from_cell(2, 3, Cell::from_char('c').style(Style::new().fg(TermColor::Rgb(1, 2, 3))));
    let merged = Primitive::merge(vec![a, c]);
    assert_eq!(
        merged.get(2, 3),
        Some(Cell::from_char('c').style(Style::new().fg(TermColor::Rgb(1, 2, 3))))
    );
}

#[test]
fn merge_keeps_cells_that_only_one_primitive_draws() {
    let a = Primitive::from_char(0, 0, 'a');
    let b = Primitive::from_char(1, 0, 'b');
    let merged = Primitive::merge(vec![a, b]);
    assert_eq!(merged.get(0, 0), Some(Cell::from_char('a')));
    assert_eq!(merged.get(1, 0), Some(Cell::from_char('b')));
    assert_eq!(merged.get(2, 0), None);
    assert_eq!(merged.len(), 2);
}

#[test]
fn merge_goes_from_left_to_right() {
    let merged = Primitive::merge(vec![
        Primitive::from_char(0, 0, 'a'),
        Primitive::from_char(0, 0, 'b'),
        Primitive::from_char(0, 0, 'c'),
    ]);
    assert_eq!(merged.get(0, 0), Some(Cell::from_char('c')));
}

#[test]
fn merge_can_be_split_anywhere() {
    let a = Primitive::rectangle(0, 0, 3, 1, Cell::from_char('a').style(red()));
    let b = Primitive::rectangle(1, 0, 3, 1, Cell::default().style(on_blue()));
    let c = Primitive::from_char(2, 0, 'c');

    let flat = Primitive::merge(vec![a.clone(), b.clone(), c.clone()]);
    let left = Primitive::merge(vec![Primitive::merge(vec![a.clone(), b.clone()]), c.clone()]);
    let right = Primitive::merge(vec![a, Primitive::merge(vec![b, c])]);
    assert_eq!(flat, left);
    assert_eq!(flat, right);
}

#[test]
fn merge_takes_the_last_cursor() {
    let line = CursorPosition::new(1, 1, CursorStyle::default());
    let block = CursorPosition::new(
        2,
        2,
        CursorStyle { shape: CursorShape::Block, blinking: false },
    );
    let merged = Primitive::merge(vec![
        Primitive::default().with_cursor(line),
        Primitive::from_char(0, 0, 'a'),
    ]);
    assert_eq!(merged.cursor_position(), Some(line));

    let merged = Primitive::merge(vec![
        Primitive::default().with_cursor(line),
        Primitive::default().with_cursor(block),
        Primitive::from_char(0, 0, 'a'),
    ]);
    assert_eq!(merged.cursor_position(), Some(block));
}

#[test]
fn rectangle_fills_its_coordinates() {
    let fill = Cell::from_char('#');
    let p = Primitive::rectangle(2, 3, 4, 2, fill);
    assert_eq!(p.len(), 8);
    for x in 2..6 {
        for y in 3..5 {
            assert_eq!(p.get(x, y), Some(fill));
        }
    }
    assert_eq!(p.get(1, 3), None);
    assert_eq!(p.get(6, 3), None);
    assert_eq!(p.get(2, 2), None);
    assert_eq!(p.get(2, 5), None);
    assert_eq!(p.cursor_position(), None);
}

#[test]
fn rectangle_without_width_or_height_is_empty() {
    assert!(Primitive::rectangle(2, 3, 0, 5, Cell::from_char('#')).is_empty());
    assert!(Primitive::rectangle(2, 3, 5, 0, Cell::from_char('#')).is_empty());
}

#[test]
fn rectangle_of_transparent_cells_is_empty() {
    assert!(Primitive::rectangle(0, 0, 10, 10, Cell::default()).is_empty());
    assert!(!Primitive::rectangle(0, 0, 10, 10, Cell::default().style(red())).is_empty());
}

#[test]
fn rectangle_stops_at_the_last_coordinate() {
    let p = Primitive::rectangle(u16::MAX - 1, u16::MAX, 5, 5, Cell::from_char('#'));
    assert_eq!(p.len(), 2);
    assert_eq!(p.get(u16::MAX - 1, u16::MAX), Some(Cell::from_char('#')));
    assert_eq!(p.get(u16::MAX, u16::MAX), Some(Cell::from_char('#')));
}

#[test]
fn from_cells_lets_the_later_cell_replace_the_earlier() {
    let p = Primitive::from_cells(vec![
        PrimitiveCell::new(1, 1, Cell::from_char('a').style(red())),
        PrimitiveCell::from_char(2, 1, 'b'),
        PrimitiveCell::from_char(1, 1, 'c'),
    ]);
    assert_eq!(p.len(), 2);
    assert_eq!(p.get(1, 1), Some(Cell::from_char('c')));
    assert_eq!(p.get(2, 1), Some(Cell::from_char('b')));
}

#[test]
fn from_cells_of_nothing_is_empty() {
    assert_eq!(Primitive::from_cells(vec![]), Primitive::default());
}

#[test]
fn cut_to_offset_keeps_a_window_of_rows() {
    let p = Primitive::from_cells(vec![
        PrimitiveCell::from_char(0, 0, 'a'),
        PrimitiveCell::from_char(0, 1, 'b'),
        PrimitiveCell::from_char(3, 2, 'c'),
        PrimitiveCell::from_char(0, 3, 'd'),
    ]);
    let cut = p.cut_to_offset(1, 2);
    assert_eq!(cut.len(), 2);
    assert_eq!(cut.get(0, 0), Some(Cell::from_char('b')));
    assert_eq!(cut.get(3, 1), Some(Cell::from_char('c')));
    assert_eq!(cut.get(0, 2), None);
}

#[test]
fn cut_to_offset_keeps_the_cursor() {
    let cursor = CursorPosition::new(4, 4, CursorStyle::default());
    let cut = Primitive::from_char(0, 9, 'x').with_cursor(cursor).cut_to_offset(9, u16::MAX);
    assert_eq!(cut.get(0, 0), Some(Cell::from_char('x')));
    assert_eq!(cut.cursor_position(), Some(cursor));
}

#[test]
fn primitives_compare_by_what_they_draw() {
    let a = Primitive::merge(vec![Primitive::from_char(0, 0, 'a'), Primitive::from_char(1, 0, 'b')]);
    let b = Primitive::from_cells(vec![
        PrimitiveCell::from_char(1, 0, 'b'),
        PrimitiveCell::from_char(0, 0, 'a'),
    ]);
    assert_eq!(a, b);
    assert_ne!(a, Primitive::from_char(0, 0, 'a'));
    assert_ne!(a, b.clone().with_cursor(CursorPosition::new(0, 0, CursorStyle::default())));
    assert_ne!(
        Primitive::from_char(0, 0, 'a'),
        Primitive::from_char(0, 0, 'b')
    );
    assert_ne!(
        Primitive::from_char(0, 0, 'a'),
        Primitive::from_char(0, 1, 'a')
    );
}
