use iced_tui::AnsiColor;
use iced_tui::Cell;
use iced_tui::CursorPosition;
use iced_tui::CursorShape;
use iced_tui::CursorStyle;
use iced_tui::Primitive;
use iced_tui::Style;
use iced_tui::TermColor;
use iced_tui::VirtualBuffer;

#[test]
fn a_fresh_buffer_is_blank() {
    let buffer = VirtualBuffer::from_size(4, 3);
    assert_eq!(buffer.width(), 4);
    assert_eq!(buffer.height(), 3);
    assert_eq!(buffer.rows().len(), 3);
    for row in buffer.rows() {
        assert_eq!(row.len(), 4);
        for cell in row {
            assert_eq!(*cell, Cell::default());
        }
    }
    assert_eq!(buffer.cursor_position(), None);
}

#[test]
fn a_buffer_without_rows_or_columns_is_allowed() {
    let buffer = VirtualBuffer::from_size(0, 0);
    assert!(buffer.rows().is_empty());
    let buffer = VirtualBuffer::from_size(0, 2);
    assert_eq!(buffer.rows().len(), 2);
    assert!(buffer.rows()[0].is_empty());
    let buffer = VirtualBuffer::from_size(2, 0);
    assert!(buffer.rows().is_empty());
}

#[test]
fn merging_a_primitive_fills_its_slots() {
    let mut buffer = VirtualBuffer::from_size(4, 3);
    buffer.merge_primitive(&Primitive::from_char(1, 2, 'x'));
    assert_eq!(buffer.rows()[2][1], Cell::from_char('x'));
    assert_eq!(buffer.rows()[1][2], Cell::default());
    assert_eq!(buffer.rows()[2][0], Cell::default());
}

#[test]
fn merging_twice_merges_cell_by_cell() {
    let red = Style::new().fg(TermColor::Ansi(AnsiColor::Red));
    let mut buffer = VirtualBuffer::from_size(4, 3);
    buffer.merge_primitive(&Primitive::rectangle(0, 0, 4, 3, Cell::default().style(red)));
    buffer.merge_primitive(&Primitive::from_char(1, 1, 'x'));
    assert_eq!(buffer.rows()[1][1], Cell::from_char('x').style(red));
    assert_eq!(buffer.rows()[0][0], Cell::default().style(red));
}

#[test]
fn cells_outside_the_buffer_are_clipped() {
    let mut buffer = VirtualBuffer::from_size(4, 3);
    buffer.merge_primitive(&Primitive::from_char(1, 1, 'a'));
    let before = buffer.clone();

    buffer.merge_primitive(&Primitive::merge(vec![
        Primitive::from_char(4, 0, 'x'),
        Primitive::from_char(0, 3, 'y'),
        Primitive::from_char(100, 100, 'z'),
        Primitive::from_char(u16::MAX, u16::MAX, 'w'),
    ]));
    assert_eq!(buffer, before);
    assert_eq!(buffer.rows()[1][1], Cell::from_char('a'));
}

#[test]
fn a_rectangle_that_leaves_the_buffer_is_cut() {
    let mut buffer = VirtualBuffer::from_size(3, 2);
    buffer.merge_primitive(&Primitive::rectangle(2, 1, 10, 10, Cell::from_char('#')));
    assert_eq!(buffer.rows()[1][2], Cell::from_char('#'));
    assert_eq!(buffer.rows()[1][1], Cell::default());
    assert_eq!(buffer.rows()[0][2], Cell::default());
    assert_eq!(buffer.width(), 3);
    assert_eq!(buffer.height(), 2);
}

#[test]
fn the_cursor_of_the_buffer_is_the_cursor_of_the_last_primitive() {
    let style = CursorStyle { shape: CursorShape::Block, blinking: false };
    let mut buffer = VirtualBuffer::from_size(4, 3);
    buffer.merge_primitive(&Primitive::default().with_cursor(CursorPosition::new(2, 1, style)));
    assert_eq!(buffer.cursor_position(), Some((2, 1, style)));

    buffer.merge_primitive(&Primitive::from_char(0, 0, 'a'));
    assert_eq!(buffer.cursor_position(), None);
}

#[test]
fn a_cursor_outside_the_buffer_is_kept_as_it_is() {
    let mut buffer = VirtualBuffer::from_size(4, 3);
    buffer.merge_primitive(
        &Primitive::default().with_cursor(CursorPosition::new(40, 30, CursorStyle::default())),
    );
    assert_eq!(buffer.cursor_position(), Some((40, 30, CursorStyle::default())));
}

#[test]
fn buffers_compare_by_size_cells_and_cursor() {
    let a = VirtualBuffer::from_size(4, 3);
    assert_eq!(a, VirtualBuffer::from_size(4, 3));
    assert_ne!(a, VirtualBuffer::from_size(3, 4));
    assert_ne!(a, VirtualBuffer::from_size(4, 4));

    let mut b = VirtualBuffer::from_size(4, 3);
    b.merge_primitive(&Primitive::from_char(3, 2, 'x'));
    assert_ne!(a, b);
    assert_eq!(b, b.clone());

    let mut c = VirtualBuffer::from_size(4, 3);
    c.merge_primitive(
        &Primitive::default().with_cursor(CursorPosition::new(0, 0, CursorStyle::default())),
    );
    assert_ne!(a, c);
}
