//! Text inputs: their style, how far they scroll and how one is drawn.

use super::primitives::placed_cells;
use super::primitives::Cell;
use super::primitives::CursorPosition;
use super::primitives::Primitive;
use super::primitives::PrimitiveCell;
use super::style::default_cursor_style;
use super::style::empty_style;
use super::style::merge_style;
use super::style::CursorStyle;
use super::style::Style;
use super::tui_renderer::TuiRenderer;
use super::utils::crop_fold;
use super::utils::crop_rules;
use super::utils::crop_text_to_bounds;
use super::utils::CropRules;
use vstd::prelude::*;

verus! {

/// The styles of a text input: the one it always has, the ones laid over it
/// while it has the focus or the pointer, the one laid over its placeholder,
/// and the look of its cursor.
#[derive(Debug, Clone, Copy, PartialEq, Eq, Structural)]
pub struct TextInputStyle {
    pub normal: Style,
    pub focused: Style,
    pub placeholder: Style,
    pub hover: Style,
    pub cursor: CursorStyle,
}

/// The text input style that sets nothing and shows the default cursor.
pub open spec fn plain_text_input_style() -> TextInputStyle {
    TextInputStyle {
        normal: empty_style(),
        focused: empty_style(),
        placeholder: empty_style(),
        hover: empty_style(),
        cursor: default_cursor_style(),
    }
}

impl Default for TextInputStyle {
    fn default() -> (style: TextInputStyle)
        ensures
            style == plain_text_input_style(),
    {
        TextInputStyle {
            normal: Style::new(),
            focused: Style::new(),
            placeholder: Style::new(),
            hover: Style::new(),
            cursor: CursorStyle::default(),
        }
    }
}

impl TextInputStyle {
    /// A text input style that sets nothing and shows the default cursor.
    pub fn new() -> (style: TextInputStyle)
        ensures
            style == plain_text_input_style(),
    {
        TextInputStyle::default()
    }

    /// Sets the style the input always has.
    pub fn normal(self, normal: Style) -> (style: TextInputStyle)
        ensures
            style == (TextInputStyle { normal, ..self }),
    {
        let mut style = self;
        style.normal = normal;
        style
    }

    /// Sets the style laid over the input while it has the focus.
    pub fn focused(self, focused: Style) -> (style: TextInputStyle)
        ensures
            style == (TextInputStyle { focused, ..self }),
    {
        let mut style = self;
        style.focused = focused;
        style
    }

    /// Sets the style laid over the placeholder.
    pub fn placeholder(self, placeholder: Style) -> (style: TextInputStyle)
        ensures
            style == (TextInputStyle { placeholder, ..self }),
    {
        let mut style = self;
        style.placeholder = placeholder;
        style
    }

    /// Sets the style laid over the input while the pointer is on it.
    pub fn hover(self, hover: Style) -> (style: TextInputStyle)
        ensures
            style == (TextInputStyle { hover, ..self }),
    {
        let mut style = self;
        style.hover = hover;
        style
    }

    /// Sets the look of the cursor.
    pub fn cursor(self, cursor: CursorStyle) -> (style: TextInputStyle)
        ensures
            style == (TextInputStyle { cursor, ..self }),
    {
        let mut style = self;
        style.cursor = cursor;
        style
    }
}

/// What a text input shows and in which state it is.
pub struct TextInput<'a> {
    /// The cell of the first glyph.
    pub start_x: u16,
    pub start_y: u16,
    /// The columns of the input.
    pub width: u16,
    /// The glyphs scrolled out on the left.
    pub offset: u16,
    /// The text typed so far.
    pub value: &'a str,
    /// The text shown while nothing is typed and the input has no focus.
    pub placeholder: &'a str,
    pub is_focused: bool,
    pub is_hovered: bool,
    /// The glyph before which the cursor stands.
    pub cursor_index: u16,
}

/// The rules by which the value of an input is measured and laid out: one
/// row without bounds, ended by the first line feed.
pub open spec fn value_rules(start_x: u16, start_y: u16, collect: bool, style: Style) -> CropRules {
    crop_rules(None, start_x, start_y, false, collect, style, false)
}

/// How far an input scrolls so that the glyph at `focused_index` is the last
/// one in view.
pub open spec fn scroll_offset(width: u16, focused_index: u16) -> int {
    if focused_index > width {
        focused_index - width
    } else {
        0
    }
}

/// Whether the input shows its placeholder: nothing is typed and it has no
/// focus.
pub open spec fn shows_placeholder(input: TextInput) -> bool {
    input.value@.len() == 0 && !input.is_focused
}

/// The style of the input's row: its normal style with the style of its
/// state laid over. Focus comes before the pointer.
pub open spec fn input_look(input: TextInput, style: TextInputStyle) -> Style {
    if input.is_focused {
        merge_style(style.normal, style.focused)
    } else if input.is_hovered {
        merge_style(style.normal, style.hover)
    } else {
        style.normal
    }
}

/// The style of the input's glyphs: the style of the row, with the
/// placeholder style laid over where the placeholder is shown.
pub open spec fn input_text_look(input: TextInput, style: TextInputStyle) -> Style {
    if shows_placeholder(input) {
        merge_style(input_look(input, style), style.placeholder)
    } else {
        input_look(input, style)
    }
}

/// The glyphs of the text that the input shows, before scrolling.
pub open spec fn input_glyphs(input: TextInput, style: TextInputStyle) -> Seq<PrimitiveCell> {
    crop_fold(
        value_rules(input.start_x, input.start_y, true, input_text_look(input, style)),
        if shows_placeholder(input) {
            input.placeholder@
        } else {
            input.value@
        },
    ).cells
}

/// The columns of the input whose coordinate exists.
pub open spec fn input_columns(input: TextInput) -> int {
    if input.start_x + input.width > 0x1_0000 {
        0x1_0000 - input.start_x
    } else {
        input.width as int
    }
}

/// The cell in column `index` of the input: the glyph that scrolling brings
/// there, or a cell in the style of the row where the text has ended.
pub open spec fn input_cell(input: TextInput, style: TextInputStyle, index: int) -> PrimitiveCell {
    let glyphs = input_glyphs(input, style);
    PrimitiveCell {
        x: (input.start_x + index) as u16,
        y: input.start_y,
        cell: if input.offset + index < glyphs.len() {
            glyphs[input.offset + index].cell
        } else {
            Cell { content: None, style: input_look(input, style) }
        },
    }
}

/// The row of the input, from left to right.
pub open spec fn input_row(input: TextInput, style: TextInputStyle) -> Seq<PrimitiveCell> {
    Seq::new(input_columns(input) as nat, |index: int| input_cell(input, style, index))
}

/// Where the cursor of the input goes: before the glyph at the cursor index,
/// as seen after scrolling, while the input has the focus and that cell
/// exists.
pub open spec fn input_cursor(input: TextInput, style: TextInputStyle) -> Option<CursorPosition> {
    let x = input.start_x + input.cursor_index - input.offset;
    if input.is_focused && 0 <= x <= u16::MAX {
        Some(CursorPosition { x: x as u16, y: input.start_y, style: style.cursor })
    } else {
        None
    }
}

impl TuiRenderer {
    /// The width of `value` on one row without bounds.
    pub fn measure_value(&self, value: &str) -> (width: u16)
        ensures
            width == crop_fold(value_rules(0, 0, false, empty_style()), value@).filled_width,
    {
        let (_, width, _) = crop_text_to_bounds(
            value,
            None,
            0,
            0,
            false,
            false,
            Style::new(),
            false,
        );
        width
    }

    /// How many glyphs an input of `text_bounds_width` columns scrolls out on
    /// the left so that the glyph at `focused_index` stays in view.
    pub fn offset(&self, text_bounds_width: u16, focused_index: u16) -> (offset: u16)
        ensures
            offset == scroll_offset(text_bounds_width, focused_index),
    {
        if focused_index > text_bounds_width {
            focused_index - text_bounds_width
        } else {
            0
        }
    }

    /// Draws a text input: one row of its width, filled with the glyphs in
    /// view and then with cells in the style of the row, and the cursor while
    /// the input has the focus.
    pub fn draw_text_input(&self, input: &TextInput<'_>, style: &TextInputStyle) -> (p: Primitive)
        ensures
            p@.cells == placed_cells(input_row(*input, *style)),
            p@.cursor == input_cursor(*input, *style),
    {
        let rendered_is_placeholder = input.value.is_empty() && !input.is_focused;
        let main_style = style.normal.try_merge(
            if input.is_focused {
                Some(style.focused)
            } else if input.is_hovered {
                Some(style.hover)
            } else {
                None
            },
        );
        let text_style = if rendered_is_placeholder {
            main_style.merge(style.placeholder)
        } else {
            main_style
        };
        let (parsed_primitives, _, _) = crop_text_to_bounds(
            if rendered_is_placeholder {
                input.placeholder
            } else {
                input.value
            },
            None,
            input.start_x,
            input.start_y,
            false,
            true,
            text_style,
            false,
        );
        let columns: u32 = if input.start_x as u32 + input.width as u32 > 0x1_0000 {
            0x1_0000 - input.start_x as u32
        } else {
            input.width as u32
        };
        let mut result_primitives: Vec<PrimitiveCell> = Vec::new();
        let mut index: u32 = 0;
        while index < columns
            invariant
                index <= columns,
                columns == input_columns(*input),
                main_style == input_look(*input, *style),
                parsed_primitives@ == input_glyphs(*input, *style),
                result_primitives@.len() == index,
                forall|k: int|
                    0 <= k < index ==> (#[trigger] result_primitives@[k]) == input_cell(
                        *input,
                        *style,
                        k,
                    ),
            decreases columns - index,
        {
            let scrolled: usize = input.offset as usize + index as usize;
            let cell = if scrolled < parsed_primitives.len() {
                parsed_primitives[scrolled].cell
            } else {
                Cell { content: None, style: main_style }
            };
            result_primitives.push(
                PrimitiveCell { x: (input.start_x as u32 + index) as u16, y: input.start_y, cell },
            );
            index += 1;
        }
        proof {
            assert(result_primitives@ =~= input_row(*input, *style));
        }
        let row = Primitive::from_cells(result_primitives);
        if input.is_focused {
            let x: u32 = input.start_x as u32 + input.cursor_index as u32;
            if x >= input.offset as u32 && x - input.offset as u32 <= 0xffff {
                return row.with_cursor(
                    CursorPosition {
                        x: (x - input.offset as u32) as u16,
                        y: input.start_y,
                        style: style.cursor,
                    },
                );
            }
        }
        row
    }
}

} // verus!
