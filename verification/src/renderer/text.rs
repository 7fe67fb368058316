//! Text: how much room it takes and how it is drawn.

use super::colors::TermColor;
use super::primitives::placed_cells;
use super::primitives::CellBounds;
use super::primitives::Primitive;
use super::style::empty_style;
use super::style::Style;
use super::tui_renderer::TuiRenderer;
use super::utils::crop_fold;
use super::utils::crop_rules;
use super::utils::crop_text_to_bounds;
use super::utils::cropped_height;
use super::utils::CropRules;
use vstd::prelude::*;

verus! {

/// The rules by which text is measured in a box of the given size: rows
/// wrap, and nothing is collected.
pub open spec fn measure_rules(bounds: (u16, u16)) -> CropRules {
    crop_rules(Some(bounds), 0, 0, true, false, empty_style(), true)
}

/// The style text is drawn in: the font, with the text's own color in place
/// of the font's foreground where the text has one.
pub open spec fn text_look(font: Style, color: Option<TermColor>) -> Style {
    Style {
        fg_color: if color is Some {
            color
        } else {
            font.fg_color
        },
        ..font
    }
}

/// The rules by which text is drawn into a box: rows wrap, and the glyphs
/// are collected from the top left cell of the box.
pub open spec fn draw_rules(bounds: CellBounds, look: Style) -> CropRules {
    crop_rules(Some((bounds.width, bounds.height)), bounds.x, bounds.y, true, true, look, true)
}

impl TuiRenderer {
    /// The height of a line of text, in cells.
    pub fn default_size(&self) -> (size: u16)
        ensures
            size == 1,
    {
        1
    }

    /// The width and height that `content` takes when it is wrapped into a
    /// box of `bounds` columns and rows.
    pub fn measure_text(&self, content: &str, bounds: (u16, u16)) -> (size: (u16, u16))
        ensures
            size.0 == crop_fold(measure_rules(bounds), content@).filled_width,
            size.1 == cropped_height(crop_fold(measure_rules(bounds), content@)),
    {
        let (_, width, height) = crop_text_to_bounds(
            content,
            Some(bounds),
            0,
            0,
            true,
            false,
            Style::new(),
            true,
        );
        (width, height)
    }

    /// Draws `content` wrapped into `bounds`, in the font's style with the
    /// text's own color, if it has one, as foreground.
    pub fn draw_text(&self, bounds: CellBounds, content: &str, font: Style, color: Option<TermColor>) -> (p:
        Primitive)
        ensures
            p@.cells == placed_cells(
                crop_fold(draw_rules(bounds, text_look(font, color)), content@).cells,
            ),
            p@.cursor is None,
    {
        let style = Style {
            fg_color: match color {
                Some(color) => Some(color),
                None => font.fg_color,
            },
            bg_color: font.bg_color,
            is_bold: font.is_bold,
        };
        let (primitive_cells, _, _) = crop_text_to_bounds(
            content,
            Some((bounds.width, bounds.height)),
            bounds.x,
            bounds.y,
            true,
            true,
            style,
            true,
        );
        Primitive::from_cells(primitive_cells)
    }
}

} // verus!
