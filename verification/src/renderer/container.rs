//! Containers and empty space: a styled box with content over it, or nothing.

use super::primitives::drawings_of;
use super::primitives::lemma_merge_of_two;
use super::primitives::overlay_drawing;
use super::primitives::rectangle_cells;
use super::primitives::Cell;
use super::primitives::CellBounds;
use super::primitives::Drawing;
use super::primitives::Primitive;
use super::style::Style;
use super::tui_renderer::TuiRenderer;
use vstd::prelude::*;

verus! {

/// A rectangle that carries a style and no glyph, with `content` drawn over
/// it.
pub open spec fn styled_box(bounds: CellBounds, style: Style, content: Drawing) -> Drawing {
    overlay_drawing(
        Drawing {
            cells: rectangle_cells(
                bounds.x,
                bounds.y,
                bounds.width,
                bounds.height,
                Cell { content: None, style },
            ),
            cursor: None,
        },
        content,
    )
}

impl TuiRenderer {
    /// Draws a container: a rectangle in the container's style, with the
    /// content over it. The content is kept where it leaves the rectangle.
    pub fn draw_container(&self, bounds: CellBounds, style: &Style, content: Primitive) -> (p:
        Primitive)
        ensures
            p@ == styled_box(bounds, *style, content@),
    {
        let rectangle = Primitive::rectangle(
            bounds.x,
            bounds.y,
            bounds.width,
            bounds.height,
            Cell { content: None, style: *style },
        );
        proof {
            lemma_merge_of_two(rectangle@, content@);
            assert(drawings_of(seq![rectangle, content]) =~= seq![rectangle@, content@]);
        }
        Primitive::merge(vec![rectangle, content])
    }

    /// Draws empty space: nothing at all.
    pub fn draw_space(&self, bounds: CellBounds) -> (p: Primitive)
        ensures
            p@.cells == Map::<(u16, u16), Cell>::empty(),
            p@.cursor is None,
    {
        Primitive::rectangle(bounds.x, bounds.y, bounds.width, bounds.height, Cell::default())
    }
}

} // verus!
