//! Progress bars: their style and how one is drawn.

use super::colors::TermColor;
use super::primitives::drawings_of;
use super::primitives::lemma_merge_of_two;
use super::primitives::overlay_cells;
use super::primitives::rectangle_cells;
use super::primitives::Cell;
use super::primitives::CellBounds;
use super::primitives::Primitive;
use super::style::empty_style;
use super::style::Style;
use super::tui_renderer::TuiRenderer;
use vstd::prelude::*;

verus! {

/// The styles of a progress bar: of the part that is done and of the part
/// that is not.
#[derive(Debug, Clone, Copy, PartialEq, Eq, Structural)]
pub struct ProgressBarStyle {
    pub loaded_style: Style,
    pub unloaded_style: Style,
}

/// The progress bar style that sets nothing.
pub open spec fn plain_progress_bar_style() -> ProgressBarStyle {
    ProgressBarStyle { loaded_style: empty_style(), unloaded_style: empty_style() }
}

/// The cells of a progress bar: `progress_width` columns of spaces in the
/// loaded style, then spaces in the unloaded style up to the width of the
/// bar. A bar that is done beyond its width has no unloaded part.
pub open spec fn progress_bar_cells(
    bounds: CellBounds,
    progress_width: u16,
    style: ProgressBarStyle,
) -> Map<(u16, u16), Cell> {
    let loaded = rectangle_cells(
        bounds.x,
        bounds.y,
        progress_width,
        bounds.height,
        Cell { content: Some(' '), style: style.loaded_style },
    );
    let unloaded = if bounds.x + progress_width <= u16::MAX && progress_width < bounds.width {
        rectangle_cells(
            (bounds.x + progress_width) as u16,
            bounds.y,
            (bounds.width - progress_width) as u16,
            bounds.height,
            Cell { content: Some(' '), style: style.unloaded_style },
        )
    } else {
        Map::empty()
    };
    overlay_cells(loaded, unloaded)
}

impl Default for ProgressBarStyle {
    fn default() -> (style: ProgressBarStyle)
        ensures
            style == plain_progress_bar_style(),
    {
        ProgressBarStyle { loaded_style: Style::new(), unloaded_style: Style::new() }
    }
}

impl ProgressBarStyle {
    /// A progress bar style that sets nothing.
    pub fn new() -> (style: ProgressBarStyle)
        ensures
            style == plain_progress_bar_style(),
    {
        ProgressBarStyle { loaded_style: Style::new(), unloaded_style: Style::new() }
    }

    /// Sets the color of the part that is done. The bar is made of spaces, so
    /// the color goes to the background of the loaded style.
    pub fn fg(self, color: TermColor) -> (style: ProgressBarStyle)
        ensures
            style == (ProgressBarStyle {
                loaded_style: Style { bg_color: Some(color), ..self.loaded_style },
                ..self
            }),
    {
        let mut style = self;
        style.loaded_style = style.loaded_style.bg(color);
        style
    }

    /// Sets the color of the part that is not done.
    pub fn bg(self, color: TermColor) -> (style: ProgressBarStyle)
        ensures
            style == (ProgressBarStyle {
                unloaded_style: Style { bg_color: Some(color), ..self.unloaded_style },
                ..self
            }),
    {
        let mut style = self;
        style.unloaded_style = style.unloaded_style.bg(color);
        style
    }
}

impl TuiRenderer {
    /// Draws a progress bar of which `progress_width` columns are done.
    pub fn draw_progress_bar(
        &self,
        bounds: CellBounds,
        progress_width: u16,
        progress_style: &ProgressBarStyle,
    ) -> (p: Primitive)
        ensures
            p@.cells == progress_bar_cells(bounds, progress_width, *progress_style),
            p@.cursor is None,
    {
        let loaded = Primitive::rectangle(
            bounds.x,
            bounds.y,
            progress_width,
            bounds.height,
            Cell::from_char(' ').style(progress_style.loaded_style),
        );
        let unloaded = if progress_width <= u16::MAX - bounds.x && progress_width < bounds.width {
            Primitive::rectangle(
                bounds.x + progress_width,
                bounds.y,
                bounds.width - progress_width,
                bounds.height,
                Cell::from_char(' ').style(progress_style.unloaded_style),
            )
        } else {
            Primitive::default()
        };
        proof {
            lemma_merge_of_two(loaded@, unloaded@);
            assert(drawings_of(seq![loaded, unloaded]) =~= seq![loaded@, unloaded@]);
        }
        Primitive::merge(vec![loaded, unloaded])
    }
}

} // verus!
