//! Buttons: their styles and how one is drawn.

use super::container::styled_box;
use super::primitives::CellBounds;
use super::primitives::Primitive;
use super::style::empty_style;
use super::style::merge_style;
use super::style::Style;
use super::tui_renderer::TuiRenderer;
use vstd::prelude::*;

verus! {

/// The styles of a button: the one it always has, and the ones laid over it
/// while the pointer is on it, while it is pressed, and while it is disabled.
#[derive(Debug, Clone, Copy, PartialEq, Eq, Structural)]
pub struct ButtonStyle {
    pub normal: Style,
    pub hover: Style,
    pub pressed: Style,
    pub disabled: Style,
}

/// The button style that sets nothing in any state.
pub open spec fn plain_button_style() -> ButtonStyle {
    ButtonStyle {
        normal: empty_style(),
        hover: empty_style(),
        pressed: empty_style(),
        disabled: empty_style(),
    }
}

/// The style a button is drawn in: its normal style, with the style of its
/// state laid over. Disabled comes before pressed, pressed before hovered.
pub open spec fn button_look(style: ButtonStyle, is_disabled: bool, is_pressed: bool, is_hovered: bool) -> Style {
    if is_disabled {
        merge_style(style.normal, style.disabled)
    } else if is_pressed {
        merge_style(style.normal, style.pressed)
    } else if is_hovered {
        merge_style(style.normal, style.hover)
    } else {
        style.normal
    }
}

impl Default for ButtonStyle {
    fn default() -> (style: ButtonStyle)
        ensures
            style == plain_button_style(),
    {
        ButtonStyle {
            normal: Style::new(),
            hover: Style::new(),
            pressed: Style::new(),
            disabled: Style::new(),
        }
    }
}

impl ButtonStyle {
    /// A button style that sets nothing in any state.
    pub fn new() -> (style: ButtonStyle)
        ensures
            style == plain_button_style(),
    {
        ButtonStyle {
            normal: Style::new(),
            hover: Style::new(),
            pressed: Style::new(),
            disabled: Style::new(),
        }
    }

    /// Sets the style the button always has.
    pub fn normal(self, normal: Style) -> (style: ButtonStyle)
        ensures
            style == (ButtonStyle { normal, ..self }),
    {
        let mut style = self;
        style.normal = normal;
        style
    }

    /// Sets the style laid over the button while the pointer is on it.
    pub fn hover(self, hover: Style) -> (style: ButtonStyle)
        ensures
            style == (ButtonStyle { hover, ..self }),
    {
        let mut style = self;
        style.hover = hover;
        style
    }

    /// Sets the style laid over the button while it is pressed.
    pub fn pressed(self, pressed: Style) -> (style: ButtonStyle)
        ensures
            style == (ButtonStyle { pressed, ..self }),
    {
        let mut style = self;
        style.pressed = pressed;
        style
    }

    /// Sets the style laid over the button while it is disabled.
    pub fn disabled(self, disabled: Style) -> (style: ButtonStyle)
        ensures
            style == (ButtonStyle { disabled, ..self }),
    {
        let mut style = self;
        style.disabled = disabled;
        style
    }

    /// The style the button is drawn in, given its state.
    pub fn look(&self, is_disabled: bool, is_pressed: bool, is_hovered: bool) -> (look: Style)
        ensures
            look == button_look(*self, is_disabled, is_pressed, is_hovered),
    {
        self.normal.try_merge(
            if is_disabled {
                Some(self.disabled)
            } else if is_pressed {
                Some(self.pressed)
            } else if is_hovered {
                Some(self.hover)
            } else {
                None
            },
        )
    }
}

impl TuiRenderer {
    /// Draws a button: a rectangle in the style of the button's state, with
    /// the button's content over it.
    pub fn draw_button(
        &self,
        bounds: CellBounds,
        is_hovered: bool,
        is_disabled: bool,
        is_pressed: bool,
        button_style: &ButtonStyle,
        content: Primitive,
    ) -> (p: Primitive)
        ensures
            p@ == styled_box(
                bounds,
                button_look(*button_style, is_disabled, is_pressed, is_hovered),
                content@,
            ),
    {
        let selected_style = button_style.look(is_disabled, is_pressed, is_hovered);
        self.draw_container(bounds, &selected_style, content)
    }
}

} // verus!
