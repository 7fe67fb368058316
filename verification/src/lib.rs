//! Incremental rendering of a widget tree to a character-cell terminal.
//!
//! The crate holds the drawing model (colors, styles, cells, primitives), the
//! frame buffer with its row diff, the painter that turns a frame into terminal
//! operations, the rounding of sibling boxes onto whole cells, the text
//! cropping used by text widgets, the mapping of terminal input, and the
//! decisions of the render/update loop.
//!
//! Nothing here touches the terminal. The painter returns the operations of a
//! frame and the loop returns what has to be done next; performing them is
//! left to the program that owns the terminal.

pub mod application;
pub mod input;
pub mod renderer;

pub use application::Held;
pub use application::LoopAction;
pub use application::LoopEvent;
pub use application::LoopPhase;
pub use application::LoopState;
pub use application::Polled;
pub use application::UiMessage;
pub use renderer::crop_text_to_bounds;
pub use renderer::is_printable;
pub use renderer::round_layout_list;
pub use renderer::split_by_style;
pub use renderer::AnsiColor;
pub use renderer::ButtonStyle;
pub use renderer::Cell;
pub use renderer::CellBounds;
pub use renderer::ControlOp;
pub use renderer::CursorPosition;
pub use renderer::CursorShape;
pub use renderer::CursorStyle;
pub use renderer::PaintOp;
pub use renderer::PlannedBox;
pub use renderer::Primitive;
pub use renderer::PrimitiveCell;
pub use renderer::ProgressBarStyle;
pub use renderer::RenderResult;
pub use renderer::RoundDirection;
pub use renderer::RoundedBox;
pub use renderer::ScreenOp;
pub use renderer::Style;
pub use renderer::TermColor;
pub use renderer::TextInput;
pub use renderer::TextInputStyle;
pub use renderer::TuiRenderer;
pub use renderer::VirtualBuffer;
pub use renderer::MAX_SIBLINGS;
