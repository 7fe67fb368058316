//! The drawing model and everything that turns it into terminal output.

pub mod button;
pub mod colors;
pub mod container;
pub mod primitives;
pub mod progress_bar;
pub mod style;
pub mod text;
pub mod text_input;
pub mod tui_renderer;
pub mod utils;
pub mod virtual_buffer;

pub use button::ButtonStyle;
pub use colors::AnsiColor;
pub use colors::TermColor;
pub use primitives::Cell;
pub use primitives::CellBounds;
pub use primitives::CursorPosition;
pub use primitives::Primitive;
pub use primitives::PrimitiveCell;
pub use progress_bar::ProgressBarStyle;
pub use style::CursorShape;
pub use style::CursorStyle;
pub use style::Style;
pub use text_input::TextInput;
pub use text_input::TextInputStyle;
pub use tui_renderer::split_by_style;
pub use tui_renderer::ControlOp;
pub use tui_renderer::PaintOp;
pub use tui_renderer::RenderResult;
pub use tui_renderer::ScreenOp;
pub use tui_renderer::TuiRenderer;
pub use utils::crop_text_to_bounds;
pub use utils::is_printable;
pub use utils::round_layout_list;
pub use utils::PlannedBox;
pub use utils::RoundDirection;
pub use utils::RoundedBox;
pub use utils::MAX_SIBLINGS;
pub use virtual_buffer::VirtualBuffer;
