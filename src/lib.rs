//! A status bar's workspace engine: it mirrors a window manager's workspaces as a row
//! of buttons, rebuilt one slot per frame, and turns clicks on them into switch commands.

pub mod color;
pub mod cpu;
pub mod date;
pub mod segment;
pub mod style;
pub mod system;
pub mod workspace;

pub use color::{ColorScheme, Rgba};
pub use cpu::{Cpu, CpuDelta};
pub use date::Date;
pub use segment::{button_text_name, Segment};
pub use style::{select_style, Backdrop, Style};
pub use system::{InboundEvent, Rebuild, UiEvent, UiEventKind, WorkspaceSystem};
pub use workspace::{button_for, display_label, ButtonSpec, EntityRef, Workspace, WorkspaceInfo};
