//! The verified core of a modal terminal text editor: text buffers with
//! snapshot-based undo and redo, cursors, the recursive window layout
//! tree with its screen-geometry calculation, the window manager that
//! keeps them consistent, search, and the mode state machines.
//!
//! Terminal painting, key-event decoding, syntax highlighting and file
//! input and output are external collaborators: they consume this
//! library's interfaces and live outside it.

pub mod buffer;
pub mod command;
pub mod config;
pub mod cursor;
pub mod editor_state;
pub mod executor;
pub mod gap_buffer;
pub mod insert;
pub mod key;
pub mod keymap;
pub mod line;
pub mod manager;
pub mod mode;
pub mod normal;
pub mod search;
pub mod statusline;
pub mod text;
pub mod visual;
pub mod window;

pub use buffer::Buffer;
pub use cursor::Cursor;
pub use manager::{WindowBounds, WindowManager};
pub use mode::{Mode, VisualType};
pub use window::{LayoutNode, Ratio, Split, SplitType, Window, WindowLayout};
