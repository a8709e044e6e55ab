//! A verified core for a modal, terminal-resident text editor.
//!
//! The library holds the two subsystems that carry the design weight:
//! the grapheme-aware line buffer (`Row`, `Document`) and the modal
//! input engine (`Mode`, `Editor`), together with cursor and viewport
//! arithmetic and bidirectional substring search. Terminal I/O, file
//! I/O, configuration loading and syntax-highlighted rendering are
//! collaborators that live outside the library and drive it through
//! plain values.

pub mod command;
pub mod document;
pub mod editor;
pub mod filetype;
pub mod graphemes;
pub mod highlighting;
pub mod keymaps;
pub mod mode;
pub mod position;
pub mod row;
pub mod settings;
pub mod terminal;

pub use document::Document;
pub use editor::SearchDirection;
pub use filetype::FileType;
pub use keymaps::Key;
pub use mode::Mode;
pub use mode::PossibleModes;
pub use position::Position;
pub use row::Row;
pub use settings::Settings;
pub use terminal::Terminal;
