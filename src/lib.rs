//! A text buffer changed only through reversible commands, with a linear undo
//! history.

pub mod command;
pub mod editor;
pub mod history;

pub use command::{AddTextCommand, Command, DeleteTextCommand, EditCommand, EditError, remove_matches};
pub use editor::TextEditor;
pub use history::CommandHistory;
