//! The editing core of a small terminal text editor: lines of text indexed by
//! grapheme cluster, a document made of such lines, and the cursor and
//! viewport that follow the edits.

pub mod document;
pub mod editor;
pub mod row;
pub mod segment;
pub mod terminal;

pub use document::Document;
pub use editor::{Action, Command, Editor, Keypress, Position};
pub use row::Row;
pub use terminal::Size;
