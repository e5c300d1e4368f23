//! The settings editor of an auto splitter: the rows that show its settings,
//! the edits made in them, and the behaviour of the editor's widgets.

pub mod dialog;
pub mod edits;
pub mod laws;
pub mod listing;
pub mod paths;
pub mod rows;
pub mod settings;
pub mod state;
pub mod sync;
pub mod tooltip;
pub mod values;
pub mod words;
