//! A single-user, session-oriented text file manager: it maintains one
//! open document at a time, persists it automatically, and cycles
//! through sibling text files of a directory without losing unsaved
//! work. The core is the session state machine in [`session`], fed by
//! the directory scanner in [`scanner`], the timestamp namer in
//! [`namer`], and the persistence operations modelled in [`store`];
//! the windowing layer, the text widget and the real filesystem calls
//! are external collaborators.

pub mod errors;
pub mod namer;
pub mod scanner;
pub mod session;
pub mod store;

pub use crate::errors::Error;
pub use crate::errors::IoErrorKind;
