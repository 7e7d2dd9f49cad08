//! The rules of two small tools, stated and proved: a list of tasks that
//! lives in a text file and is changed by typed commands, and a plan that
//! files every entry of a directory tree under its extension.
//!
//! Nothing here touches a file or a terminal. The caller reads and writes;
//! this library says what the text means and what is to be done.

pub mod command;
pub mod number;
pub mod organizer;
pub mod store;
pub mod task;
pub mod text;
pub mod unicode;
