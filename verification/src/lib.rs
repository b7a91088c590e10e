//! A personal task tracker: task records, their one-line text format,
//! the order in which tasks are listed, the search filter, and the commands
//! that edit a task file held in memory.

pub mod color;
pub mod command;
pub mod display;
pub mod error;
pub mod filter;
pub mod numeral;
pub mod order;
pub mod parse;
pub mod record;
pub mod status;
pub mod text;
pub mod todo;
pub mod todoio;
