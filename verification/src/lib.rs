//! A line-oriented todo manager: the in-memory list, its text form on disk,
//! and the decisions of its interactive command loop.

pub mod chars;
pub mod cli;
pub mod number;
pub mod store;
pub mod text;
pub mod todo_list;
