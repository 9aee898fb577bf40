//! The decisions of a terminal input reader: which bytes form an event, which
//! event answers which caller, when a deadline has passed, and what a startup
//! probe asks next. Reading, writing and waiting are left to the caller, who
//! performs the step that a function asks for and hands the outcome back.

pub mod error;
pub mod event;
pub mod style;
pub mod terminal;
pub mod time;
