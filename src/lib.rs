//! Interactive log-query engine: the query session state machine, the
//! virtualised log viewport and the line composer behind it.

pub mod app;
pub mod checkbox;
pub mod client;
pub mod compose;
pub mod duration;
pub mod group_list;
pub mod input;
pub mod keys;
pub mod line_builder;
pub mod log_list;
pub mod text;
pub mod viewport;
