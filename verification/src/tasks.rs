//! A task list: the records, the store that owns them, the text format they
//! are kept in, and the commands that drive the store.

pub mod task;
pub mod manager;
pub mod storage;
pub mod command;
pub mod dispatch;
pub mod report;
