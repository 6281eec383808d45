//! Small verified building blocks: arithmetic, slices, a shop inventory and a
//! task list with its text format and command language.

pub mod calculator;
pub mod numbers;
pub mod runs;
pub mod slices;
pub mod text;
pub mod tasks;
pub mod shop;
pub mod ownership;
pub mod prose;
pub mod greeting;
