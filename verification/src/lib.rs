//! Task execution and output distribution: the state of each task, the
//! fan-out of its output to any number of viewers, and the supervisor that
//! carries one run of a task from start to exit.

pub mod status;
pub mod broadcast;
pub mod queue;
pub mod buffer;
pub mod dict;
pub mod bus;
pub mod json;
pub mod event;
pub mod task;
pub mod supervisor;
pub mod unit;
pub mod cfg;
pub mod app_state;
pub mod arguments;
pub mod access;
pub mod answer;
