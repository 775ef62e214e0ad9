//! Pure decisions behind the application views.

pub mod logs;
pub mod terminal;
pub mod workloads;
