//! Task notes and an interactive, modal task browser for a task store.
//!
//! The library holds the logic: task records and their ordering, the browsing
//! session with its selection, the modes that interpret key presses, and the
//! plans that the command-line front end carries out against the task store.
pub mod commands;
pub mod controller;
pub mod edit;
pub mod laws;
pub mod modes;
pub mod opt;
pub mod order;
pub mod remind;
pub mod session;
pub mod task;
