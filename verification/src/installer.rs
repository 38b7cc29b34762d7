//! The manager application: its window geometry, its model and its commands.
pub mod app;
pub mod cli;
pub mod flow;
pub mod render;
pub mod view;
