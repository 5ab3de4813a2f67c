//! Decisions of a DWM-style master/stack layout manager for Herdr panes.
pub mod decide;
pub mod json;
pub mod reflow;
pub mod reply;
pub mod request;
pub mod session;
pub mod state;
pub mod tab;
