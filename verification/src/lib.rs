//! Layout logic and command planning for a touch-friendly remote control of the
//! Niri Wayland compositor: window-width snapping, monitor ordering, workspace
//! swapping, command-line interpretation and tap/key handling.

pub mod actions;
pub mod cli;
pub mod grouping;
pub mod input;
pub mod model;
pub mod monitors;
pub mod order;
pub mod screen;
pub mod snap;
pub mod swap;
pub mod text;
pub mod windows;

