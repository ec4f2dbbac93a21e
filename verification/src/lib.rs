//! Window navigation decisions for the Hyprland compositor.
//!
//! Given the windows and monitors that the compositor reports, the library
//! decides which dispatches a directional key press turns into: focus or swap
//! within a workspace, cycling between floating and tiled windows, and
//! crossing to the neighbouring monitor only at the screen's edge.
pub mod model;
pub mod dispatch;
pub mod geometry;
pub mod navigate;
pub mod laws;
pub mod behaviour;
