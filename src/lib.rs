//! Remote control of the host's mouse: a dispatcher that turns cursor
//! requests into absolute moves and left-button presses and releases,
//! keeping every press paired with exactly one release.
pub mod dispatch;
pub mod trace;

pub use dispatch::{AppState, MouseEvent, mouse_action};
