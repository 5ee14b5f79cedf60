//! Row planning, navigation and session state for a terminal diff viewer.

pub mod app;
pub mod commands;
pub mod comments;
pub mod diff;
pub mod highlight;
pub mod history;
pub mod keys;
pub mod marks;
pub mod keymap;
pub mod model;
pub mod overlays;
pub mod palette;
pub mod peek;
pub mod peekopen;
pub mod picker;
pub mod plan_shape;
pub mod reviewlog;
pub mod rows;
pub mod session;
pub mod stream;
pub mod submit;
pub mod text;
pub mod types;
pub mod view;
