//! The debugger's session state and the commands that change it.

pub mod text;
pub mod state;
pub mod keys;
pub mod view;
