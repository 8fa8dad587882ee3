//! The decisions of the desktop program, apart from its drawing.

pub mod app;
pub mod assets;
pub mod bridge;
pub mod bridge_laws;
pub mod collections;
pub mod git;
pub mod local;
pub mod nodes;
pub mod request_editor;
pub mod settings;
pub mod state;
pub mod theme;
pub mod v1_editor;
pub mod window_laws;
