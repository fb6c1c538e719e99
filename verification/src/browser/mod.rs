//! An embedded browser page: its input, viewport and popups.
pub mod body;
pub mod chrome;
pub mod file_chooser;
pub mod keyboard;
pub mod keys;
pub mod pointer;
pub mod select_popup;
pub mod teach;
pub mod view;
pub mod viewport;
pub mod zoom;
