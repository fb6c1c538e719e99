//! Viewing a remote desktop, and sending it input while a person asks for it.
pub mod capture;
pub mod controls;
pub mod details;
pub mod frame;
pub mod host;
pub mod input;
pub mod keysym;
pub mod session;
pub mod tunnel;
pub mod viewer;
pub mod zoom;
