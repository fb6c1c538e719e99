//! Dropping local files on a remote session.
pub mod browse_script;
pub mod destination_picker;
pub mod listing;
pub mod panel;
pub mod probe;
pub mod script;
pub mod shell;
pub mod taildrop;
pub mod transfer;
pub mod worker;
