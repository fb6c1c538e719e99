//! Decisions behind a desktop workspace shell: uploads, pickers, embedded
//! browsers and remote device viewers, kept apart from painting and I/O.
pub mod branding;
pub mod browser;
pub mod canvas;
pub mod command_palette;
pub mod command_registry;
pub mod device;
pub mod dir_picker;
pub mod editor;
pub mod geometry;
pub mod modifiers;
pub mod palette_layout;
pub mod ssh_upload;
pub mod startup;
pub mod tasks;
pub mod text;
pub mod updates;
pub mod util;
pub mod work_resume;
pub mod workspace;
pub mod workspace_visuals;
pub mod yaml_highlight;

use vstd::prelude::*;

verus! {

} // verus!
