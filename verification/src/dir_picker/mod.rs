//! Choosing a directory from a searched list.
mod local;
mod modal;

pub use local::{
    abbreviate_home, expand_tilde_simple, seed_query, DirPicker, DirPickerAction, DirPickerPurpose,
    SearchPoll, DEBOUNCE_MS,
};
pub use modal::{
    picker_layout, results_height, split_path_display, PickerKeys, PickerLayout, PickerModalAction,
    PickerModalState, BACKDROP_GRACE_MS, FOCUS_GRACE_MS, INPUT_HEIGHT, MAX_RENDERED_ROWS, ROW_HEIGHT,
};
