//! Picking a local directory.
use horizon_ui::dir_picker::{
    abbreviate_home, expand_tilde_simple, picker_layout, results_height, seed_query,
    split_path_display, DirPicker, DirPickerAction, DirPickerPurpose, PickerKeys, PickerModalAction,
    PickerModalState, SearchPoll,
};
use horizon_ui::palette_layout::Frame;

const NO_KEYS: PickerKeys = PickerKeys {
    up: false,
    down: false,
    enter: false,
    escape: false,
    tab: false,
};

#[test]
fn seed_query_appends_trailing_separator() {
    assert_eq!(seed_query(Some("/repo")), "/repo/");
}

#[test]
fn seed_query_is_empty_without_workspace_directory() {
    assert!(seed_query(None).is_empty());
}

#[test]
fn confirm_selection_prefers_typed_directory_over_selected_child() {
    let current_dir = "/tmp/fixture/current".to_string();
    let child_dir = format!("{current_dir}/child");
    let mut picker = DirPicker {
        modal: PickerModalState::new(format!("{current_dir}/"), 0),
        results: vec![child_dir],
        selected_purpose: Some(DirPickerPurpose::AddPanel {
            workspace_id: 1,
            ticket: 7,
        }),
        searching: false,
        last_query_sent: String::new(),
        last_query_ms: 0,
        initial_results_loaded: true,
    };

    let typed = expand_tilde_simple(picker.modal.query(), None);
    let DirPickerAction::Selected(Some(path), _) = picker.confirm_selection(&typed, true) else {
        panic!("expected typed directory selection");
    };

    assert_eq!(std::path::Path::new(&path), std::path::Path::new(&current_dir));
}

fn picker(query: &str, results: &[&str]) -> DirPicker {
    let mut picker = DirPicker::new(DirPickerPurpose::NewWorkspace { ticket: 3 }, 0);
    picker.modal = PickerModalState::new(query.into(), 0);
    picker.results = results.iter().map(|path| path.to_string()).collect();
    picker
}

#[test]
fn what_is_no_directory_falls_back_to_the_selected_row() {
    let mut picker = picker("ho", &["/home", "/hotel"]);
    picker.modal.selected = 1;
    let DirPickerAction::Selected(Some(path), DirPickerPurpose::NewWorkspace { ticket }) =
        picker.confirm_selection("ho", false)
    else {
        panic!("expected the selected row");
    };
    assert_eq!((path.as_str(), ticket), ("/hotel", 3));
    assert!(picker.selected_purpose.is_none());
}

#[test]
fn a_purpose_is_answered_once() {
    let mut picker = picker("", &["/home"]);
    assert!(matches!(
        picker.confirm_selection("", false),
        DirPickerAction::Selected(..)
    ));
    assert!(!matches!(
        picker.confirm_selection("", false),
        DirPickerAction::Selected(..)
    ));
}

#[test]
fn keys_move_within_the_rows() {
    let mut modal = PickerModalState::new(String::new(), 0);
    let down = PickerKeys {
        down: true,
        ..NO_KEYS
    };
    let up = PickerKeys { up: true, ..NO_KEYS };
    modal.handle_keyboard(down, 2);
    assert_eq!(modal.selected_index(), 1);
    modal.handle_keyboard(down, 2);
    assert!(modal.selected_index() < 2);
    modal.handle_keyboard(up, 2);
    assert!(modal.selected_index() < 2);
    let escape = PickerKeys {
        escape: true,
        ..NO_KEYS
    };
    assert!(matches!(
        modal.resolve(escape, 2, None, false),
        PickerModalAction::Cancelled
    ));
    assert!(matches!(
        modal.resolve(NO_KEYS, 2, Some(1), false),
        PickerModalAction::ClickedRow(1)
    ));
}

#[test]
fn the_click_that_opened_the_picker_does_not_close_it() {
    let modal = PickerModalState::new(String::new(), 1_000);
    assert!(!modal.backdrop_cancels(true, 1_100));
    assert!(modal.backdrop_cancels(true, 1_300));
    assert!(!modal.backdrop_cancels(false, 1_300));
}

#[test]
fn searches_wait_for_a_pause_in_typing() {
    let mut picker = picker("/ho", &[]);
    picker.initial_results_loaded = true;
    let started = picker.update_search(SearchPoll::Empty, 1_000);
    assert_eq!(started.as_deref(), Some("/ho"));
    assert!(picker.update_search(SearchPoll::Empty, 2_000).is_none());
    picker.update_search(SearchPoll::Results(vec!["/home".into()]), 2_010);
    assert_eq!(picker.results, ["/home"]);
}

#[test]
fn a_tilde_stands_for_home() {
    assert_eq!(expand_tilde_simple("~/src", Some("/home/kim")), "/home/kim/src");
    assert_eq!(expand_tilde_simple("~", Some("/home/kim")), "/home/kim");
    assert_eq!(expand_tilde_simple("~/src", None), "/src");
    assert_eq!(expand_tilde_simple("/src", Some("/home/kim")), "/src");
}

#[test]
fn paths_are_shown_as_parent_and_name() {
    assert_eq!(
        split_path_display("~/src/repo"),
        ("~/src/".to_string(), "repo".to_string())
    );
}

#[test]
fn paths_in_the_home_directory_are_shown_short() {
    assert_eq!(abbreviate_home("/home/ada/work", Some("/home/ada")), "~/work");
    assert_eq!(abbreviate_home("/home/ada", Some("/home/ada")), "~");
    assert_eq!(abbreviate_home("/home/adam", Some("/home/ada")), "/home/adam");
    assert_eq!(abbreviate_home("/srv", None), "/srv");
    let shown = abbreviate_home("/home/ada/work", Some("/home/ada"));
    assert_eq!(expand_tilde_simple(&shown, Some("/home/ada")), "/home/ada/work");
}

#[test]
fn the_picker_stands_above_the_middle_of_the_screen() {
    let layout = picker_layout(1_920_000, 1_080_000);
    let card = Frame {
        left: 700_000,
        top: 217_000,
        width: 520_000,
        height: 460_000,
    };
    assert_eq!(layout.card, card);
    let inner = Frame {
        left: 720_000,
        top: 233_000,
        width: 480_000,
        height: 428_000,
    };
    assert_eq!(layout.inner, inner);
    assert_eq!(layout.footer_height, 36_000);

    let small = picker_layout(500_000, 400_001).card;
    assert_eq!((small.left, small.top), (-10_000, -21_000));
    assert_eq!((small.width, small.height), (520_000, 460_000));
}

#[test]
fn results_end_above_the_footer() {
    assert_eq!(results_height(661_000, 330_000), 661_000 - 330_000 - 44_000);
    assert_eq!(results_height(661_000, 100_000), 408_000);
    assert_eq!(results_height(661_000, 209_000), 408_000);
    assert_eq!(results_height(0, 10_000), -54_000);
}
