use horizon_ui::command_palette::{
    build_results, compact_detail, fuzzy_contains, matches_query, palette_title, parse_mode,
    section_starts, shorten_path, Color, CommandPalette, PaletteAction, PaletteKeys, PaletteMode,
    PanelEntry, WorkspaceEntry,
};
use horizon_ui::command_registry::{action_commands, AppShortcuts, Category, CommandId};

fn shortcuts() -> AppShortcuts {
    AppShortcuts {
        new_terminal: "Ctrl+N".into(),
        focus_active_workspace: "Ctrl+Shift+W".into(),
        fit_active_workspace: "Ctrl+Shift+9".into(),
        open_remote_hosts: "Ctrl+Shift+H".into(),
        toggle_sidebar: "Ctrl+B".into(),
        toggle_hud: "Ctrl+Shift+U".into(),
        toggle_minimap: "Ctrl+M".into(),
        fullscreen_window: "Ctrl+F11".into(),
        fullscreen_panel: "F11".into(),
        zoom_reset: "Ctrl+0".into(),
        zoom_in: "Ctrl+Plus".into(),
        zoom_out: "Ctrl+Minus".into(),
        align_workspaces_horizontally: "Ctrl+Shift+A".into(),
        toggle_settings: "Ctrl+,".into(),
        search: "Ctrl+Shift+F".into(),
    }
}

#[test]
fn parse_mode_default_is_all() {
    let (mode, query) = parse_mode("hello");
    assert_eq!(mode, PaletteMode::All);
    assert_eq!(query, "hello");
}

#[test]
fn parse_mode_actions_prefix() {
    let (mode, query) = parse_mode("> toggle");
    assert_eq!(mode, PaletteMode::ActionsOnly);
    assert_eq!(query, "toggle");
}

#[test]
fn parse_mode_panels_prefix() {
    let (mode, query) = parse_mode("@ zsh");
    assert_eq!(mode, PaletteMode::PanelsOnly);
    assert_eq!(query, "zsh");
}

#[test]
fn parse_mode_keeps_trailing_blanks_and_inner_marks() {
    let (mode, query) = parse_mode("\u{3000} a > b ");
    assert_eq!(mode, PaletteMode::All);
    assert_eq!(query, "a > b ");
}

#[test]
fn fuzzy_contains_basic() {
    assert!(fuzzy_contains("toggle sidebar", "tgsb"));
    assert!(fuzzy_contains("toggle sidebar", "toggle"));
    assert!(!fuzzy_contains("toggle", "xyz"));
}

#[test]
fn fuzzy_contains_empty_needle() {
    assert!(fuzzy_contains("anything", ""));
}

#[test]
fn fuzzy_match_needs_the_order() {
    assert!(!fuzzy_contains("abc", "cb"));
    assert!(!fuzzy_contains("abc", "aa"));
}

#[test]
fn shorten_path_two_components() {
    assert_eq!(shorten_path("/home/user/projects/horizon"), "projects/horizon");
}

#[test]
fn shorten_path_single_component() {
    assert_eq!(shorten_path("horizon"), "horizon");
}

#[test]
fn shorten_path_with_one_slash_keeps_the_name() {
    assert_eq!(shorten_path("/home"), "home");
    assert_eq!(shorten_path("a/b"), "b");
    assert_eq!(compact_detail(&Some("/a/b/c".to_string()), "dev"), "b/c  dev");
    assert_eq!(compact_detail(&None, "dev"), "dev");
}

fn workspaces() -> Vec<WorkspaceEntry> {
    vec![WorkspaceEntry {
        id: 1,
        name: "dev".into(),
        color: Color { r: 255, g: 255, b: 255, a: 255 },
        panel_count: 2,
        is_active: true,
    }]
}

fn panels() -> Vec<PanelEntry> {
    vec![PanelEntry {
        id: 1,
        title: "zsh".into(),
        workspace_name: "dev".into(),
        cwd: Some("/home".into()),
    }]
}

#[test]
fn build_results_filters_by_mode() {
    let workspaces = workspaces();
    let panels = panels();
    let actions = action_commands(&shortcuts());

    let results = build_results(PaletteMode::ActionsOnly, "", &workspaces, &panels, &actions);
    assert!(results.iter().all(|r| r.category == Category::Action));

    let results = build_results(PaletteMode::PanelsOnly, "", &workspaces, &panels, &actions);
    assert!(results.iter().all(|r| r.category == Category::Panel));
}

#[test]
fn build_results_lists_workspaces_panels_then_actions() {
    let actions = action_commands(&shortcuts());
    let all = build_results(PaletteMode::All, "", &workspaces(), &panels(), &actions);
    assert_eq!(all.len(), 17);
    assert_eq!(all[0].id, CommandId::SwitchWorkspace(1));
    assert_eq!(all[0].detail, "2 panels  active");
    assert_eq!(all[1].id, CommandId::FocusPanel(1));
    assert_eq!(all[1].detail, "home  dev");
    assert_eq!(all[2].label, "New Panel");
    let starts = section_starts(&all);
    assert_eq!(starts.iter().filter(|start| **start).count(), 3);
    assert!(starts[0] && starts[1] && starts[2] && !starts[3]);
    let grep = build_results(PaletteMode::All, "FIND", &workspaces(), &panels(), &actions);
    assert!(grep.iter().any(|item| item.id == CommandId::ToggleSearch));
    assert!(grep.len() < all.len());
    assert!(matches_query("hm", "zsh", &["/home"]));
    assert!(!matches_query("hm", "zsh", &[]));
}

#[test]
fn action_commands_have_unique_labels() {
    let entries = action_commands(&shortcuts());
    let labels: Vec<&str> = entries.iter().map(|e| e.label.as_str()).collect();
    let mut deduped = labels.clone();
    deduped.sort_unstable();
    deduped.dedup();
    assert_eq!(labels.len(), deduped.len(), "duplicate labels found");
}

#[test]
fn action_commands_all_have_shortcuts() {
    for entry in action_commands(&shortcuts()) {
        assert!(entry.shortcut.is_some(), "entry '{}' has no shortcut", entry.label);
    }
}

#[test]
fn action_commands_include_workspace_alignment() {
    let entries = action_commands(&shortcuts());
    let entry = entries
        .iter()
        .find(|entry| entry.id == CommandId::AlignWorkspacesHorizontally)
        .expect("workspace alignment command");

    assert_eq!(entry.label, "Align Workspaces");
    assert_eq!(entry.shortcut.as_deref(), Some("Ctrl+Shift+A"));
}

#[test]
fn action_commands_include_workspace_focus_and_fit() {
    let entries = action_commands(&shortcuts());

    let focus = entries
        .iter()
        .find(|entry| entry.id == CommandId::FocusActiveWorkspace)
        .expect("workspace focus command");
    let fit = entries
        .iter()
        .find(|entry| entry.id == CommandId::FitActiveWorkspace)
        .expect("workspace fit command");

    assert_eq!(focus.shortcut.as_deref(), Some("Ctrl+Shift+W"));
    assert_eq!(fit.shortcut.as_deref(), Some("Ctrl+Shift+9"));
}

#[test]
fn action_commands_reflect_custom_shortcuts() {
    let shortcuts = AppShortcuts {
        toggle_sidebar: "Alt+S".into(),
        ..shortcuts()
    };

    let entries = action_commands(&shortcuts);
    let entry = entries
        .iter()
        .find(|entry| entry.id == CommandId::ToggleSidebar)
        .expect("toggle sidebar command");

    assert_eq!(entry.shortcut.as_deref(), Some("Alt+S"));
}

#[test]
fn the_palette_clamps_steps_and_executes() {
    let actions = action_commands(&shortcuts());
    let items = build_results(PaletteMode::ActionsOnly, "zoom", &workspaces(), &panels(), &actions);
    let mut palette = CommandPalette::new(0);
    palette.selected = 99;
    let none = PaletteKeys { up: false, down: false, enter: false, escape: false };
    assert_eq!(palette.resolve(none, &items, None), PaletteAction::Idle);
    assert_eq!(palette.selected, items.len() - 1);
    let up_enter = PaletteKeys { up: true, enter: true, ..none };
    assert_eq!(
        palette.resolve(up_enter, &items, None),
        PaletteAction::Execute(items[items.len() - 2].id)
    );
    assert_eq!(
        palette.resolve(none, &items, Some(0)),
        PaletteAction::Execute(items[0].id)
    );
    let escape = PaletteKeys { escape: true, ..up_enter };
    assert_eq!(palette.resolve(escape, &items, Some(0)), PaletteAction::Cancelled);
    palette.edit_query("x".into());
    assert_eq!(palette.selected, 0);
    assert!(!palette.backdrop_cancels(true, 200) && palette.backdrop_cancels(true, 201));
    assert!(palette.wants_focus(false, 99) && !palette.wants_focus(false, 100));
    assert_eq!(palette_title(PaletteMode::PanelsOnly), "Panels");
    assert_eq!(Category::Preset.label(), "PRESETS");
}
