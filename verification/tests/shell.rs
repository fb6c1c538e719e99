use horizon_ui::branding::{app_icon, draw_icon, IconData, Paint, Shape, APP_ID, APP_NAME};
use horizon_ui::editor::{desired_rows, editor_title, PreviewMode, SaveState};
use horizon_ui::geometry::{Pos, ScreenRect};
use horizon_ui::modifiers::Modifiers;
use horizon_ui::palette_layout::{badge_span, detail_left, palette_layout, row_columns};
use horizon_ui::startup::{
    restored_window_size, resume_all_action, resume_prompt_text, session_summary,
    startup_headline, ChooserClicks, ResumeAllAction, ResumeOutcome, ResumePrompt,
    StartupChooserAction, StartupChooserState, StartupPromptReason,
};
use horizon_ui::tasks::{
    apply_task_status_refresh, assemble, find_preset, preferred_kind, repo_candidates,
    task_branch, task_panel_name, task_roles, update_task_workspace_branch, AgentKind,
    OverlayAction, RefreshPoll, ResolutionPoll, StatusRefresh, TaskPanel, TaskRole, TaskSpace,
    TaskStatusRefresh, TaskWorkspace, WorkItemOverlay,
};
use horizon_ui::updates::{
    check_plan, current_release_rid, installer_asset_name, installer_download_url,
    next_update_check_deadline, open_command, open_error, parse_storage_provider, prompt_for,
    prompt_title, update_check_is_due, ManagedInstall, StorageProvider, UpdateCheckMessage,
    UpdateState,
};
use horizon_ui::util::{
    clamp_panel_size, editor_panel_size, empty_state_hints, empty_string_as_none,
    format_compact_count, format_grid_position, primary_shortcut_label,
    primary_shortcut_modifier, short_session_id, truncate_session_label, workspace_label_width,
    OverlayExclusion,
};
use horizon_ui::work_resume::{
    asking_panels, banner_rect, banner_title, confirm_work_resume, reason_text, resume_button,
    AskReason, ResumePanel, ResumeRequest, ResumeStep,
};
use horizon_ui::workspace::{
    frame_alphas, label_cursor, label_tint, layout_selected, menu_choice, render_workspace_visual,
    toolbar_choice, wants_layout_toolbar, workspace_changes, workspace_frame, workspace_label_rect,
    workspace_layout_label, workspace_layout_toolbar_rect, LabelCursor, LabelResponse,
    RenameEditAction, RenameState, ToolbarClicks, VisualInput, WorkspaceAction,
    WorkspaceInteraction, WorkspaceItem, WorkspaceLayout, WorkspaceVisual,
};
use horizon_ui::yaml_highlight::{
    first_mapping_colon, highlight_sections, highlight_yaml, Tone,
};

#[test]
fn installer_asset_name_matches_release_assets() {
    assert_eq!(installer_asset_name("linux-x64"), Some("horizon-installer-linux-x64.bin"));
    assert_eq!(installer_asset_name("win-x64"), Some("horizon-installer-win-x64.exe"));
    assert_eq!(installer_asset_name("linux-arm64"), None);
}

#[test]
fn installer_download_url_uses_versioned_release_assets() {
    assert_eq!(
        installer_download_url("0.2.0", "horizon-installer-win-x64.exe"),
        "https://github.com/peters/horizon/releases/download/v0.2.0/horizon-installer-win-x64.exe"
    );
}

#[test]
fn update_check_is_due_when_deadline_has_passed() {
    let now = 5_000;
    assert!(update_check_is_due(now + 1_000, now));
    assert!(!update_check_is_due(now, now + 1_000));
}

#[test]
fn next_update_check_deadline_is_twenty_four_hours_out() {
    let now = 5_000;
    let deadline = next_update_check_deadline(now);
    assert_eq!(deadline - now, 24 * 60 * 60 * 1000);
}

#[test]
fn checks_run_once_a_day_and_one_at_a_time() {
    let mut state = UpdateState {
        managed_install: Some(ManagedInstall { stable_channel: true, github_releases: true }),
        next_check_at_ms: Some(100),
        checking: false,
        prompt: None,
    };
    assert!(!state.maybe_start_update_check(99));
    assert!(state.maybe_start_update_check(100));
    assert!(!state.maybe_start_update_check(200_000_000));
    assert!(state.poll_update_check(None).is_none());
    assert_eq!(
        state.poll_update_check(Some(UpdateCheckMessage::Error("offline".to_string()))).as_deref(),
        Some("offline")
    );
    assert!(!state.maybe_start_update_check(86_400_099));
    assert!(state.maybe_start_update_check(86_400_100));
    let prompt = prompt_for("0.3.0", "horizon-installer-linux-x64.bin");
    let _ = state.poll_update_check(Some(UpdateCheckMessage::Available(prompt)));
    assert!(!state.maybe_start_update_check(900_000_000));
    state.answer_prompt(Some(Err("no browser".to_string())), false);
    assert_eq!(
        state.prompt.as_ref().and_then(|prompt| prompt.error_message.as_deref()),
        Some("no browser")
    );
    state.answer_prompt(None, true);
    assert!(state.prompt.is_none());
    assert!(state.maybe_start_update_check(900_000_000));
    let _ = state.poll_update_check(Some(UpdateCheckMessage::Disconnected));
    assert!(!state.checking);
    let mut other = UpdateState {
        managed_install: Some(ManagedInstall { stable_channel: false, github_releases: true }),
        next_check_at_ms: Some(0),
        checking: false,
        prompt: None,
    };
    assert!(!other.maybe_start_update_check(1));
}

#[test]
fn a_check_needs_an_installer_and_a_known_store() {
    assert_eq!(current_release_rid("macos", "aarch64"), Some("osx-arm64"));
    assert_eq!(current_release_rid("linux", "aarch64"), None);
    assert!(matches!(parse_storage_provider(" GitHub_Releases "), Ok(StorageProvider::GitHubReleases)));
    assert_eq!(
        parse_storage_provider(" S3 ").err().as_deref(),
        Some("unsupported Surge storage provider for updates: s3")
    );
    assert!(matches!(check_plan("linux", "arm", "s3"), Ok(None)));
    assert!(check_plan("linux", "x86_64", "s3").is_err());
    assert!(matches!(
        check_plan("windows", "x86_64", "github"),
        Ok(Some((_, "horizon-installer-win-x64.exe")))
    ));
    assert_eq!(prompt_title("1.0"), "Horizon 1.0 is available.");
    assert_eq!(open_command("windows"), ("cmd", vec!["/C", "start", ""]));
    assert_eq!(open_command("linux"), ("xdg-open", Vec::new()));
    assert_eq!(open_error("x"), "failed to open installer download: x");
}

#[test]
fn panel_size_is_clamped_to_minimums() {
    let least = (280_000, 180_000);
    let clamped = clamp_panel_size((100_000, 120_000), least);
    assert_eq!(clamped.0, least.0);
    assert!(clamped.1 >= least.1);
    assert_eq!(clamp_panel_size((300_000, 120_000), least), (300_000, 180_000));
}

#[test]
fn grid_positions_are_rounded_for_display() {
    assert_eq!(format_grid_position(Pos { x: 12_400, y: -7_600 }), "12, -8");
    assert_eq!(format_grid_position(Pos { x: -3_500, y: 2_500 }), "-4, 3");
    assert_eq!(format_grid_position(Pos { x: -400, y: 499 }), "0, 0");
}

#[test]
fn primary_shortcut_modifier_accepts_ctrl() {
    let mut modifiers = Modifiers::none();
    modifiers.ctrl = true;
    assert!(primary_shortcut_modifier(modifiers));
}

#[test]
fn primary_shortcut_modifier_accepts_command() {
    let mut modifiers = Modifiers::none();
    modifiers.command = true;
    assert!(primary_shortcut_modifier(modifiers));
    assert!(!primary_shortcut_modifier(Modifiers::none()));
}

#[test]
fn primary_shortcut_label_matches_platform_convention() {
    for mac in [false, true] {
        let expected = if mac { "Cmd" } else { "Ctrl" };
        assert_eq!(primary_shortcut_label(mac), expected);
    }
    assert_eq!(empty_state_hints(false).0, "Ctrl+double-click to create a workspace.");
}

#[test]
fn labels_are_cut_counted_and_measured() {
    assert_eq!(empty_string_as_none(""), None);
    assert_eq!(empty_string_as_none("a"), Some("a"));
    assert_eq!(short_session_id("0123456789"), "01234567");
    assert_eq!(short_session_id("0123"), "0123");
    assert_eq!(short_session_id("0123456é9"), "0123456é9");
    assert_eq!(short_session_id("012345é9"), "012345é");
    assert_eq!(truncate_session_label("short"), "short");
    assert_eq!(truncate_session_label(&"x".repeat(41)), format!("{}…", "x".repeat(39)));
    assert_eq!(format_compact_count(999), "999");
    assert_eq!(format_compact_count(1_000), "1k");
    assert_eq!(format_compact_count(1_250), "1.2k");
    assert_eq!(format_compact_count(12_999), "12k");
    assert_eq!(workspace_label_width("Ab c", 0, 100_000), 86 + 76 + 45 + 76 + 600);
    assert_eq!(workspace_label_width("", 900, 2_000), 900);
    assert_eq!(editor_panel_size(None), (520, 400));
    assert_eq!(editor_panel_size(Some("")), (400, 280));
    assert_eq!(editor_panel_size(Some(&"0123456789".repeat(5))), (480, 280));
    assert_eq!(editor_panel_size(Some(&"é\n".repeat(20))), (400, 480));
    assert_eq!(editor_panel_size(Some(&"\n".repeat(500))), (400, 800));
}

#[test]
fn fixed_widgets_keep_their_places() {
    let zones = OverlayExclusion::new(vec![ScreenRect { min_x: 0, min_y: 0, max_x: 10, max_y: 10 }]);
    assert!(zones.intersects(ScreenRect { min_x: 10, min_y: 10, max_x: 20, max_y: 20 }));
    assert!(!zones.intersects(ScreenRect { min_x: 11, min_y: 0, max_x: 20, max_y: 20 }));
}

fn tones(text: &str) -> Vec<Tone> {
    highlight_yaml(text).iter().map(|run| run.tone).collect()
}

#[test]
fn comment_line_uses_dim() {
    assert_eq!(tones("# comment\n").last(), Some(&Tone::Comment));
}

#[test]
fn key_value_colored() {
    assert_eq!(tones("name: hello\n")[0], Tone::Key);
}

#[test]
fn quoted_string_is_green() {
    assert_eq!(tones("key: \"value\"\n")[2], Tone::Quoted);
}

#[test]
fn boolean_is_yellow() {
    assert_eq!(tones("enabled: true\n")[2], Tone::Constant);
}

#[test]
fn yaml_colours_follow_each_other_by_bytes() {
    let text = "  - \u{e9}: 'x' # note\n- 1.5e-3\nplain\n";
    let sections = highlight_sections(text);
    let mut at = 0;
    for section in &sections {
        assert_eq!(section.start, at);
        assert!(text.is_char_boundary(section.end));
        at = section.end;
    }
    assert_eq!(at, text.len());
    for constant in ["1", "-2.5", ".5", "5.", "+1e10", "1E-3", "inf", "-Infinity", "NaN", "~", "null"] {
        assert!(constant == "~" || constant == "null" || constant.parse::<f64>().is_ok());
        assert_eq!(tones(&format!("- {constant}\n"))[1], Tone::Constant, "{constant}");
    }
    for plain in ["", ".", "e5", "1e", "1.2.3", "0x10", "--1", "infinit"] {
        assert!(plain.parse::<f64>().is_err());
        assert!(!tones(&format!("- {plain}\n")).contains(&Tone::Constant), "{plain}");
    }
    assert_eq!(tones("url: http://x\n")[0], Tone::Key);
    assert_eq!(tones("'a: b'\n"), vec![Tone::Quoted, Tone::Plain]);
    assert_eq!(tones("a#b\n"), vec![Tone::Plain, Tone::Plain]);
}

#[test]
fn a_toolbar_is_as_wide_as_its_buttons() {
    let label = ScreenRect { min_x: 0, min_y: 0, max_x: 100_000, max_y: 24_000 };
    let three = vec![WorkspaceLayout::Rows, WorkspaceLayout::Columns, WorkspaceLayout::Grid];
    let rect = workspace_layout_toolbar_rect(label, &three, true);
    assert_eq!(rect.min_x, 110_000);
    assert_eq!(rect.max_x - rect.min_x, (60 + 3 * 44 + 4 * 4 + 54 + 2 * 6) * 1000);
    assert_eq!(rect.max_y - rect.min_y, (24 + 2 * 5) * 1000);
    let five = vec![
        WorkspaceLayout::Rows,
        WorkspaceLayout::Columns,
        WorkspaceLayout::Grid,
        WorkspaceLayout::Stack,
        WorkspaceLayout::Cascade,
    ];
    let rect = workspace_layout_toolbar_rect(label, &five, false);
    assert_eq!(rect.max_x - rect.min_x, (60 + 3 * 44 + 52 + 68 + 5 * 4 + 2 * 6) * 1000);
    assert_eq!(workspace_layout_label(WorkspaceLayout::Columns), "Cols");
    assert!(layout_selected(None, None));
    assert!(!layout_selected(Some(WorkspaceLayout::Grid), None));
    let clicks = ToolbarClicks { default: true, preset: Some(2), detach: false };
    assert_eq!(
        toolbar_choice(&three, clicks),
        Some(WorkspaceAction::ArrangeLayout(WorkspaceLayout::Grid))
    );
    assert_eq!(
        toolbar_choice(&three, ToolbarClicks { detach: true, ..clicks }),
        Some(WorkspaceAction::Detach)
    );
    assert_eq!(menu_choice(&three, false, None, true, 0), None);
    assert_eq!(menu_choice(&three, false, None, true, 2), Some(WorkspaceAction::CloseAllPanels));
}

#[test]
fn a_frame_never_starts_above_the_canvas() {
    let bounds = Some((Pos { x: -5, y: -100 }, Pos { x: 50, y: -20 }));
    let (rect, empty) = workspace_frame(bounds, Pos { x: 0, y: 0 }, 10, 100, 100);
    assert!(!empty);
    assert_eq!(rect, ScreenRect { min_x: -5, min_y: 10, max_x: 50, max_y: 10 });
    let (rect, empty) = workspace_frame(None, Pos { x: 7, y: 3 }, 10, 100, 200);
    assert!(empty);
    assert_eq!(rect, ScreenRect { min_x: 7, min_y: 10, max_x: 107, max_y: 210 });
    let label = workspace_label_rect(rect, 5, 6);
    assert_eq!(label, ScreenRect { min_x: 14_007, min_y: 12_010, max_x: 14_012, max_y: 12_016 });
    assert_eq!(label_cursor(true, true), LabelCursor::Grabbing);
    assert_eq!(label_cursor(true, false), LabelCursor::Grab);
    assert_eq!(frame_alphas(true), (110, 24));
    assert_eq!(label_tint(true, false, false), (14, 160));
    assert_eq!(label_tint(false, false, true), (22, 90));
}

fn response() -> LabelResponse {
    LabelResponse {
        hovered: false,
        clicked: true,
        double_clicked: true,
        drag_started: false,
        dragged: false,
        drag_stopped: false,
        drag_delta: Pos { x: 3, y: 4 },
    }
}

#[test]
fn a_label_is_clicked_edited_or_hidden() {
    let zones = OverlayExclusion::new(Vec::new());
    let visual = WorkspaceVisual {
        label_hidden: false,
        panel_count: 2,
        toolbar_rect: ScreenRect { min_x: 0, min_y: 0, max_x: 1, max_y: 1 },
    };
    let input = VisualInput {
        renaming: None,
        response: response(),
        menu: None,
        toolbar: Some(WorkspaceAction::ClearLayout),
        show_layout_toolbar: true,
    };
    let (interaction, toolbar) = render_workspace_visual(visual, input, &zones);
    assert!(toolbar && interaction.activate_workspace && interaction.start_rename);
    assert_eq!(interaction.action, Some(WorkspaceAction::ClearLayout));
    let (hidden, toolbar) =
        render_workspace_visual(WorkspaceVisual { label_hidden: true, ..visual }, input, &zones);
    assert!(!toolbar && !hidden.activate_workspace && hidden.action.is_none());
    let editing = VisualInput { renaming: Some(RenameEditAction::Commit), ..input };
    let (edited, toolbar) = render_workspace_visual(visual, editing, &zones);
    assert!(!toolbar && !edited.start_rename);
    assert_eq!(edited.rename_action, RenameEditAction::Commit);
    let blocked = OverlayExclusion::new(vec![visual.toolbar_rect]);
    assert!(!render_workspace_visual(visual, input, &blocked).1);
    let (empty, toolbar) =
        render_workspace_visual(WorkspaceVisual { panel_count: 0, ..visual }, input, &zones);
    assert!(!toolbar && empty.action.is_none());
}

fn item(id: u64, name: &str, interaction: WorkspaceInteraction) -> WorkspaceItem {
    WorkspaceItem { id, name: name.to_string(), interaction }
}

fn still() -> WorkspaceInteraction {
    WorkspaceInteraction {
        activate_workspace: false,
        drag_delta: Pos { x: 0, y: 0 },
        drag_stopped: false,
        start_rename: false,
        rename_action: RenameEditAction::Idle,
        action: None,
    }
}

#[test]
fn a_frame_of_clicks_becomes_one_change_of_the_board() {
    let mut rename = RenameState { renaming: None, buffer: String::new() };
    let items = vec![
        item(1, "one", WorkspaceInteraction { activate_workspace: true, drag_delta: Pos { x: 5, y: 0 }, ..still() }),
        item(2, "two", WorkspaceInteraction { action: Some(WorkspaceAction::ArrangeLayout(WorkspaceLayout::Grid)), ..still() }),
        item(3, "three", WorkspaceInteraction { start_rename: true, ..still() }),
    ];
    let change = workspace_changes(&items, &mut rename, false);
    assert_eq!(change.focus, Some(2));
    assert_eq!(change.arrange, Some((2, WorkspaceLayout::Grid)));
    assert_eq!(change.moves, vec![(1, Pos { x: 5, y: 0 })]);
    assert!(change.clear_panel_rename && change.rename.is_none());
    assert_eq!(rename.renaming, Some(3));
    assert_eq!(rename.buffer, "three");

    rename.buffer = "  four ".to_string();
    let commit = vec![item(3, "three", WorkspaceInteraction { rename_action: RenameEditAction::Commit, ..still() })];
    let change = workspace_changes(&commit, &mut rename, true);
    assert_eq!(change.rename, Some((3, "four".to_string())));
    assert!(rename.renaming.is_none());
    assert!(workspace_changes(&items, &mut rename, true).moves.is_empty());

    rename.buffer = "   ".to_string();
    let change = workspace_changes(&commit, &mut rename, false);
    assert!(change.rename.is_none());
    assert!(rename.renaming.is_none());
}

#[test]
fn a_toolbar_is_asked_for_where_it_is_used() {
    let toolbar = ScreenRect {
        min_x: 100,
        min_y: 10,
        max_x: 200,
        max_y: 30,
    };
    let on = Some(Pos { x: 150, y: 20 });
    let off = Some(Pos { x: 250, y: 20 });
    assert!(!wants_layout_toolbar(0, true, true, toolbar, on));
    assert!(wants_layout_toolbar(1, true, false, toolbar, None));
    assert!(wants_layout_toolbar(1, false, true, toolbar, off));
    assert!(wants_layout_toolbar(2, false, false, toolbar, on));
    assert!(!wants_layout_toolbar(2, false, false, toolbar, off));
    assert!(!wants_layout_toolbar(2, false, false, toolbar, None));
}

#[test]
fn the_icon_is_opaque_and_has_its_colours() {
    let icon = app_icon(None);
    assert_eq!((icon.width, icon.height), (256, 256));
    assert_eq!(icon.rgba.len(), 256 * 256 * 4);
    assert!(icon.rgba.chunks(4).all(|pixel| pixel[3] == 255));
    let pixel = |x: usize, y: usize| {
        let at = (y * 256 + x) * 4;
        [icon.rgba[at], icon.rgba[at + 1], icon.rgba[at + 2]]
    };
    assert_eq!(pixel(128, 60), [239, 245, 251]);
    assert_eq!(pixel(128, 52), [118, 216, 255]);
    assert_eq!(pixel(0, 0), [17, 31, 48]);
    assert_eq!(pixel(24, 128), [54, 88, 122]);
    assert_eq!(pixel(140, 152), [239, 245, 251]);
    assert_eq!(pixel(82, 108), [255, 170, 114]);
    assert_eq!((APP_NAME, APP_ID), ("Horizon", "horizon"));
}

#[test]
fn the_glow_fades_out_and_is_rounded_once() {
    let shell = Shape::Circle {
        x: 128,
        y: 118,
        radius: 100,
        paint: Paint::Shell,
    };
    let glow = Shape::Glow {
        x: 128,
        y: 118,
        radius: 94,
    };
    let icon = draw_icon(&vec![shell, glow]);
    let pixel = |x: usize, y: usize| {
        let at = (y * 256 + x) * 4;
        [icon.rgba[at], icon.rgba[at + 1], icon.rgba[at + 2], icon.rgba[at + 3]]
    };
    assert_eq!(pixel(128, 118), [30, 54, 84, 255]);
    assert_eq!(pixel(129, 119), [30, 54, 84, 255]);
    assert_eq!(pixel(138, 118), [29, 52, 80, 255]);
    assert_eq!(pixel(222, 118), [17, 32, 48, 255]);
    assert_eq!(pixel(223, 118), [17, 32, 48, 255]);
}

#[test]
fn a_mapping_colon_stands_before_white_space_or_the_end() {
    let colon = |line: &str| first_mapping_colon(&line.chars().collect::<Vec<char>>());
    assert_eq!(colon("key:\tvalue"), Some(3));
    assert_eq!(colon("key:\r\n"), Some(3));
    assert_eq!(colon("  key: value"), Some(5));
    assert_eq!(colon("key:"), Some(3));
    assert_eq!(colon("http://host"), None);
    assert_eq!(colon("'a: b': c"), Some(6));
    assert_eq!(colon("\"a: b\""), None);
}

#[test]
fn an_embedded_icon_that_decodes_is_the_icon() {
    let embedded = IconData {
        rgba: vec![7; 128 * 128 * 4],
        width: 128,
        height: 128,
    };
    let icon = app_icon(Some(embedded));
    assert_eq!((icon.width, icon.height), (128, 128));
    assert_eq!(icon.rgba.len(), 128 * 128 * 4);
    assert!(icon.rgba.len() < 262_140, "it fits an X11 request");
    assert!(icon.rgba.iter().all(|byte| *byte == 7));
}

#[test]
fn agents_are_resumed_or_started_fresh() {
    assert_eq!(resume_all_action(false, true, true, false), ResumeAllAction::StartFresh);
    assert_eq!(resume_all_action(false, false, true, true), ResumeAllAction::ResumeAll);
    assert_eq!(resume_all_action(false, false, false, true), ResumeAllAction::StartFresh);
    assert_eq!(resume_all_action(false, false, false, false), ResumeAllAction::Idle);
    assert_eq!(
        resume_prompt_text(1),
        "This session has 1 agent panel that can reattach to its previous session."
    );
    assert_eq!(
        resume_prompt_text(3),
        "This session has 3 agent panels that can reattach to their previous sessions."
    );
    let mut prompt = ResumePrompt { waiting: None };
    assert_eq!(prompt.prepare_resume_all_prompt(ResumeAllAction::ResumeAll), ResumeOutcome::Clear);
    assert!(!prompt.maybe_queue_resume_all_prompt(0));
    assert!(prompt.maybe_queue_resume_all_prompt(2));
    assert_eq!(prompt.prepare_resume_all_prompt(ResumeAllAction::Idle), ResumeOutcome::Waiting);
    assert_eq!(
        prompt.prepare_resume_all_prompt(ResumeAllAction::StartFresh),
        ResumeOutcome::Activate { fresh: true }
    );
    assert!(prompt.waiting.is_none());
}

#[test]
fn a_session_is_chosen_before_it_is_opened() {
    let mut chooser = StartupChooserState {
        reason: StartupPromptReason::LiveConflict,
        selected_session_id: None,
        error: None,
    };
    let clicks = ChooserClicks { take_over: true, open_copy: true, resume: true, open_new: false };
    assert!(matches!(chooser.action(clicks), StartupChooserAction::Idle));
    chooser.select("s1");
    assert!(chooser.is_selected("s1") && !chooser.is_selected("s2"));
    assert!(matches!(chooser.action(clicks), StartupChooserAction::TakeOver(id) if id == "s1"));
    let copy = ChooserClicks { take_over: false, ..clicks };
    assert!(matches!(chooser.action(copy), StartupChooserAction::OpenCopy(id) if id == "s1"));
    let new = ChooserClicks { open_new: true, ..clicks };
    assert!(matches!(chooser.action(new), StartupChooserAction::OpenNewSession));
    chooser.reason = StartupPromptReason::MultipleRecoverable;
    let resume = chooser.action(clicks);
    assert!(matches!(&resume, StartupChooserAction::Resume(id) if id == "s1"));
    chooser.set_startup_error(&resume, "locked");
    assert_eq!(chooser.error.as_deref(), Some("Failed to resume session: locked"));
    assert_eq!(
        startup_headline(chooser.reason),
        "Multiple recoverable sessions are available."
    );
    assert_eq!(session_summary(2, 5, "now"), "2 workspaces · 5 panels · now");
    assert_eq!(restored_window_size(1, 9_000_000), (800_000, 4_320_000));
}

#[test]
fn work_goes_on_only_after_somebody_looked() {
    let panel = ResumePanel {
        supports_binding: false,
        kilo_code: true,
        remote_workspace: false,
        enabled: true,
        max_downtime_seconds: 7_300,
        pending: Some(AskReason::Downtime),
    };
    assert!(panel.has_controls());
    assert!(!ResumePanel { remote_workspace: true, ..panel }.has_controls());
    assert_eq!(panel.downtime_hours(), 2);
    let mut other = panel;
    other.set_downtime_hours(1_000);
    assert_eq!(other.max_downtime_seconds, 168 * 3600);
    let panels = vec![ResumePanel { enabled: false, ..panel }, panel, ResumePanel { pending: None, ..panel }, panel];
    assert_eq!(asking_panels(&panels), vec![1, 3]);
    assert_eq!(banner_title(2), "Review work before continuing (2)");
    assert_eq!(reason_text(AskReason::Downtime), "The session was away longer than allowed.");
    let canvas = ScreenRect { min_x: 0, min_y: 0, max_x: 400_000, max_y: 900_000 };
    assert_eq!(
        banner_rect(canvas, true, true),
        Some(ScreenRect { min_x: 8_000, min_y: 8_000, max_x: 392_000, max_y: 168_000 })
    );
    assert_eq!(banner_rect(canvas, false, true), None);
    assert_eq!(resume_button(Some("busy")), (false, "busy"));
    assert!(resume_button(None).0);
    assert!(matches!(
        confirm_work_resume(ResumeRequest::Refused("no".to_string()), Some(4)),
        ResumeStep::Attention { workspace: 4, error } if error == "no"
    ));
    assert!(matches!(confirm_work_resume(ResumeRequest::Accepted, None), ResumeStep::Restart));
    assert!(matches!(confirm_work_resume(ResumeRequest::Gone, Some(4)), ResumeStep::Nothing));
}

#[test]
fn an_editor_marks_what_is_not_saved() {
    assert_eq!(editor_title(Some("a.md"), true).as_deref(), Some("* a.md"));
    assert_eq!(editor_title(Some("a.md"), false).as_deref(), Some("a.md"));
    assert_eq!(editor_title(None, true).as_deref(), Some("* scratch"));
    assert_eq!(editor_title(None, false), None);
    assert_eq!(PreviewMode::Split.clicked(false, false), PreviewMode::Split);
    assert_eq!(PreviewMode::Split.clicked(true, false), PreviewMode::Edit);
    assert!(PreviewMode::Split.shows_preview());
    let mut state = SaveState { dirty: false };
    assert!(!state.shortcut(true, false));
    assert!(!state.changed(true, false));
    assert!(state.shortcut(true, false) && !state.shortcut(true, true));
    assert!(state.changed(true, true));
    assert_eq!(desired_rows(200_000, 17_000), 12);
    assert_eq!(desired_rows(0, 17_000), 1);
}

#[test]
fn a_work_item_is_asked_for_once_and_heard_of_once() {
    let mut overlay = WorkItemOverlay::closed();
    assert!(overlay.act(OverlayAction::Submit("1".to_string()), true).is_none());
    overlay.open_overlay();
    assert!(overlay.act(OverlayAction::Submit("1".to_string()), false).is_none());
    assert_eq!(
        overlay.error.as_deref(),
        Some("No active local GitHub repo found in the current workspace.")
    );
    assert!(overlay.act(OverlayAction::Submit(String::new()), true).is_none());
    assert_eq!(overlay.error.as_deref(), Some("Enter a GitHub reference first."));
    assert_eq!(overlay.act(OverlayAction::Submit("#12".to_string()), true).as_deref(), Some("#12"));
    assert!(!overlay.poll(ResolutionPoll::Waiting) && overlay.resolving);
    assert!(!overlay.poll(ResolutionPoll::Failed("not found".to_string())));
    assert_eq!(overlay.error.as_deref(), Some("not found"));
    assert!(!overlay.poll(ResolutionPoll::Found));
    let _ = overlay.act(OverlayAction::Submit("#12".to_string()), true);
    assert!(!overlay.poll(ResolutionPoll::Disconnected));
    assert_eq!(overlay.error.as_deref(), Some("GitHub resolution worker disconnected."));
    let _ = overlay.act(OverlayAction::Submit("#12".to_string()), true);
    assert!(overlay.poll(ResolutionPoll::Found));
    assert!(!overlay.open);
}

fn task_panel(role: Option<TaskRole>, branch: Option<&str>, pr: Option<&str>) -> TaskPanel {
    TaskPanel { role, branch: branch.map(str::to_owned), pr_state: pr.map(str::to_owned) }
}

#[test]
fn a_task_has_three_agents_and_a_state() {
    assert_eq!(task_roles(), vec![TaskRole::Research, TaskRole::Implement, TaskRole::Review]);
    assert_eq!(preferred_kind(TaskRole::Implement), AgentKind::Codex);
    assert_eq!(preferred_kind(TaskRole::Review), AgentKind::Claude);
    assert_eq!(find_preset(&vec![AgentKind::Claude, AgentKind::Codex], AgentKind::Codex), Some(1));
    assert_eq!(find_preset(&Vec::new(), AgentKind::Codex), None);
    assert_eq!(task_panel_name("Review", "#12"), "Review · #12");
    assert_eq!(assemble(&vec![Some(4), Some(5)]), TaskWorkspace::Ready { focus: 5 });
    assert_eq!(assemble(&vec![Some(4), None]), TaskWorkspace::Closed);
    assert_eq!(assemble(&Vec::new()), TaskWorkspace::Bare);
    assert_eq!(
        repo_candidates(&None, &Some("/b".to_string()), &Some("/c".to_string()), &None),
        vec!["/b", "/c"]
    );

    let mut panels = vec![
        task_panel(None, Some("x"), None),
        task_panel(Some(TaskRole::Review), None, Some("open")),
        task_panel(Some(TaskRole::Research), Some("fix"), None),
    ];
    assert_eq!(task_branch(&panels).as_deref(), Some("fix"));
    assert!(apply_task_status_refresh(&mut panels, &Some("merged".to_string())));
    assert!(!apply_task_status_refresh(&mut panels, &Some("merged".to_string())));
    assert_eq!(panels[0].pr_state, None);
    assert_eq!(panels[1].pr_state.as_deref(), Some("merged"));
    update_task_workspace_branch(&mut panels, &None);
    assert_eq!(panels[0].branch.as_deref(), Some("x"));
    assert_eq!(panels[2].branch, None);
}

#[test]
fn a_refresh_is_asked_for_every_quarter_minute() {
    let mut refresh = StatusRefresh { in_flight: false, last_ms: None };
    assert!(!refresh.maybe_start_task_status_refresh(0, false));
    assert!(refresh.maybe_start_task_status_refresh(0, true));
    assert!(!refresh.maybe_start_task_status_refresh(99_000, true));
    refresh.over(1_000);
    assert!(!refresh.maybe_start_task_status_refresh(15_999, true));
    assert!(refresh.maybe_start_task_status_refresh(16_000, true));
    refresh.over(16_500);
    refresh.forget();
    assert!(refresh.maybe_start_task_status_refresh(16_501, true));
}

#[test]
fn reports_reach_the_panels_of_their_workspace() {
    let space = |id, bound| TaskSpace {
        id,
        bound,
        panels: vec![
            task_panel(Some(TaskRole::Review), Some("fix"), None),
            task_panel(None, None, None),
        ],
    };
    let report = |workspace_id, state: &str| TaskStatusRefresh {
        workspace_id,
        pr_state: Some(state.to_string()),
    };
    let mut spaces = vec![space(1, false), space(2, true), space(3, true)];
    let mut refresh = StatusRefresh { in_flight: false, last_ms: None };
    let (changed, asked) = refresh.poll_task_status_refresh(&RefreshPoll::Waiting, &mut spaces, 0);
    assert!(!changed);
    let asked = asked.expect("a first refresh");
    let asked: Vec<_> = asked.iter().map(|q| (q.workspace_id, q.branch.as_deref())).collect();
    assert_eq!(asked, [(2, Some("fix")), (3, Some("fix"))]);
    assert!(refresh.in_flight);

    let done = RefreshPoll::Done(vec![report(2, "open"), report(9, "open"), report(2, "merged")]);
    let (changed, asked) = refresh.poll_task_status_refresh(&done, &mut spaces, 500);
    assert!(changed);
    assert!(asked.is_none(), "the next one waits");
    assert_eq!(spaces[1].panels[0].pr_state.as_deref(), Some("merged"));
    assert_eq!(spaces[1].panels[1].pr_state, None);
    assert_eq!(spaces[2].panels[0].pr_state, None);
    let same = RefreshPoll::Done(vec![report(2, "merged")]);
    assert!(!refresh.poll_task_status_refresh_result(&same, &mut spaces, 600));
    assert!(!refresh.poll_task_status_refresh_result(&RefreshPoll::Disconnected, &mut spaces, 700));
    assert_eq!(refresh, StatusRefresh { in_flight: false, last_ms: Some(700) });
}

#[test]
fn the_palette_is_centred_and_its_rows_keep_apart() {
    let layout = palette_layout(1_000_000, 2_000_000);
    assert_eq!(layout.results_height, (12 * 36 + 4 * 28) * 1000);
    assert_eq!(layout.card.left, 250_000);
    assert_eq!(layout.card.height, (44 + 16 + 544 + 60) * 1000);
    assert_eq!(layout.card.top, (2_000_000 - 664_000) / 4);
    assert_eq!(layout.inner.left, 270_000);
    let row = ScreenRect { min_x: 0, min_y: 0, max_x: 460_000, max_y: 36_000 };
    let columns = row_columns(row, true, Some(40_000));
    assert_eq!(columns.label_left, 30_000);
    assert_eq!(columns.content_right, 380_000);
    assert_eq!(columns.label_room, 350_000);
    assert_eq!(detail_left(columns, 100_000, true), Some(142_000));
    assert_eq!(detail_left(columns, 350_000, true), None);
    assert_eq!(detail_left(columns, 100_000, false), None);
    assert_eq!(badge_span(row, 40_000), (400_000, 52_000));
}
