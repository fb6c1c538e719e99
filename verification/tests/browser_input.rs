use horizon_ui::browser::keyboard::{
    app_shortcut_press, committed_text_after_key, editing_command, ensure_clipboard_primary,
    take_matching_single_char, to_browser_modifiers, BoundShortcut, BrowserCommand,
    BrowserEditCommand, KeyEvent, KeyState, PageEvent,
};
use horizon_ui::browser::keys::{key_to_browser_key, BrowserKey, BrowserModifiers};
use horizon_ui::browser::pointer::{
    button_mask, cdp_wheel_delta, modifiers_for_event, next_click_count, should_track_pointer,
    BrowserButton, BrowserPointerClick, ClickThresholds, PointerCommand, PointerEvent,
    PointerFrame, PointerState, BUTTON_LEFT, BUTTON_RIGHT,
};
use horizon_ui::device::capture::WheelUnit;
use horizon_ui::device::input::PointerButton;
use horizon_ui::geometry::{Pos, ScreenRect};
use horizon_ui::modifiers::Modifiers;

fn pos(x: i32, y: i32) -> Pos {
    Pos { x, y }
}

fn shift() -> Modifiers {
    let mut modifiers = Modifiers::none();
    modifiers.shift = true;
    modifiers
}

fn plain() -> BrowserModifiers {
    to_browser_modifiers(Modifiers::none())
}

fn key_event(name: &str, pressed: bool, modifiers: Modifiers) -> KeyEvent {
    KeyEvent {
        key: key_to_browser_key(name),
        pressed,
        repeat: false,
        modifiers,
        shortcuts: Vec::new(),
        predicted: None,
    }
}

fn press(key: egui::Key, modifiers: Modifiers) -> PageEvent {
    PageEvent::Key(key_event(key.name(), true, modifiers))
}

#[test]
fn committed_text_is_layout_authoritative() {
    let events = vec![press(egui::Key::Semicolon, shift()), PageEvent::Text(";".to_owned())];
    assert_eq!(committed_text_after_key(&events, 0), Some(';'));
}

#[test]
fn committed_text_does_not_cross_the_next_key_event() {
    let events = vec![
        press(egui::Key::A, Modifiers::none()),
        press(egui::Key::B, Modifiers::none()),
        PageEvent::Text("b".to_owned()),
    ];
    assert_eq!(committed_text_after_key(&events, 0), None);
    assert_eq!(committed_text_after_key(&events, 1), Some('b'));
}

#[test]
fn committed_text_does_not_cross_a_multi_character_text_event() {
    let events = vec![
        press(egui::Key::A, Modifiers::none()),
        PageEvent::Text("paste".to_owned()),
        PageEvent::Text("a".to_owned()),
    ];
    assert_eq!(committed_text_after_key(&events, 0), None);
}

#[test]
fn app_shortcuts_are_filtered_only_when_the_app_owns_them() {
    let escape = vec![BoundShortcut::ExitFullscreenPanel];
    let fullscreen = vec![BoundShortcut::Other];
    let save_editor = vec![BoundShortcut::SaveEditor];

    assert!(app_shortcut_press(&fullscreen, false));
    assert!(!app_shortcut_press(&escape, false));
    assert!(app_shortcut_press(&escape, true));
    assert!(!app_shortcut_press(&save_editor, false));
}

#[test]
fn suppressed_release_is_consumed_after_modifiers_change() {
    let mut state = KeyState::new();
    state.suppressed.push(BrowserKey::Char('r'));

    assert!(state.consume_suppressed_key(Some(BrowserKey::Char('r')), false));
    assert!(!state.suppressed.contains(&BrowserKey::Char('r')));
    assert!(!state.consume_suppressed_key(Some(BrowserKey::Char('r')), false));
}

#[test]
fn url_focus_keeps_browser_reload_shortcuts_routable() {
    let mut state = KeyState::new();
    let mut command_r = Modifiers::none();
    command_r.mac_cmd = true;
    command_r.command = true;
    let key = |key: egui::Key| key_to_browser_key(key.name());

    assert!(state.should_route_key_while_url_focused(key(egui::Key::F5), Modifiers::none()));
    assert!(state.should_route_key_while_url_focused(key(egui::Key::R), command_r));
    assert!(!state.should_route_key_while_url_focused(key(egui::Key::A), Modifiers::none()));

    state.suppressed.push(BrowserKey::Char('r'));
    assert!(state.should_route_key_while_url_focused(key(egui::Key::R), Modifiers::none()));
}

#[test]
fn clipboard_shortcuts_suppress_their_later_native_release() {
    let mut state = KeyState::new();
    state.clipboard.push(BrowserKey::Char('c'));
    state.clipboard.push(BrowserKey::Char('x'));

    assert!(state.consume_clipboard_release(Some(BrowserKey::Char('c')), false));
    assert!(state.consume_clipboard_release(Some(BrowserKey::Char('x')), false));
    assert!(state.clipboard.is_empty());
}

#[test]
fn a_new_clipboard_key_press_retires_stale_release_suppression() {
    let mut state = KeyState::new();
    state.clipboard.push(BrowserKey::Char('c'));

    assert!(!state.consume_clipboard_release(Some(BrowserKey::Char('c')), true));
    assert!(state.clipboard.is_empty());
}

#[test]
fn clipboard_pseudo_events_restore_a_released_primary_modifier() {
    assert!(ensure_clipboard_primary(plain(), true).meta);
    assert!(ensure_clipboard_primary(plain(), false).ctrl);
}

#[test]
fn primary_a_requests_chromium_select_all() {
    for mac in [false, true] {
        let modifiers = BrowserModifiers { meta: mac, ctrl: !mac, ..plain() };
        assert_eq!(
            editing_command(BrowserKey::Char('a'), modifiers, mac),
            Some(BrowserEditCommand::SelectAll)
        );
        assert_eq!(
            editing_command(
                BrowserKey::Char('a'),
                BrowserModifiers { shift: true, ..modifiers },
                mac
            ),
            None
        );
    }
}

#[test]
fn keys_have_the_names_that_egui_gives_them() {
    assert_eq!(key_to_browser_key(egui::Key::ArrowUp.name()), Some(BrowserKey::ArrowUp));
    assert_eq!(key_to_browser_key(egui::Key::ArrowDown.name()), Some(BrowserKey::ArrowDown));
    assert_eq!(key_to_browser_key(egui::Key::Enter.name()), Some(BrowserKey::Enter));
    assert_eq!(key_to_browser_key(egui::Key::Tab.name()), Some(BrowserKey::Tab));
    assert_eq!(key_to_browser_key(egui::Key::Escape.name()), Some(BrowserKey::Escape));
    assert_eq!(key_to_browser_key(egui::Key::Space.name()), Some(BrowserKey::Space));
    assert_eq!(key_to_browser_key(egui::Key::F5.name()), Some(BrowserKey::Function(5)));
    assert_eq!(key_to_browser_key(egui::Key::F12.name()), Some(BrowserKey::Function(12)));
    assert_eq!(key_to_browser_key(egui::Key::F13.name()), None);
    assert_eq!(key_to_browser_key(egui::Key::Z.name()), Some(BrowserKey::Char('z')));
    assert_eq!(key_to_browser_key(egui::Key::Num7.name()), Some(BrowserKey::Char('7')));
    assert_eq!(key_to_browser_key(egui::Key::Semicolon.name()), Some(BrowserKey::Char(';')));
}

#[test]
fn text_that_a_key_carries_is_not_inserted_again() {
    let mut candidates = vec!['a', 'b'];
    assert!(take_matching_single_char("b", &mut candidates));
    assert!(!take_matching_single_char("b", &mut candidates));
    assert!(!take_matching_single_char("ab", &mut candidates));
    assert_eq!(candidates, vec!['a']);

    let mut state = KeyState::new();
    let mut commands = Vec::new();
    let events = vec![
        press(egui::Key::A, Modifiers::none()),
        PageEvent::Text("a".to_owned()),
        PageEvent::Text("é".to_owned()),
        PageEvent::Paste("two".to_owned()),
    ];
    state.events(&events, false, Modifiers::none(), false, &mut commands);
    assert_eq!(commands.len(), 3);
    assert!(matches!(
        &commands[0],
        BrowserCommand::KeyDown { key: BrowserKey::Char('a'), text: Some(text), repeat: false, .. }
            if text == "a"
    ));
    assert!(matches!(&commands[1], BrowserCommand::InsertText(text) if text == "é"));
    assert!(matches!(&commands[2], BrowserCommand::InsertText(text) if text == "two"));
}

#[test]
fn app_shortcuts_keep_press_and_release_from_the_page() {
    let mut state = KeyState::new();
    let mut commands = Vec::new();
    let mut owned = key_event("F", true, Modifiers::none());
    owned.shortcuts.push(BoundShortcut::Other);
    let events = vec![
        PageEvent::Key(owned),
        PageEvent::Text("f".to_owned()),
        PageEvent::Key(key_event("F", false, shift())),
    ];
    state.events(&events, false, Modifiers::none(), false, &mut commands);
    assert!(commands.is_empty());
    assert!(state.suppressed.is_empty());
}

#[test]
fn losing_the_keyboard_releases_every_key_and_orphan_repeats_are_dropped() {
    let mut state = KeyState::new();
    let mut commands = Vec::new();
    let events = vec![press(egui::Key::A, Modifiers::none()), press(egui::Key::B, Modifiers::none())];
    state.events(&events, false, Modifiers::none(), false, &mut commands);
    assert_eq!(state.pressed.len(), 2);

    let mut released = Vec::new();
    state.release_pressed_keys(plain(), &mut released);
    assert_eq!(released.len(), 2);
    assert!(released.iter().all(|command| matches!(command, BrowserCommand::KeyUp { .. })));
    assert!(state.pressed.is_empty());

    let mut repeat = key_event("A", true, Modifiers::none());
    repeat.repeat = true;
    let mut more = Vec::new();
    state.events(&vec![PageEvent::Key(repeat)], false, Modifiers::none(), false, &mut more);
    assert!(more.is_empty());
}

#[test]
fn copy_sends_a_whole_chord_and_reload_only_once() {
    let mut state = KeyState::new();
    let mut commands = Vec::new();
    state.events(&vec![PageEvent::Copy], false, Modifiers::none(), false, &mut commands);
    assert_eq!(commands.len(), 2);
    assert!(matches!(
        &commands[0],
        BrowserCommand::KeyDown {
            key: BrowserKey::Char('c'),
            edit_command: Some(BrowserEditCommand::Copy),
            modifiers: BrowserModifiers { ctrl: true, .. },
            ..
        }
    ));
    assert!(matches!(&commands[1], BrowserCommand::KeyUp { key: BrowserKey::Char('c'), .. }));
    assert_eq!(state.clipboard, vec![BrowserKey::Char('c')]);

    let mut reloads = Vec::new();
    let mut held = key_event("F5", true, Modifiers::none());
    held.repeat = true;
    state.events(
        &vec![press(egui::Key::F5, Modifiers::none()), PageEvent::Key(held)],
        false,
        Modifiers::none(),
        false,
        &mut reloads,
    );
    assert_eq!(reloads.len(), 1);
    assert!(matches!(reloads[0], BrowserCommand::Reload));
}

#[test]
fn covered_panel_ignores_pointer_until_it_owns_capture() {
    assert!(!should_track_pointer(false, true, false));
    assert!(should_track_pointer(true, true, false));
    assert!(should_track_pointer(false, false, true));
}

#[test]
fn wheel_deltas_follow_the_dom_direction() {
    let delta = |x, y| {
        (cdp_wheel_delta(WheelUnit::Line, x), cdp_wheel_delta(WheelUnit::Line, y))
    };
    assert_eq!(delta(2_000, 3_000), (-32_000, -48_000));
    assert_eq!(delta(-2_000, -3_000), (32_000, 48_000));
    assert_eq!(cdp_wheel_delta(WheelUnit::Point, 7_000), -7_000);
    assert_eq!(cdp_wheel_delta(WheelUnit::Page, -1_000), 500_000);
}

#[test]
fn pointer_events_keep_their_modifier_snapshots() {
    let shift_click = PointerEvent::Button {
        global: pos(0, 0),
        local: pos(0, 0),
        button: PointerButton::Primary,
        pressed: true,
        modifiers: shift(),
    };
    let later_unmodified_key = PointerEvent::Key { modifiers: Modifiers::none() };

    assert_eq!(modifiers_for_event(shift_click), Some(shift()));
    assert_eq!(modifiers_for_event(later_unmodified_key), Some(Modifiers::none()));
    assert!(to_browser_modifiers(shift()).shift);
    assert!(!to_browser_modifiers(Modifiers::none()).shift);
}

fn click(button: BrowserButton, time_ms: u64) -> BrowserPointerClick {
    BrowserPointerClick { button, position: pos(0, 0), time_ms, count: 1 }
}

#[test]
fn simultaneous_button_captures_keep_each_button_down() {
    let mut state = PointerState::new();
    state.set_captured(BrowserButton::Left, Some(click(BrowserButton::Left, 1_000)));
    state.set_captured(BrowserButton::Right, Some(click(BrowserButton::Right, 1_100)));

    assert_eq!(state.captured_buttons(), BUTTON_LEFT | BUTTON_RIGHT);
    assert!(state.has_pointer_capture());
    state.set_captured(BrowserButton::Left, None);
    assert_eq!(state.captured_buttons(), BUTTON_RIGHT);
}

#[test]
fn button_masks_follow_the_cdp_buttons_bitfield() {
    assert_eq!(button_mask(BrowserButton::Left), 1);
    assert_eq!(button_mask(BrowserButton::Right), 2);
    assert_eq!(button_mask(BrowserButton::Middle), 4);
}

fn thresholds() -> ClickThresholds {
    ClickThresholds { distance: 6_000, duration_ms: 800, double_click_delay_ms: 300 }
}

#[test]
fn click_sequence_tracks_button_time_and_position() {
    let first = BrowserPointerClick {
        button: BrowserButton::Left,
        position: pos(20_000, 30_000),
        time_ms: 10_000,
        count: 1,
    };
    let count = |button, position, time_ms| {
        next_click_count(Some(first), button, position, time_ms, thresholds())
    };
    assert_eq!(count(BrowserButton::Left, pos(22_000, 31_000), 10_200), 2);
    assert_eq!(count(BrowserButton::Right, pos(22_000, 31_000), 10_200), 1);
    assert_eq!(count(BrowserButton::Left, pos(40_000, 30_000), 10_200), 1);
    assert_eq!(count(BrowserButton::Left, pos(20_000, 30_000), 10_400), 1);
    let third = BrowserPointerClick { count: 3, ..first };
    assert_eq!(
        next_click_count(Some(third), BrowserButton::Left, first.position, 10_100, thresholds()),
        3
    );
}

fn frame(time_ms: u64) -> PointerFrame {
    PointerFrame {
        rect: ScreenRect { min_x: 0, min_y: 0, max_x: 400_000, max_y: 300_000 },
        frame_width: 800_000,
        frame_height: 600_000,
        pointer_target: true,
        frame_has_pointer_button: true,
        pointer: Some(pos(100_000, 100_000)),
        time_ms,
        thresholds: thresholds(),
        final_modifiers: Modifiers::none(),
    }
}

fn button(x: i32, y: i32, pressed: bool) -> PointerEvent {
    PointerEvent::Button {
        global: pos(x, y),
        local: pos(x, y),
        button: PointerButton::Primary,
        pressed,
        modifiers: Modifiers::none(),
    }
}

#[test]
fn a_drag_in_one_frame_keeps_its_places_and_only_the_last_move() {
    let mut state = PointerState::new();
    let events = vec![
        button(10_000, 10_000, true),
        PointerEvent::Moved(pos(20_000, 10_000)),
        PointerEvent::Moved(pos(30_000, 10_000)),
        button(40_000, 10_000, false),
    ];
    let commands = state.events(&events, &frame(1_000));
    assert_eq!(
        commands,
        vec![
            PointerCommand::Press {
                x: 20_000,
                y: 20_000,
                button: BrowserButton::Left,
                click_count: 1,
                buttons: 1,
                modifiers: plain(),
            },
            PointerCommand::Move { x: 60_000, y: 20_000, buttons: 1, modifiers: plain() },
            PointerCommand::Release {
                x: 80_000,
                y: 20_000,
                button: BrowserButton::Left,
                click_count: 1,
                buttons: 0,
                modifiers: plain(),
            },
        ]
    );
    assert!(!state.has_pointer_capture());
    // The release was too far from its press for a click.
    assert!(state.last_click.is_none());
}

#[test]
fn a_release_outside_the_body_still_reaches_the_page() {
    let mut state = PointerState::new();
    let _ = state.events(&vec![button(10_000, 10_000, true)], &frame(1_000));
    assert!(state.has_pointer_capture());
    let mut away = frame(1_050);
    away.pointer_target = false;
    let commands = state.events(&vec![button(900_000, 10_000, false)], &away);
    assert!(matches!(
        commands.as_slice(),
        [PointerCommand::Release { x: 800_000, y: 20_000, buttons: 0, .. }]
    ));
}

#[test]
fn leaving_the_body_tells_the_page_its_edge_once() {
    let mut state = PointerState::new();
    let inside = vec![PointerEvent::Moved(pos(399_000, 100_000))];
    assert_eq!(state.events(&inside, &frame(1_000)).len(), 1);
    let out = vec![PointerEvent::Moved(pos(500_000, 100_000)), PointerEvent::Moved(pos(510_000, 100_000))];
    let commands = state.events(&out, &frame(1_010));
    assert_eq!(
        commands,
        vec![PointerCommand::Move { x: 800_000, y: 200_000, buttons: 0, modifiers: plain() }]
    );
    assert!(state.last_mouse.is_none());
}

#[test]
fn small_moves_are_no_moves() {
    let mut state = PointerState::new();
    assert_eq!(state.events(&vec![PointerEvent::Moved(pos(10_000, 10_000))], &frame(0)).len(), 1);
    assert!(state.events(&vec![PointerEvent::Moved(pos(10_400, 10_000))], &frame(1)).is_empty());
    assert_eq!(state.events(&vec![PointerEvent::Moved(pos(10_500, 10_000))], &frame(2)).len(), 1);
}

#[test]
fn a_pointer_that_is_gone_or_cancelled_lets_every_button_go() {
    let mut state = PointerState::new();
    let second = PointerEvent::Button {
        global: pos(10_000, 10_000),
        local: pos(10_000, 10_000),
        button: PointerButton::Secondary,
        pressed: true,
        modifiers: Modifiers::none(),
    };
    let _ = state.events(&vec![button(10_000, 10_000, true), second], &frame(0));
    let mut cancelled = state;
    let commands = state.events(&vec![PointerEvent::Gone], &frame(10));
    assert!(matches!(
        commands.as_slice(),
        [
            PointerCommand::Release { button: BrowserButton::Left, buttons: 2, x: 20_000, .. },
            PointerCommand::Release { button: BrowserButton::Right, buttons: 0, .. },
        ]
    ));
    assert!(!state.has_pointer_capture());

    let commands = cancelled.cancel_pointer_capture(None);
    assert!(matches!(
        commands.as_slice(),
        [
            PointerCommand::Release { x: 0, y: 0, buttons: 2, .. },
            PointerCommand::Release { x: 0, y: 0, buttons: 0, .. },
        ]
    ));
    assert!(!cancelled.has_pointer_capture());
}

#[test]
fn the_wheel_turns_only_over_the_body() {
    let mut state = PointerState::new();
    let wheel = vec![PointerEvent::Wheel {
        unit: WheelUnit::Line,
        dx: 0,
        dy: -3_000,
        modifiers: shift(),
    }];
    let commands = state.events(&wheel, &frame(0));
    assert_eq!(
        commands,
        vec![PointerCommand::Wheel {
            x: 200_000,
            y: 200_000,
            delta_x: 0,
            delta_y: 48_000,
            modifiers: to_browser_modifiers(shift()),
        }]
    );
    let mut away = frame(0);
    away.pointer = Some(pos(401_000, 0));
    assert!(state.events(&wheel, &away).is_empty());
}

/// The texts of the key presses that a frame sends.
fn pressed_texts(keys: &mut KeyState, events: Vec<PageEvent>) -> Vec<Option<String>> {
    let mut sent = Vec::new();
    keys.events(&events, false, Modifiers::none(), false, &mut sent);
    sent.into_iter()
        .filter_map(|command| match command {
            BrowserCommand::KeyDown { text, .. } => Some(text),
            _ => None,
        })
        .collect()
}

fn guessed(key: egui::Key, predicted: char) -> PageEvent {
    PageEvent::Key(KeyEvent {
        predicted: Some(predicted),
        ..key_event(key.name(), true, Modifiers::none())
    })
}

#[test]
fn a_composition_stops_guessing_until_it_is_committed_or_dismissed() {
    let mut keys = KeyState::new();
    assert_eq!(pressed_texts(&mut keys, vec![guessed(egui::Key::X, 'x')]), [Some("x".to_owned())]);
    let begun = vec![PageEvent::ImePreedit("n".into()), guessed(egui::Key::N, 'n')];
    assert_eq!(pressed_texts(&mut keys, begun), [None]);
    assert!(keys.ime_composing);
    assert_eq!(pressed_texts(&mut keys, vec![guessed(egui::Key::I, 'i')]), [None]);
    let mut sent = Vec::new();
    let committed = vec![PageEvent::ImeCommit("に".into())];
    keys.events(&committed, false, Modifiers::none(), false, &mut sent);
    assert!(matches!(&sent[..], [BrowserCommand::InsertText(text)] if text == "に"));
    assert!(!keys.ime_composing);
    assert_eq!(pressed_texts(&mut keys, vec![guessed(egui::Key::A, 'a')]), [Some("a".to_owned())]);

    let dismissed = vec![
        PageEvent::ImePreedit("k".into()),
        guessed(egui::Key::K, 'k'),
        PageEvent::ImePreedit(String::new()),
        guessed(egui::Key::B, 'b'),
    ];
    assert_eq!(pressed_texts(&mut keys, dismissed), [None, Some("b".to_owned())]);
    assert!(!keys.ime_composing);
}

#[test]
fn text_that_was_committed_counts_during_a_composition() {
    let mut keys = KeyState::new();
    let typed = vec![
        PageEvent::ImePreedit("n".into()),
        guessed(egui::Key::A, 'q'),
        PageEvent::Text("a".into()),
    ];
    assert_eq!(pressed_texts(&mut keys, typed), [Some("a".to_owned())]);
}
