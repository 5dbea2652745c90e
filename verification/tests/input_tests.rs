use megaui_bridge::input::{process_input, CharInput, CursorInput, CursorPos, HeldKeys, KeyPress, UiKey};

fn ch(character: char, primary: bool) -> CharInput {
    CharInput { character, primary }
}

#[test]
fn control_characters_are_not_forwarded() {
    let chars = vec![ch('a', true), ch('\u{8}', true), ch('b', true), ch('\u{9b}', true)];
    let plan = process_input(true, &Vec::new(), false, false, &chars, HeldKeys::default(), false, false, false, false);
    assert_eq!(plan.chars, vec!['a', 'b']);
}

#[test]
fn characters_from_other_windows_are_not_forwarded() {
    let chars = vec![ch('a', false), ch('b', true)];
    let plan = process_input(true, &Vec::new(), false, false, &chars, HeldKeys::default(), false, false, false, false);
    assert_eq!(plan.chars, vec!['b']);
}

#[test]
fn either_shift_or_control_key_sets_the_modifier() {
    let plan = process_input(true, &Vec::new(), false, false, &Vec::new(), HeldKeys::default(), false, true, false, false);
    assert!(plan.shift);
    assert!(!plan.ctrl);
    let plan = process_input(true, &Vec::new(), false, false, &Vec::new(), HeldKeys::default(), false, false, true, true);
    assert!(!plan.shift);
    assert!(plan.ctrl);
}

#[test]
fn held_keys_fire_in_the_fixed_order() {
    let held = HeldKeys { up: true, tab: true, a: true, ..HeldKeys::default() };
    let plan = process_input(true, &Vec::new(), false, false, &Vec::new(), held, true, false, false, false);
    assert_eq!(plan.keys, vec![
        KeyPress { key: UiKey::Up, shift: true, ctrl: false },
        KeyPress { key: UiKey::Tab, shift: true, ctrl: false },
        KeyPress { key: UiKey::A, shift: true, ctrl: false },
    ]);
}

#[test]
fn no_held_keys_fire_nothing() {
    let plan = process_input(true, &Vec::new(), false, false, &Vec::new(), HeldKeys::default(), false, false, false, false);
    assert!(plan.keys.is_empty());
}

#[test]
fn keys_fire_every_frame_they_stay_held() {
    let held = HeldKeys { z: true, ..HeldKeys::default() };
    for _ in 0..3 {
        let plan = process_input(true, &Vec::new(), false, false, &Vec::new(), held, false, false, true, false);
        assert_eq!(plan.keys, vec![KeyPress { key: UiKey::Z, shift: false, ctrl: true }]);
    }
}

#[test]
fn missing_primary_window_skips_forwarding_entirely() {
    let chars = vec![ch('a', true)];
    let held = HeldKeys { up: true, ..HeldKeys::default() };
    let cursors = vec![CursorInput { x_bits: 1, y_bits: 2, primary: true }];
    let plan = process_input(false, &cursors, true, true, &chars, held, true, false, true, false);
    assert_eq!(plan.cursor, None);
    assert!(!plan.mouse_down);
    assert!(!plan.mouse_up);
    assert!(plan.chars.is_empty());
    assert!(plan.keys.is_empty());
}

#[test]
fn the_latest_primary_cursor_event_wins() {
    let cursors = vec![
        CursorInput { x_bits: 1, y_bits: 2, primary: true },
        CursorInput { x_bits: 3, y_bits: 4, primary: false },
        CursorInput { x_bits: 5, y_bits: 6, primary: true },
        CursorInput { x_bits: 7, y_bits: 8, primary: false },
    ];
    let plan = process_input(
        true,
        &cursors,
        false,
        false,
        &Vec::new(),
        HeldKeys::default(),
        false,
        false,
        false,
        false,
    );
    assert_eq!(plan.cursor, Some(CursorPos { x_bits: 5, y_bits: 6 }));
}

#[test]
fn button_edges_become_press_and_release_reports() {
    let plan = process_input(
        true,
        &Vec::new(),
        true,
        false,
        &Vec::new(),
        HeldKeys::default(),
        false,
        false,
        false,
        false,
    );
    assert!(plan.mouse_down);
    assert!(!plan.mouse_up);
    let plan = process_input(
        true,
        &Vec::new(),
        false,
        true,
        &Vec::new(),
        HeldKeys::default(),
        false,
        false,
        false,
        false,
    );
    assert!(!plan.mouse_down);
    assert!(plan.mouse_up);
}
