//! The per-frame input-forwarding decisions: which received characters are
//! handed to the UI (those from the primary window that are not control
//! characters), which navigation, editing and clipboard keys fire a
//! key-down call this frame (every frame a key is held, in a fixed order),
//! and the modifier state (either shift key, either control key).

use vstd::prelude::*;

verus! {

/// The keys forwarded to the UI.
#[derive(Clone, Copy, Debug, PartialEq, Eq, Structural)]
pub enum UiKey {
    Up,
    Down,
    Right,
    Left,
    Home,
    End,
    Delete,
    Backspace,
    Enter,
    Tab,
    Z,
    Y,
    C,
    X,
    V,
    A,
}

/// Which forwarded keys the host reports held this frame.
#[derive(Clone, Copy, Debug, PartialEq, Eq, Structural, Default)]
pub struct HeldKeys {
    pub up: bool,
    pub down: bool,
    pub right: bool,
    pub left: bool,
    pub home: bool,
    pub end: bool,
    pub delete: bool,
    pub backspace: bool,
    pub enter: bool,
    pub tab: bool,
    pub z: bool,
    pub y: bool,
    pub c: bool,
    pub x: bool,
    pub v: bool,
    pub a: bool,
}

/// One key-down call to make, with the modifier state.
#[derive(Clone, Copy, Debug, PartialEq, Eq, Structural)]
pub struct KeyPress {
    /// The key to report.
    pub key: UiKey,
    /// Either shift key is held.
    pub shift: bool,
    /// Either control key is held.
    pub ctrl: bool,
}

/// One received character, with whether it came from the primary window.
#[derive(Clone, Copy, Debug, PartialEq, Eq, Structural)]
pub struct CharInput {
    /// The character received.
    pub character: char,
    /// Whether the event belongs to the primary window.
    pub primary: bool,
}

/// One cursor-moved report: the position's raw scalar bit patterns and
/// whether the event belongs to the primary window.
#[derive(Clone, Copy, Debug, PartialEq, Eq, Structural)]
pub struct CursorInput {
    /// Bit pattern of the reported x coordinate.
    pub x_bits: u32,
    /// Bit pattern of the reported y coordinate.
    pub y_bits: u32,
    /// Whether the event belongs to the primary window.
    pub primary: bool,
}

/// A cursor position to convert and hand to the UI, as bit patterns.
#[derive(Clone, Copy, Debug, PartialEq, Eq, Structural)]
pub struct CursorPos {
    /// Bit pattern of the x coordinate.
    pub x_bits: u32,
    /// Bit pattern of the y coordinate.
    pub y_bits: u32,
}

/// The latest primary-window cursor position of the frame's event stream,
/// if the primary window reported any.
pub open spec fn latest_primary_cursor(events: Seq<CursorInput>) -> Option<CursorPos>
    decreases events.len(),
{
    if events.len() == 0 {
        None
    } else if events.last().primary {
        Some(CursorPos { x_bits: events.last().x_bits, y_bits: events.last().y_bits })
    } else {
        latest_primary_cursor(events.drop_last())
    }
}

/// A Unicode control character: the C0 range below space, delete, and the
/// C1 range.
pub open spec fn is_control_char(c: char) -> bool {
    (c as u32) < 0x20 || (0x7F <= (c as u32) && (c as u32) <= 0x9F)
}

/// A character is forwarded when it reached the primary window and is not
/// a control character.
pub open spec fn char_forwarded(e: CharInput) -> bool {
    e.primary && !is_control_char(e.character)
}

/// The characters forwarded to the UI, in arrival order.
pub open spec fn forwarded_chars(events: Seq<CharInput>) -> Seq<char>
    decreases events.len(),
{
    if events.len() == 0 {
        Seq::empty()
    } else {
        forwarded_chars(events.drop_last()) + if char_forwarded(events.last()) {
            seq![events.last().character]
        } else {
            Seq::empty()
        }
    }
}

/// The key-down call for `k`, when `b` reports it held.
pub open spec fn key_if(b: bool, k: UiKey, shift: bool, ctrl: bool) -> Seq<KeyPress> {
    if b {
        seq![KeyPress { key: k, shift, ctrl }]
    } else {
        Seq::empty()
    }
}

/// The forwarded keys with their held flags, in the fixed forwarding
/// order.
pub open spec fn key_flags(h: HeldKeys) -> Seq<(bool, UiKey)> {
    seq![
        (h.up, UiKey::Up),
        (h.down, UiKey::Down),
        (h.right, UiKey::Right),
        (h.left, UiKey::Left),
        (h.home, UiKey::Home),
        (h.end, UiKey::End),
        (h.delete, UiKey::Delete),
        (h.backspace, UiKey::Backspace),
        (h.enter, UiKey::Enter),
        (h.tab, UiKey::Tab),
        (h.z, UiKey::Z),
        (h.y, UiKey::Y),
        (h.c, UiKey::C),
        (h.x, UiKey::X),
        (h.v, UiKey::V),
        (h.a, UiKey::A),
    ]
}

/// The key-down calls a flag list yields: one per held key, in order.
pub open spec fn presses_from(flags: Seq<(bool, UiKey)>, shift: bool, ctrl: bool) -> Seq<KeyPress>
    decreases flags.len(),
{
    if flags.len() == 0 {
        Seq::empty()
    } else {
        presses_from(flags.drop_last(), shift, ctrl) + key_if(
            flags.last().0,
            flags.last().1,
            shift,
            ctrl,
        )
    }
}

/// The key-down calls one frame makes: one per held key, every frame it
/// stays held (the UI's own auto-repeat contract), in the fixed order.
pub open spec fn key_presses(h: HeldKeys, shift: bool, ctrl: bool) -> Seq<KeyPress> {
    presses_from(key_flags(h), shift, ctrl)
}

/// Whether `c` is a Unicode control character.
pub fn char_is_control(c: char) -> (r: bool)
    ensures
        r == is_control_char(c),
{
    let v = c as u32;
    v < 0x20 || (0x7F <= v && v <= 0x9F)
}

/// Collects the key-down calls for the held keys, in the fixed order.
fn collect_key_presses(held: HeldKeys, shift: bool, ctrl: bool) -> (keys: Vec<KeyPress>)
    ensures
        keys@ == key_presses(held, shift, ctrl),
{
    let mut flags: Vec<(bool, UiKey)> = Vec::new();
    flags.push((held.up, UiKey::Up));
    flags.push((held.down, UiKey::Down));
    flags.push((held.right, UiKey::Right));
    flags.push((held.left, UiKey::Left));
    flags.push((held.home, UiKey::Home));
    flags.push((held.end, UiKey::End));
    flags.push((held.delete, UiKey::Delete));
    flags.push((held.backspace, UiKey::Backspace));
    flags.push((held.enter, UiKey::Enter));
    flags.push((held.tab, UiKey::Tab));
    flags.push((held.z, UiKey::Z));
    flags.push((held.y, UiKey::Y));
    flags.push((held.c, UiKey::C));
    flags.push((held.x, UiKey::X));
    flags.push((held.v, UiKey::V));
    flags.push((held.a, UiKey::A));
    proof {
        assert(flags@ =~= key_flags(held));
    }
    let mut keys: Vec<KeyPress> = Vec::new();
    let n = flags.len();
    let mut i: usize = 0;
    while i < n
        invariant
            i <= n,
            n == flags@.len(),
            flags@ == key_flags(held),
            keys@ == presses_from(flags@.take(i as int), shift, ctrl),
        decreases n - i,
    {
        let (held_now, key) = flags[i];
        if held_now {
            keys.push(KeyPress { key, shift, ctrl });
        }
        proof {
            assert(flags@.take(i as int + 1).drop_last() =~= flags@.take(i as int));
            assert(flags@.take(i as int + 1).last() == flags@[i as int]);
            if held_now {
                assert(keys@ =~= presses_from(flags@.take(i as int), shift, ctrl) + seq![
                    KeyPress { key, shift, ctrl },
                ]);
            } else {
                assert(keys@ =~= presses_from(flags@.take(i as int), shift, ctrl));
            }
        }
        i = i + 1;
    }
    proof {
        assert(flags@.take(n as int) =~= flags@);
    }
    keys
}

/// Everything the frame forwards to the UI: the modifier state, the
/// filtered characters, and the key-down calls.
pub struct InputPlan {
    /// Either shift key is held.
    pub shift: bool,
    /// Either control key is held.
    pub ctrl: bool,
    /// The position to convert and report as a mouse move: the latest
    /// primary-window cursor event, when one arrived.
    pub cursor: Option<CursorPos>,
    /// Whether to report a left-button press at the cached position.
    pub mouse_down: bool,
    /// Whether to report a left-button release at the cached position.
    pub mouse_up: bool,
    /// Characters to hand to the UI, in arrival order.
    pub chars: Vec<char>,
    /// Key-down calls to make, in the fixed order.
    pub keys: Vec<KeyPress>,
}

/// Decides one frame's input forwarding from the raw host state: with no
/// primary window, forwarding is skipped entirely and the plan is empty;
/// otherwise the latest primary-window cursor event becomes the mouse
/// move, left-button edges become press and release reports, modifiers
/// are the disjunction of left and right keys, characters are filtered to
/// the primary window's non-control ones, and every held forwarded key
/// fires once.
pub fn process_input(
    primary_window_present: bool,
    cursor_events: &Vec<CursorInput>,
    left_button_just_pressed: bool,
    left_button_just_released: bool,
    chars: &Vec<CharInput>,
    held: HeldKeys,
    left_shift: bool,
    right_shift: bool,
    left_ctrl: bool,
    right_ctrl: bool,
) -> (plan: InputPlan)
    ensures
        plan.shift == (left_shift || right_shift),
        plan.ctrl == (left_ctrl || right_ctrl),
        plan.cursor == if primary_window_present {
            latest_primary_cursor(cursor_events@)
        } else {
            None::<CursorPos>
        },
        plan.mouse_down == (primary_window_present && left_button_just_pressed),
        plan.mouse_up == (primary_window_present && left_button_just_released),
        plan.chars@ == if primary_window_present {
            forwarded_chars(chars@)
        } else {
            Seq::<char>::empty()
        },
        plan.keys@ == if primary_window_present {
            key_presses(held, left_shift || right_shift, left_ctrl || right_ctrl)
        } else {
            Seq::<KeyPress>::empty()
        },
{
    let shift = left_shift || right_shift;
    let ctrl = left_ctrl || right_ctrl;
    if !primary_window_present {
        return InputPlan {
            shift,
            ctrl,
            cursor: None,
            mouse_down: false,
            mouse_up: false,
            chars: Vec::new(),
            keys: Vec::new(),
        };
    }

    let mut cursor: Option<CursorPos> = None;
    let cn = cursor_events.len();
    let mut c: usize = 0;
    while c < cn
        invariant
            c <= cn,
            cn == cursor_events@.len(),
            cursor == latest_primary_cursor(cursor_events@.take(c as int)),
        decreases cn - c,
    {
        let e = cursor_events[c];
        if e.primary {
            cursor = Some(CursorPos { x_bits: e.x_bits, y_bits: e.y_bits });
        }
        proof {
            assert(cursor_events@.take(c as int + 1).drop_last() =~= cursor_events@.take(
                c as int,
            ));
            assert(cursor_events@.take(c as int + 1).last() == cursor_events@[c as int]);
        }
        c = c + 1;
    }
    proof {
        assert(cursor_events@.take(cn as int) =~= cursor_events@);
    }

    let mut out_chars: Vec<char> = Vec::new();
    let n = chars.len();
    let mut i: usize = 0;
    while i < n
        invariant
            i <= n,
            n == chars@.len(),
            out_chars@ == forwarded_chars(chars@.take(i as int)),
        decreases n - i,
    {
        let e = chars[i];
        if e.primary && !char_is_control(e.character) {
            out_chars.push(e.character);
        }
        proof {
            assert(chars@.take(i as int + 1).drop_last() =~= chars@.take(i as int));
            assert(chars@.take(i as int + 1).last() == chars@[i as int]);
            if char_forwarded(chars@[i as int]) {
                assert(out_chars@ =~= forwarded_chars(chars@.take(i as int)) + seq![
                    chars@[i as int].character,
                ]);
            } else {
                assert(out_chars@ =~= forwarded_chars(chars@.take(i as int)));
            }
        }
        i = i + 1;
    }
    proof {
        assert(chars@.take(n as int) =~= chars@);
    }

    let keys = collect_key_presses(held, shift, ctrl);

    InputPlan {
        shift,
        ctrl,
        cursor,
        mouse_down: left_button_just_pressed,
        mouse_up: left_button_just_released,
        chars: out_chars,
        keys,
    }
}

} // verus!
