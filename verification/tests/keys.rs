use helix_picker::explorer::{modal_operation_for, operation_for, Operation, Prompted};
use helix_picker::key::{
    canonicalize_key, key_command, normal_mode_action, shared_command, Chord, Command, KeyCode,
    KeyContext, KeyEvent, KeyModifiers, NormalModeAction, PickerMode,
};

/// A key as it is written: `C-`, `A-` and `S-` before a character, `esc` or
/// `ret`.
fn parse(key: &str) -> KeyEvent {
    let mut modifiers = KeyModifiers { shift: false, control: false, alt: false, meta: false };
    let mut rest = key;
    while rest.len() > 2 && rest.as_bytes()[1] == b'-' {
        match &rest[..1] {
            "C" => modifiers.control = true,
            "A" => modifiers.alt = true,
            "S" => modifiers.shift = true,
            other => panic!("unknown modifier {other}"),
        }
        rest = &rest[2..];
    }
    let code = match rest {
        "esc" => KeyCode::Esc,
        "ret" => KeyCode::Enter,
        "tab" => KeyCode::Tab,
        "up" => KeyCode::Up,
        "down" => KeyCode::Down,
        "home" => KeyCode::Home,
        "end" => KeyCode::End,
        "pageup" => KeyCode::PageUp,
        "pagedown" => KeyCode::PageDown,
        "backspace" => KeyCode::Backspace,
        _ => KeyCode::Char(rest.chars().next().unwrap()),
    };
    KeyEvent { code, modifiers }
}

/// The action a key triggers in normal mode, after the same
/// canonicalization the picker applies to an incoming key.
fn action(key: &str) -> Option<NormalModeAction> {
    let mut event = parse(key);
    canonicalize_key(&mut event);
    normal_mode_action(event)
}

fn context() -> KeyContext {
    KeyContext {
        modal: false,
        mode: PickerMode::Insert,
        preview_shown: false,
        custom: false,
        modal_custom: false,
    }
}

#[test]
fn normal_mode_keymap() {
    assert_eq!(action("j"), Some(NormalModeAction::MoveNext));
    assert_eq!(action("k"), Some(NormalModeAction::MovePrevious));
    assert_eq!(action("g"), Some(NormalModeAction::ToStart));
    assert_eq!(action("G"), Some(NormalModeAction::ToEnd));
    assert_eq!(action("J"), Some(NormalModeAction::ScrollPreviewLineDown));
    assert_eq!(action("K"), Some(NormalModeAction::ScrollPreviewLineUp));
    assert_eq!(action("f"), Some(NormalModeAction::ScrollPreviewPageDown));
    assert_eq!(action("b"), Some(NormalModeAction::ScrollPreviewPageUp));
    assert_eq!(action("t"), Some(NormalModeAction::TogglePreview));
    assert_eq!(action("v"), Some(NormalModeAction::OpenVerticalSplit));
    assert_eq!(action("s"), Some(NormalModeAction::OpenHorizontalSplit));
    assert_eq!(action("q"), Some(NormalModeAction::Close));
    for key in ["i", "a", "/"] {
        assert_eq!(action(key), Some(NormalModeAction::EnterInsertMode));
    }
}

#[test]
fn uppercase_keys_match_with_or_without_the_shift_modifier() {
    // A terminal speaking the Kitty keyboard protocol reports `G` as
    // `Shift-G`; both spellings must reach the same binding.
    assert_eq!(action("G"), action("S-G"));
    assert_eq!(action("J"), action("S-J"));
    assert_eq!(action("K"), action("S-K"));
}

#[test]
fn unbound_normal_mode_keys_are_not_query_text() {
    // These fall through to the picker's shared key handling, whose
    // fallback arm swallows them in normal mode instead of typing them into
    // the query.
    for key in ["x", "z", "1", "-", "%"] {
        assert_eq!(action(key), None, "{key} should have no normal-mode action");
    }

    // `Esc` and `Enter` deliberately have no entry of their own: the shared
    // handling closes and opens with them in both modes.
    assert_eq!(action("esc"), None);
    assert_eq!(action("ret"), None);

    // Neither do the `Ctrl-*` chords, which keep working identically in
    // both modes.
    for key in ["C-s", "C-v", "C-t", "C-n", "C-p", "C-d", "C-u", "C-c"] {
        assert_eq!(action(key), None, "{key} should be left to shared handling");
    }
}

#[test]
fn modal_key_handlers_do_not_collide_with_the_normal_mode_keymap() {
    // The file explorer binds these bare keys through
    // `with_modal_key_handlers`, which is consulted before the keymap
    // above; if one were also a built-in normal-mode key the binding would
    // be unreachable.
    for key in ["m", "r", "d", "y", "p", "D", "Y"] {
        assert_eq!(action(key), None, "{key} is claimed twice");
    }

    // `a` is the deliberate exception: the explorer binds it to "create", a
    // yazi habit, and so shadows one of the three keys that enter insert
    // mode. The other two still reach the query.
    assert_eq!(action("a"), Some(NormalModeAction::EnterInsertMode));
    assert_eq!(action("i"), Some(NormalModeAction::EnterInsertMode));
    assert_eq!(action("/"), Some(NormalModeAction::EnterInsertMode));
}

#[test]
fn a_picker_opens_in_insert_mode() {
    assert_eq!(PickerMode::default(), PickerMode::Insert);
}

#[test]
fn shared_keys() {
    let cases = [
        ("S-tab", Command::MovePrevious),
        ("up", Command::MovePrevious),
        ("C-p", Command::MovePrevious),
        ("tab", Command::MoveNext),
        ("down", Command::MoveNext),
        ("C-n", Command::MoveNext),
        ("C-d", Command::PageDown),
        ("C-u", Command::PageUp),
        ("home", Command::ToStart),
        ("end", Command::ToEnd),
        ("esc", Command::Close),
        ("C-c", Command::Close),
        ("A-ret", Command::OpenAndStay),
        ("ret", Command::Accept),
        ("C-s", Command::OpenHorizontalSplit),
        ("C-v", Command::OpenVerticalSplit),
        ("C-t", Command::TogglePreview),
    ];
    for (key, command) in cases {
        assert_eq!(shared_command(parse(key), false), Some(command), "{key}");
        assert_eq!(shared_command(parse(key), true), Some(command), "{key}");
    }
    assert_eq!(shared_command(parse("x"), true), None);
    assert_eq!(shared_command(parse("C-S-p"), true), None);
}

#[test]
fn page_keys_scroll_a_preview_that_is_shown() {
    assert_eq!(shared_command(parse("pagedown"), true), Some(Command::ScrollPreviewPageDown));
    assert_eq!(shared_command(parse("pageup"), true), Some(Command::ScrollPreviewPageUp));
    assert_eq!(shared_command(parse("pagedown"), false), Some(Command::PageDown));
    assert_eq!(shared_command(parse("pageup"), false), Some(Command::PageUp));
    for (key, command) in [
        ("A-k", Command::ScrollPreviewLineUp),
        ("S-up", Command::ScrollPreviewLineUp),
        ("A-j", Command::ScrollPreviewLineDown),
        ("S-down", Command::ScrollPreviewLineDown),
    ] {
        assert_eq!(shared_command(parse(key), true), Some(command), "{key}");
        assert_eq!(shared_command(parse(key), false), None, "{key}");
    }
}

#[test]
fn escape_leaves_the_query_before_it_closes() {
    let insert = KeyContext { modal: true, ..context() };
    let normal = KeyContext { mode: PickerMode::Normal, ..insert };
    assert_eq!(key_command(insert, parse("esc")), Command::EnterNormalMode);
    assert_eq!(key_command(normal, parse("esc")), Command::Close);
    assert_eq!(key_command(normal, parse("i")), Command::EnterInsertMode);
}

#[test]
fn without_modal_pickers_the_mode_makes_no_difference() {
    for mode in [PickerMode::Insert, PickerMode::Normal] {
        let cx = KeyContext { mode, ..context() };
        assert_eq!(key_command(cx, parse("esc")), Command::Close);
        assert_eq!(key_command(cx, parse("j")), Command::ToQuery);
    }
}

#[test]
fn normal_mode_swallows_what_it_does_not_bind() {
    let normal = KeyContext { modal: true, mode: PickerMode::Normal, ..context() };
    assert_eq!(key_command(normal, parse("x")), Command::Swallow);
    assert_eq!(key_command(normal, parse("S-G")), Command::ToEnd);
    assert_eq!(key_command(normal, parse("C-s")), Command::OpenHorizontalSplit);
    // With no preview on screen there is nothing to scroll.
    assert_eq!(key_command(normal, parse("J")), Command::Swallow);
    let shown = KeyContext { preview_shown: true, ..normal };
    assert_eq!(key_command(shown, parse("J")), Command::ScrollPreviewLineDown);
    assert_eq!(key_command(shown, parse("K")), Command::ScrollPreviewLineUp);
    assert_eq!(key_command(shown, parse("f")), Command::ScrollPreviewPageDown);
    assert_eq!(key_command(shown, parse("b")), Command::ScrollPreviewPageUp);
}

#[test]
fn extra_keys_come_first() {
    let custom = KeyContext { custom: true, ..context() };
    assert_eq!(key_command(custom, parse("esc")), Command::CustomKey);
    let modal = KeyContext {
        modal: true,
        mode: PickerMode::Normal,
        modal_custom: true,
        ..context()
    };
    assert_eq!(key_command(modal, parse("j")), Command::ModalKey);
    // In insert mode the bare keys are typed.
    let insert = KeyContext { mode: PickerMode::Insert, ..modal };
    assert_eq!(key_command(insert, parse("j")), Command::ToQuery);
}

#[test]
fn chords_are_told_apart() {
    assert_eq!(parse("C-x").modifiers.chord(), Chord::Ctrl);
    assert_eq!(parse("A-x").modifiers.chord(), Chord::Alt);
    assert_eq!(parse("S-x").modifiers.chord(), Chord::Shift);
    assert_eq!(parse("x").modifiers.chord(), Chord::Bare);
    assert_eq!(parse("C-A-x").modifiers.chord(), Chord::Other);
    let meta = KeyModifiers { shift: false, control: false, alt: false, meta: true };
    assert_eq!(meta.chord(), Chord::Other);
}

#[test]
fn explorer_keymap() {
    let cases = [
        ("A-n", Operation::Prompted(Prompted::Create)),
        ("A-m", Operation::Prompted(Prompted::Move)),
        ("A-r", Operation::Prompted(Prompted::Rename)),
        ("A-x", Operation::Prompted(Prompted::Delete)),
        ("A-c", Operation::Prompted(Prompted::Copy)),
        ("A-y", Operation::YankPath),
        ("A-t", Operation::Cut),
        ("A-w", Operation::Stage),
        ("A-p", Operation::Paste),
    ];
    for (key, operation) in cases {
        assert_eq!(operation_for(parse(key)), Some(operation), "{key}");
    }
    for key in ["A-d", "A-b", "A-f", "A-j", "A-k", "n", "C-n"] {
        assert_eq!(operation_for(parse(key)), None, "{key}");
    }
}

#[test]
fn explorer_modal_keymap() {
    let cases = [
        ("h", Operation::Ascend),
        ("l", Operation::Descend),
        ("a", Operation::Prompted(Prompted::Create)),
        ("r", Operation::Prompted(Prompted::Rename)),
        ("d", Operation::Cut),
        ("y", Operation::Stage),
        ("p", Operation::Paste),
        ("D", Operation::Prompted(Prompted::Delete)),
        ("Y", Operation::YankPath),
        ("m", Operation::Prompted(Prompted::Move)),
    ];
    for (key, operation) in cases {
        assert_eq!(modal_operation_for(parse(key)), Some(operation), "{key}");
    }
    for key in ["i", "/", "j", "k", "A-h"] {
        assert_eq!(modal_operation_for(parse(key)), None, "{key}");
    }
}
