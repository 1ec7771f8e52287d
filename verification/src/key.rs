//! Keys, and what the picker does on them.
use vstd::prelude::*;

verus! {

/// A key without its modifiers.
#[derive(Debug, Clone, Copy, PartialEq, Eq, Structural)]
pub enum KeyCode {
    Char(char),
    F(u8),
    Enter,
    Esc,
    Tab,
    Backspace,
    Delete,
    Insert,
    Up,
    Down,
    Left,
    Right,
    Home,
    End,
    PageUp,
    PageDown,
    Null,
}

/// The modifiers held down with a key.
#[derive(Debug, Clone, Copy, PartialEq, Eq, Structural)]
pub struct KeyModifiers {
    pub shift: bool,
    pub control: bool,
    pub alt: bool,
    pub meta: bool,
}

/// A key press.
#[derive(Debug, Clone, Copy, PartialEq, Eq, Structural)]
pub struct KeyEvent {
    pub code: KeyCode,
    pub modifiers: KeyModifiers,
}

/// No modifier.
pub open spec fn bare() -> KeyModifiers {
    KeyModifiers { shift: false, control: false, alt: false, meta: false }
}

/// A key pressed on its own.
pub open spec fn key(code: KeyCode) -> KeyEvent {
    KeyEvent { code, modifiers: bare() }
}

/// A key pressed with `Shift`.
pub open spec fn shift(code: KeyCode) -> KeyEvent {
    KeyEvent { code, modifiers: KeyModifiers { shift: true, ..bare() } }
}

/// A key pressed with `Ctrl`.
pub open spec fn ctrl(code: KeyCode) -> KeyEvent {
    KeyEvent { code, modifiers: KeyModifiers { control: true, ..bare() } }
}

/// A key pressed with `Alt`.
pub open spec fn alt(code: KeyCode) -> KeyEvent {
    KeyEvent { code, modifiers: KeyModifiers { alt: true, ..bare() } }
}

/// How the modifiers of a key read as a chord.
#[derive(Debug, Clone, Copy, PartialEq, Eq, Structural)]
pub enum Chord {
    Bare,
    Shift,
    Ctrl,
    Alt,
    /// More than one modifier, or one that binds nothing.
    Other,
}

impl KeyModifiers {
    /// How the modifiers read as a chord.
    pub open spec fn reads_as(self) -> Chord {
        if self == bare() {
            Chord::Bare
        } else if self == (KeyModifiers { shift: true, ..bare() }) {
            Chord::Shift
        } else if self == (KeyModifiers { control: true, ..bare() }) {
            Chord::Ctrl
        } else if self == (KeyModifiers { alt: true, ..bare() }) {
            Chord::Alt
        } else {
            Chord::Other
        }
    }

    /// How the modifiers read as a chord.
    pub fn chord(self) -> (chord: Chord)
        ensures
            chord == self.reads_as(),
    {
        if self.meta {
            Chord::Other
        } else if !self.shift && !self.control && !self.alt {
            Chord::Bare
        } else if self.shift && !self.control && !self.alt {
            Chord::Shift
        } else if !self.shift && self.control && !self.alt {
            Chord::Ctrl
        } else if !self.shift && !self.control && self.alt {
            Chord::Alt
        } else {
            Chord::Other
        }
    }
}

/// A key as keymaps spell it: `Shift` is part of a character, not a modifier
/// of it.
pub open spec fn canonical(event: KeyEvent) -> KeyEvent {
    if event.code is Char {
        KeyEvent { modifiers: KeyModifiers { shift: false, ..event.modifiers }, ..event }
    } else {
        event
    }
}

/// Folds the two spellings of an upper-case character into one. A terminal
/// speaking the Kitty keyboard protocol reports `G` as `Shift-G`.
pub fn canonicalize_key(event: &mut KeyEvent)
    ensures
        *final(event) == canonical(*old(event)),
{
    if let KeyCode::Char(_) = event.code {
        event.modifiers.shift = false;
    }
}

/// Which mode a picker's key handling is in, when modal pickers are enabled.
/// Modal handling is skipped entirely while they are not, so the mode is only
/// ever consulted for a modal picker.
#[derive(Debug, Clone, Copy, PartialEq, Eq, Structural)]
pub enum PickerMode {
    /// Keys type into the query, as they always do in a non-modal picker.
    Insert,
    /// Unmodified keys drive the picker instead of typing into the query.
    Normal,
}

impl Default for PickerMode {
    fn default() -> (mode: PickerMode)
        ensures
            mode == PickerMode::Insert,
    {
        PickerMode::Insert
    }
}

/// What a key does in [`PickerMode::Normal`]. See [`normal_mode_action`].
#[derive(Debug, Clone, Copy, PartialEq, Eq, Structural)]
pub enum NormalModeAction {
    MoveNext,
    MovePrevious,
    ToStart,
    ToEnd,
    ScrollPreviewLineDown,
    ScrollPreviewLineUp,
    ScrollPreviewPageDown,
    ScrollPreviewPageUp,
    TogglePreview,
    OpenVerticalSplit,
    OpenHorizontalSplit,
    EnterInsertMode,
    Close,
}

/// The normal-mode keymap, by character.
pub open spec fn normal_binding(c: char) -> Option<NormalModeAction> {
    if c == 'j' {
        Some(NormalModeAction::MoveNext)
    } else if c == 'k' {
        Some(NormalModeAction::MovePrevious)
    } else if c == 'g' {
        Some(NormalModeAction::ToStart)
    } else if c == 'G' {
        Some(NormalModeAction::ToEnd)
    } else if c == 'J' {
        Some(NormalModeAction::ScrollPreviewLineDown)
    } else if c == 'K' {
        Some(NormalModeAction::ScrollPreviewLineUp)
    } else if c == 'f' {
        Some(NormalModeAction::ScrollPreviewPageDown)
    } else if c == 'b' {
        Some(NormalModeAction::ScrollPreviewPageUp)
    } else if c == 't' {
        Some(NormalModeAction::TogglePreview)
    } else if c == 'v' {
        Some(NormalModeAction::OpenVerticalSplit)
    } else if c == 's' {
        Some(NormalModeAction::OpenHorizontalSplit)
    } else if c == 'i' || c == 'a' || c == '/' {
        Some(NormalModeAction::EnterInsertMode)
    } else if c == 'q' {
        Some(NormalModeAction::Close)
    } else {
        None
    }
}

/// The normal-mode keymap: only characters pressed on their own are bound.
pub open spec fn normal_action(event: KeyEvent) -> Option<NormalModeAction> {
    match event.code {
        KeyCode::Char(c) => if event.modifiers == bare() {
            normal_binding(c)
        } else {
            None
        },
        _ => None,
    }
}

/// The normal-mode keymap of a modal picker.
///
/// `None` means the key has no normal-mode binding of its own and is left to
/// the picker's shared key handling, which still binds `Enter`, `Esc` and the
/// `Ctrl-*` chords in both modes. A key that neither binds is swallowed rather
/// than typed into the query: that is the point of normal mode.
///
/// The key is expected to have been canonicalized (see [`canonicalize_key`]),
/// so that `Shift-G` and a bare `G` both arrive here as `G`.
pub fn normal_mode_action(event: KeyEvent) -> (action: Option<NormalModeAction>)
    ensures
        action == normal_action(event),
{
    if event.modifiers.chord() != Chord::Bare {
        return None;
    }
    match event.code {
        KeyCode::Char(c) => match c {
            'j' => Some(NormalModeAction::MoveNext),
            'k' => Some(NormalModeAction::MovePrevious),
            'g' => Some(NormalModeAction::ToStart),
            'G' => Some(NormalModeAction::ToEnd),
            'J' => Some(NormalModeAction::ScrollPreviewLineDown),
            'K' => Some(NormalModeAction::ScrollPreviewLineUp),
            'f' => Some(NormalModeAction::ScrollPreviewPageDown),
            'b' => Some(NormalModeAction::ScrollPreviewPageUp),
            't' => Some(NormalModeAction::TogglePreview),
            'v' => Some(NormalModeAction::OpenVerticalSplit),
            's' => Some(NormalModeAction::OpenHorizontalSplit),
            'i' | 'a' | '/' => Some(NormalModeAction::EnterInsertMode),
            'q' => Some(NormalModeAction::Close),
            _ => None,
        },
        _ => None,
    }
}

/// What the picker does on a key.
#[derive(Debug, Clone, Copy, PartialEq, Eq, Structural)]
pub enum Command {
    MovePrevious,
    MoveNext,
    PageUp,
    PageDown,
    ToStart,
    ToEnd,
    ScrollPreviewLineUp,
    ScrollPreviewLineDown,
    ScrollPreviewPageUp,
    ScrollPreviewPageDown,
    TogglePreview,
    /// Open the selection and keep the picker.
    OpenAndStay,
    /// Take the history completion, or open the selection and close.
    Accept,
    OpenHorizontalSplit,
    OpenVerticalSplit,
    Close,
    EnterNormalMode,
    EnterInsertMode,
    /// Run the handler that the picker's creator bound to the key.
    CustomKey,
    /// Run the handler that is bound to the key in normal mode.
    ModalKey,
    /// Do nothing.
    Swallow,
    /// Hand the key to the query.
    ToQuery,
}

/// The key handling that both modes share.
pub open spec fn shared_binding(event: KeyEvent, preview_shown: bool) -> Option<Command> {
    if event == shift(KeyCode::Tab) || event == key(KeyCode::Up) || event == ctrl(KeyCode::Char('p')) {
        Some(Command::MovePrevious)
    } else if event == key(KeyCode::Tab) || event == key(KeyCode::Down) || event == ctrl(
        KeyCode::Char('n'),
    ) {
        Some(Command::MoveNext)
    } else if event == ctrl(KeyCode::Char('d')) {
        Some(Command::PageDown)
    } else if event == ctrl(KeyCode::Char('u')) {
        Some(Command::PageUp)
    } else if event == key(KeyCode::PageDown) {
        Some(
            if preview_shown {
                Command::ScrollPreviewPageDown
            } else {
                Command::PageDown
            },
        )
    } else if event == key(KeyCode::PageUp) {
        Some(
            if preview_shown {
                Command::ScrollPreviewPageUp
            } else {
                Command::PageUp
            },
        )
    } else if event == key(KeyCode::Home) {
        Some(Command::ToStart)
    } else if event == key(KeyCode::End) {
        Some(Command::ToEnd)
    } else if event == key(KeyCode::Esc) || event == ctrl(KeyCode::Char('c')) {
        Some(Command::Close)
    } else if event == alt(KeyCode::Enter) {
        Some(Command::OpenAndStay)
    } else if event == key(KeyCode::Enter) {
        Some(Command::Accept)
    } else if event == ctrl(KeyCode::Char('s')) {
        Some(Command::OpenHorizontalSplit)
    } else if event == ctrl(KeyCode::Char('v')) {
        Some(Command::OpenVerticalSplit)
    } else if event == ctrl(KeyCode::Char('t')) {
        Some(Command::TogglePreview)
    } else if (event == alt(KeyCode::Char('k')) || event == shift(KeyCode::Up)) && preview_shown {
        Some(Command::ScrollPreviewLineUp)
    } else if (event == alt(KeyCode::Char('j')) || event == shift(KeyCode::Down)) && preview_shown {
        Some(Command::ScrollPreviewLineDown)
    } else {
        None
    }
}

/// The key handling that both modes share. `PageDown` and `PageUp` scroll the
/// preview a full page when one is shown, and otherwise page the list, as
/// `Ctrl-d` and `Ctrl-u` always do.
pub fn shared_command(event: KeyEvent, preview_shown: bool) -> (command: Option<Command>)
    ensures
        command == shared_binding(event, preview_shown),
{
    match event.modifiers.chord() {
        Chord::Bare => match event.code {
            KeyCode::Up => Some(Command::MovePrevious),
            KeyCode::Tab | KeyCode::Down => Some(Command::MoveNext),
            KeyCode::PageDown => Some(
                if preview_shown {
                    Command::ScrollPreviewPageDown
                } else {
                    Command::PageDown
                },
            ),
            KeyCode::PageUp => Some(
                if preview_shown {
                    Command::ScrollPreviewPageUp
                } else {
                    Command::PageUp
                },
            ),
            KeyCode::Home => Some(Command::ToStart),
            KeyCode::End => Some(Command::ToEnd),
            KeyCode::Esc => Some(Command::Close),
            KeyCode::Enter => Some(Command::Accept),
            _ => None,
        },
        Chord::Shift => match event.code {
            KeyCode::Tab => Some(Command::MovePrevious),
            KeyCode::Up => if preview_shown {
                Some(Command::ScrollPreviewLineUp)
            } else {
                None
            },
            KeyCode::Down => if preview_shown {
                Some(Command::ScrollPreviewLineDown)
            } else {
                None
            },
            _ => None,
        },
        Chord::Ctrl => match event.code {
            KeyCode::Char(c) => match c {
                'p' => Some(Command::MovePrevious),
                'n' => Some(Command::MoveNext),
                'd' => Some(Command::PageDown),
                'u' => Some(Command::PageUp),
                'c' => Some(Command::Close),
                's' => Some(Command::OpenHorizontalSplit),
                'v' => Some(Command::OpenVerticalSplit),
                't' => Some(Command::TogglePreview),
                _ => None,
            },
            _ => None,
        },
        Chord::Alt => match event.code {
            KeyCode::Enter => Some(Command::OpenAndStay),
            KeyCode::Char(c) => if c == 'k' && preview_shown {
                Some(Command::ScrollPreviewLineUp)
            } else if c == 'j' && preview_shown {
                Some(Command::ScrollPreviewLineDown)
            } else {
                None
            },
            _ => None,
        },
        Chord::Other => None,
    }
}

/// What a key means depends on.
#[derive(Debug, Clone, Copy, PartialEq, Eq, Structural)]
pub struct KeyContext {
    /// Whether modal pickers are enabled.
    pub modal: bool,
    pub mode: PickerMode,
    /// Whether there is a preview on screen to scroll.
    pub preview_shown: bool,
    /// Whether the picker's creator bound the key, and there is a selection for
    /// the handler to act on.
    pub custom: bool,
    /// The same of a binding for normal mode.
    pub modal_custom: bool,
}

impl KeyContext {
    /// Whether unmodified keys drive the picker rather than typing into the
    /// query.
    pub open spec fn in_normal_mode(self) -> bool {
        self.modal && self.mode == PickerMode::Normal
    }
}

/// What a normal-mode action does.
pub open spec fn action_command(action: NormalModeAction) -> Command {
    match action {
        NormalModeAction::MoveNext => Command::MoveNext,
        NormalModeAction::MovePrevious => Command::MovePrevious,
        NormalModeAction::ToStart => Command::ToStart,
        NormalModeAction::ToEnd => Command::ToEnd,
        NormalModeAction::ScrollPreviewLineDown => Command::ScrollPreviewLineDown,
        NormalModeAction::ScrollPreviewLineUp => Command::ScrollPreviewLineUp,
        NormalModeAction::ScrollPreviewPageDown => Command::ScrollPreviewPageDown,
        NormalModeAction::ScrollPreviewPageUp => Command::ScrollPreviewPageUp,
        NormalModeAction::TogglePreview => Command::TogglePreview,
        NormalModeAction::OpenVerticalSplit => Command::OpenVerticalSplit,
        NormalModeAction::OpenHorizontalSplit => Command::OpenHorizontalSplit,
        NormalModeAction::EnterInsertMode => Command::EnterInsertMode,
        NormalModeAction::Close => Command::Close,
    }
}

/// Whether an action needs a preview on screen.
pub open spec fn scrolls_preview(action: NormalModeAction) -> bool {
    action == NormalModeAction::ScrollPreviewLineDown || action == NormalModeAction::ScrollPreviewLineUp
        || action == NormalModeAction::ScrollPreviewPageDown || action
        == NormalModeAction::ScrollPreviewPageUp
}

/// What a key does by itself in normal mode. With no preview on screen there
/// is nothing to scroll, so the keys that would are unbound.
pub open spec fn normal_command(event: KeyEvent, preview_shown: bool) -> Option<Command> {
    match normal_action(canonical(event)) {
        Some(action) => if scrolls_preview(action) && !preview_shown {
            None
        } else {
            Some(action_command(action))
        },
        None => None,
    }
}

/// What the picker does on a key.
pub open spec fn command_for(cx: KeyContext, event: KeyEvent) -> Command {
    if cx.custom {
        Command::CustomKey
    } else if cx.in_normal_mode() && cx.modal_custom {
        Command::ModalKey
    } else if cx.in_normal_mode() && normal_command(event, cx.preview_shown) is Some {
        normal_command(event, cx.preview_shown).unwrap()
    } else if cx.modal && cx.mode == PickerMode::Insert && event == key(KeyCode::Esc) {
        Command::EnterNormalMode
    } else {
        match shared_binding(event, cx.preview_shown) {
            Some(command) => command,
            None => if cx.in_normal_mode() {
                Command::Swallow
            } else {
                Command::ToQuery
            },
        }
    }
}

/// What the picker does on a key. Bindings of the picker's creator come first,
/// then the mode's own, then those that both modes share; what nothing binds
/// goes to the query, or nowhere in normal mode.
pub fn key_command(cx: KeyContext, event: KeyEvent) -> (command: Command)
    ensures
        command == command_for(cx, event),
{
    if cx.custom {
        return Command::CustomKey;
    }
    if cx.modal {
        let mut folded: KeyEvent = event;
        canonicalize_key(&mut folded);
        match cx.mode {
            PickerMode::Insert => {
                if folded.code == KeyCode::Esc && folded.modifiers.chord() == Chord::Bare {
                    return Command::EnterNormalMode;
                }
            },
            PickerMode::Normal => {
                if cx.modal_custom {
                    return Command::ModalKey;
                }
                if let Some(action) = normal_mode_action(folded) {
                    match action {
                        NormalModeAction::MoveNext => return Command::MoveNext,
                        NormalModeAction::MovePrevious => return Command::MovePrevious,
                        NormalModeAction::ToStart => return Command::ToStart,
                        NormalModeAction::ToEnd => return Command::ToEnd,
                        NormalModeAction::TogglePreview => return Command::TogglePreview,
                        NormalModeAction::OpenVerticalSplit => return Command::OpenVerticalSplit,
                        NormalModeAction::OpenHorizontalSplit => return Command::OpenHorizontalSplit,
                        NormalModeAction::EnterInsertMode => return Command::EnterInsertMode,
                        NormalModeAction::Close => return Command::Close,
                        NormalModeAction::ScrollPreviewLineDown => {
                            if cx.preview_shown {
                                return Command::ScrollPreviewLineDown;
                            }
                        },
                        NormalModeAction::ScrollPreviewLineUp => {
                            if cx.preview_shown {
                                return Command::ScrollPreviewLineUp;
                            }
                        },
                        NormalModeAction::ScrollPreviewPageDown => {
                            if cx.preview_shown {
                                return Command::ScrollPreviewPageDown;
                            }
                        },
                        NormalModeAction::ScrollPreviewPageUp => {
                            if cx.preview_shown {
                                return Command::ScrollPreviewPageUp;
                            }
                        },
                    }
                }
            },
        }
    }
    match shared_command(event, cx.preview_shown) {
        Some(command) => command,
        None => match (cx.modal, cx.mode) {
            (true, PickerMode::Normal) => Command::Swallow,
            _ => Command::ToQuery,
        },
    }
}

/// In normal mode no key is ever typed into the query.
pub proof fn law_normal_mode_never_types(cx: KeyContext, event: KeyEvent)
    requires
        cx.in_normal_mode(),
    ensures
        command_for(cx, event) != Command::ToQuery,
{
}

/// While modal pickers are off the mode makes no difference, `Esc` closes the
/// picker, and nothing enters a mode.
pub proof fn law_modal_off_ignores_the_mode(cx: KeyContext, mode: PickerMode, event: KeyEvent)
    requires
        !cx.modal,
    ensures
        command_for(cx, event) == command_for(KeyContext { mode, ..cx }, event),
        command_for(cx, event) != Command::EnterNormalMode,
        command_for(cx, event) != Command::EnterInsertMode,
        command_for(cx, event) != Command::ModalKey,
        !cx.custom ==> command_for(cx, key(KeyCode::Esc)) == Command::Close,
{
}

/// In a modal picker `Esc` first leaves the query and then closes the picker,
/// and `i` leads back to the query.
pub proof fn law_escape_leaves_then_closes(cx: KeyContext)
    requires
        cx.modal,
        !cx.custom,
        !cx.modal_custom,
    ensures
        command_for(KeyContext { mode: PickerMode::Insert, ..cx }, key(KeyCode::Esc))
            == Command::EnterNormalMode,
        command_for(KeyContext { mode: PickerMode::Normal, ..cx }, key(KeyCode::Esc))
            == Command::Close,
        command_for(KeyContext { mode: PickerMode::Normal, ..cx }, key(KeyCode::Char('i')))
            == Command::EnterInsertMode,
{
}

/// The bindings that the modes share work identically in both: apart from
/// `Esc`, a shared key that normal mode does not claim does the same.
pub proof fn law_shared_keys_ignore_the_mode(cx: KeyContext, event: KeyEvent)
    requires
        shared_binding(event, cx.preview_shown) is Some,
        event != key(KeyCode::Esc),
        !cx.modal_custom,
    ensures
        command_for(KeyContext { mode: PickerMode::Insert, ..cx }, event) == command_for(
            KeyContext { mode: PickerMode::Normal, ..cx },
            event,
        ),
{
}

/// A shared key is never one that normal mode binds to something of its own.
pub proof fn law_shared_keys_are_free_in_normal_mode(event: KeyEvent, preview_shown: bool)
    requires
        shared_binding(event, preview_shown) is Some,
    ensures
        normal_action(canonical(event)) is None,
{
}

/// Upper-case keys match with or without the shift modifier: folding does not
/// look at it.
pub proof fn law_shift_is_part_of_the_character(c: char, modifiers: KeyModifiers, held: bool)
    ensures
        canonical(KeyEvent { code: KeyCode::Char(c), modifiers }) == canonical(
            KeyEvent {
                code: KeyCode::Char(c),
                modifiers: KeyModifiers { shift: held, ..modifiers },
            },
        ),
        canonical(canonical(KeyEvent { code: KeyCode::Char(c), modifiers })) == canonical(
            KeyEvent { code: KeyCode::Char(c), modifiers },
        ),
{
}

/// Bindings of the picker's creator shadow every built-in one.
pub proof fn law_custom_keys_come_first(cx: KeyContext, event: KeyEvent)
    requires
        cx.custom,
    ensures
        command_for(cx, event) == Command::CustomKey,
{
}

/// In normal mode each bound character has its own command, whether or not
/// `Shift` is reported with it. What scrolls the preview does nothing while
/// there is none, and a character that is not bound does nothing at all.
pub proof fn law_normal_mode_characters(cx: KeyContext, c: char, shift_held: bool)
    requires
        cx.modal,
        cx.mode == PickerMode::Normal,
        !cx.custom,
        !cx.modal_custom,
    ensures
        ({
            let event = KeyEvent {
                code: KeyCode::Char(c),
                modifiers: KeyModifiers {
                    shift: shift_held,
                    control: false,
                    alt: false,
                    meta: false,
                },
            };
            let done = command_for(cx, event);
            let scrolled = |command: Command|
                if cx.preview_shown {
                    command
                } else {
                    Command::Swallow
                };
            &&& c == 'j' ==> done == Command::MoveNext
            &&& c == 'k' ==> done == Command::MovePrevious
            &&& c == 'g' ==> done == Command::ToStart
            &&& c == 'G' ==> done == Command::ToEnd
            &&& c == 'v' ==> done == Command::OpenVerticalSplit
            &&& c == 's' ==> done == Command::OpenHorizontalSplit
            &&& c == 't' ==> done == Command::TogglePreview
            &&& c == 'q' ==> done == Command::Close
            &&& c == 'i' || c == 'a' || c == '/' ==> done == Command::EnterInsertMode
            &&& c == 'J' ==> done == scrolled(Command::ScrollPreviewLineDown)
            &&& c == 'K' ==> done == scrolled(Command::ScrollPreviewLineUp)
            &&& c == 'f' ==> done == scrolled(Command::ScrollPreviewPageDown)
            &&& c == 'b' ==> done == scrolled(Command::ScrollPreviewPageUp)
            &&& !(seq!['j', 'k', 'g', 'G', 'v', 's', 't', 'q', 'i', 'a', '/', 'J', 'K', 'f', 'b']
                .contains(c)) ==> done == Command::Swallow
        }),
{
    let bound = seq!['j', 'k', 'g', 'G', 'v', 's', 't', 'q', 'i', 'a', '/', 'J', 'K', 'f', 'b'];
    assert(bound[0] == 'j' && bound[1] == 'k' && bound[2] == 'g' && bound[3] == 'G' && bound[4]
        == 'v' && bound[5] == 's' && bound[6] == 't' && bound[7] == 'q' && bound[8] == 'i'
        && bound[9] == 'a' && bound[10] == '/' && bound[11] == 'J' && bound[12] == 'K' && bound[13]
        == 'f' && bound[14] == 'b');
}

/// The keys that are bound whatever the mode, each with its command; only
/// `Esc` asks for the mode, and only what has to do with the preview asks
/// whether there is one.
pub proof fn law_keys_of_both_modes(cx: KeyContext, event: KeyEvent)
    requires
        !cx.custom,
        cx.mode == PickerMode::Insert || !cx.modal || !cx.modal_custom,
        !event.modifiers.meta,
    ensures
        ({
            let done = command_for(cx, event);
            let typing = !cx.modal || cx.mode == PickerMode::Insert;
            let unbound = if typing {
                Command::ToQuery
            } else {
                Command::Swallow
            };
            match (event.modifiers.shift, event.modifiers.control, event.modifiers.alt) {
                (false, false, false) => match event.code {
                    KeyCode::Up => done == Command::MovePrevious,
                    KeyCode::Down => done == Command::MoveNext,
                    KeyCode::Tab => done == Command::MoveNext,
                    KeyCode::Home => done == Command::ToStart,
                    KeyCode::End => done == Command::ToEnd,
                    KeyCode::Enter => done == Command::Accept,
                    KeyCode::Esc => if cx.modal && typing {
                        done == Command::EnterNormalMode
                    } else {
                        done == Command::Close
                    },
                    KeyCode::PageUp => if cx.preview_shown {
                        done == Command::ScrollPreviewPageUp
                    } else {
                        done == Command::PageUp
                    },
                    KeyCode::PageDown => if cx.preview_shown {
                        done == Command::ScrollPreviewPageDown
                    } else {
                        done == Command::PageDown
                    },
                    KeyCode::Char(_) => typing ==> done == Command::ToQuery,
                    _ => done == unbound,
                },
                (true, false, false) => match event.code {
                    KeyCode::Tab => done == Command::MovePrevious,
                    KeyCode::Up => if cx.preview_shown {
                        done == Command::ScrollPreviewLineUp
                    } else {
                        done == unbound
                    },
                    KeyCode::Down => if cx.preview_shown {
                        done == Command::ScrollPreviewLineDown
                    } else {
                        done == unbound
                    },
                    KeyCode::Char(_) => typing ==> done == Command::ToQuery,
                    _ => done == unbound,
                },
                (false, true, false) => match event.code {
                    KeyCode::Char(c) => {
                        &&& c == 'p' ==> done == Command::MovePrevious
                        &&& c == 'n' ==> done == Command::MoveNext
                        &&& c == 'u' ==> done == Command::PageUp
                        &&& c == 'd' ==> done == Command::PageDown
                        &&& c == 'c' ==> done == Command::Close
                        &&& c == 's' ==> done == Command::OpenHorizontalSplit
                        &&& c == 'v' ==> done == Command::OpenVerticalSplit
                        &&& c == 't' ==> done == Command::TogglePreview
                        &&& c != 'p' && c != 'n' && c != 'u' && c != 'd' && c != 'c' && c != 's'
                            && c != 'v' && c != 't' ==> done == unbound
                    },
                    _ => done == unbound,
                },
                (false, false, true) => match event.code {
                    KeyCode::Enter => done == Command::OpenAndStay,
                    KeyCode::Char(c) => if c == 'k' && cx.preview_shown {
                        done == Command::ScrollPreviewLineUp
                    } else if c == 'j' && cx.preview_shown {
                        done == Command::ScrollPreviewLineDown
                    } else {
                        done == unbound
                    },
                    _ => done == unbound,
                },
                _ => done == unbound,
            }
        }),
{
}

/// A key held with `Meta` is bound to nothing.
pub proof fn law_meta_binds_nothing(cx: KeyContext, event: KeyEvent)
    requires
        !cx.custom,
        !cx.modal_custom,
        event.modifiers.meta,
    ensures
        cx.modal && cx.mode == PickerMode::Normal ==> command_for(cx, event) == Command::Swallow,
        !cx.modal || cx.mode == PickerMode::Insert ==> command_for(cx, event) == Command::ToQuery,
{
}

/// A key that is bound in normal mode has that meaning there and nowhere else.
pub proof fn law_normal_bindings_are_for_normal_mode(cx: KeyContext, event: KeyEvent)
    requires
        !cx.custom,
        cx.modal_custom,
    ensures
        command_for(cx, event) == Command::ModalKey <==> cx.modal && cx.mode == PickerMode::Normal,
{
}

/// A key is bound in normal mode only if it is a character pressed with no
/// modifier; each action has the characters that stand for it.
pub proof fn law_actions_have_their_characters(event: KeyEvent)
    ensures
        ({
            let action = normal_action(event);
            let pressed = |c: char|
                event == KeyEvent {
                    code: KeyCode::Char(c),
                    modifiers: KeyModifiers {
                        shift: false,
                        control: false,
                        alt: false,
                        meta: false,
                    },
                };
            &&& action == Some(NormalModeAction::MoveNext) <==> pressed('j')
            &&& action == Some(NormalModeAction::MovePrevious) <==> pressed('k')
            &&& action == Some(NormalModeAction::ToStart) <==> pressed('g')
            &&& action == Some(NormalModeAction::ToEnd) <==> pressed('G')
            &&& action == Some(NormalModeAction::ScrollPreviewLineDown) <==> pressed('J')
            &&& action == Some(NormalModeAction::ScrollPreviewLineUp) <==> pressed('K')
            &&& action == Some(NormalModeAction::ScrollPreviewPageDown) <==> pressed('f')
            &&& action == Some(NormalModeAction::ScrollPreviewPageUp) <==> pressed('b')
            &&& action == Some(NormalModeAction::TogglePreview) <==> pressed('t')
            &&& action == Some(NormalModeAction::OpenVerticalSplit) <==> pressed('v')
            &&& action == Some(NormalModeAction::OpenHorizontalSplit) <==> pressed('s')
            &&& action == Some(NormalModeAction::EnterInsertMode) <==> pressed('i') || pressed('a')
                || pressed('/')
            &&& action == Some(NormalModeAction::Close) <==> pressed('q')
        }),
{
}

/// A shared key does for either mode what it does for a picker without modes.
pub proof fn law_shared_keys_are_those_of_a_plain_picker(event: KeyEvent, cx: KeyContext)
    requires
        !cx.modal,
        !cx.custom,
    ensures
        match shared_binding(event, cx.preview_shown) {
            Some(command) => command_for(cx, event) == command && command != Command::ToQuery,
            None => command_for(cx, event) == Command::ToQuery,
        },
{
}

/// Folding a key takes `Shift` off characters and changes nothing else.
pub proof fn law_folding_takes_shift_off_characters(event: KeyEvent)
    ensures
        canonical(event).code == event.code,
        canonical(event).modifiers.control == event.modifiers.control,
        canonical(event).modifiers.alt == event.modifiers.alt,
        canonical(event).modifiers.meta == event.modifiers.meta,
        canonical(event).modifiers.shift <==> event.modifiers.shift && !(event.code is Char),
{
}

/// A chord is a single modifier, or none.
pub proof fn law_chords_are_single_modifiers(modifiers: KeyModifiers)
    ensures
        ({
            let m = modifiers;
            let chord = m.reads_as();
            &&& chord == Chord::Bare <==> !m.shift && !m.control && !m.alt && !m.meta
            &&& chord == Chord::Shift <==> m.shift && !m.control && !m.alt && !m.meta
            &&& chord == Chord::Ctrl <==> !m.shift && m.control && !m.alt && !m.meta
            &&& chord == Chord::Alt <==> !m.shift && !m.control && m.alt && !m.meta
        }),
{
}

} // verus!
