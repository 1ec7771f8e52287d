//! What a picker does about the events that reach it.
use vstd::prelude::*;
use vstd::string::*;
use crate::geometry;
use crate::key;
use crate::key::{Command, KeyCode, KeyContext, KeyEvent, NormalModeAction, PickerMode};
use crate::matcher;
use crate::picker;
use crate::picker::paging;
use crate::picker::{
    Action, Direction, DynamicQueryChange, Picker, PickerAction, MAX_REMEMBERED_ITEMS,
};
use crate::preview::{Editor, FileLocation};
use crate::query;
use crate::query::PickerQuery;

verus! {

impl Picker {
    /// Takes over what the prompt asks for, once it has been handed an event
    /// and has made something of it. Text that was pasted counts as such.
    pub fn prompt_handle_event(&mut self, event: &Event, consumed: bool, query: PickerQuery) -> (news:
        Option<DynamicQueryChange>)
        requires
            old(self).wf(),
        ensures
            final(self).wf(),
            !consumed ==> *final(self) == *old(self) && news is None,
            matcher::same_list(final(self).matcher, old(self).matcher),
            old(self).query.asks_the_same(&query) ==> final(self).matcher == old(self).matcher,
            consumed ==> {
                &&& *final(self) == (Picker {
                    query,
                    cursor: if old(self).query.asks_the_same(&query) {
                        old(self).cursor
                    } else {
                        0
                    },
                    matcher: final(self).matcher,
                    ..*old(self)
                })
                &&& picker::query_patterns(old(self).columns@, query) == picker::query_patterns(
                    old(self).columns@,
                    old(self).query,
                ) ==> final(self).matcher == old(self).matcher
                &&& final(self).matches() == old(self).matches()
                &&& matcher::item_total(final(self).matcher) == matcher::item_total(
                    old(self).matcher,
                )
                &&& news is Some <==> old(self).dynamic && !old(self).query.asks_the_same(&query)
                &&& news matches Some(change) ==> change.query@ == final(self).primary_text()
                    && change.is_paste == (*event is Paste)
            },
    {
        if !consumed {
            return None;
        }
        let pasted: bool = match event {
            Event::Paste => true,
            _ => false,
        };
        self.handle_prompt_change(query, pasted)
    }
}

/// What may happen while a picker is open.
#[derive(Debug, Clone, Copy, PartialEq, Eq, Structural)]
pub enum Event {
    Key(KeyEvent),
    Paste,
    Resize,
    Mouse,
    /// Anything else.
    Other,
}

/// What becomes of a picker that is closed.
#[derive(Debug, Clone, Copy, PartialEq, Eq, Structural)]
pub enum Close {
    /// It is gone.
    Forget,
    /// It can be reopened.
    Remember,
}

/// What is to be done about an event, in the order of the fields.
pub struct Reaction {
    /// Whether the event stops here.
    pub consumed: bool,
    /// Run the handler that was added for the key with
    /// [`Picker::with_key_handlers`].
    pub custom: Option<PickerAction>,
    /// Run the handler that was added for the key with
    /// [`Picker::with_modal_key_handlers`].
    pub modal: Option<PickerAction>,
    /// Open an item.
    pub open: Option<(u64, Action)>,
    /// Put a line into the prompt, and take it over as pasted with
    /// [`Picker::handle_prompt_change`].
    pub set_line: Option<String>,
    /// Hand the event to the prompt, and take over what it asks for with
    /// [`Picker::handle_prompt_change`].
    pub to_prompt: bool,
    /// Push a query to a register.
    pub record: Option<(char, String)>,
    /// Close the picker.
    pub close: Option<Close>,
}

/// The model of a [`Reaction`].
pub struct ReactionView {
    pub consumed: bool,
    pub custom: Option<PickerAction>,
    pub modal: Option<PickerAction>,
    pub open: Option<(u64, Action)>,
    pub set_line: Option<Seq<char>>,
    pub to_prompt: bool,
    pub record: Option<(char, Seq<char>)>,
    pub close: Option<Close>,
}

impl View for Reaction {
    type V = ReactionView;

    open spec fn view(&self) -> ReactionView {
        ReactionView {
            consumed: self.consumed,
            custom: self.custom,
            modal: self.modal,
            open: self.open,
            set_line: match self.set_line {
                Some(line) => Some(line@),
                None => None,
            },
            to_prompt: self.to_prompt,
            record: match self.record {
                Some((register, line)) => Some((register, line@)),
                None => None,
            },
            close: self.close,
        }
    }
}

/// The event is taken note of, and nothing else is to be done.
pub open spec fn nothing_more() -> ReactionView {
    ReactionView {
        consumed: true,
        custom: None,
        modal: None,
        open: None,
        set_line: None,
        to_prompt: false,
        record: None,
        close: None,
    }
}

impl Reaction {
    fn consumed() -> (reaction: Reaction)
        ensures
            reaction@ == nothing_more(),
    {
        Reaction {
            consumed: true,
            custom: None,
            modal: None,
            open: None,
            set_line: None,
            to_prompt: false,
            record: None,
            close: None,
        }
    }
}

/// The history completion that can be taken: there is one, and nothing has
/// been typed.
pub open spec fn offered(line: &str, completion: Option<&str>) -> Option<Seq<char>> {
    match completion {
        Some(offer) => if line@.len() == 0 {
            Some(offer@)
        } else {
            None
        },
        None => None,
    }
}

/// Whether a key is among the extra ones.
fn bound(handlers: &Vec<KeyEvent>, event: KeyEvent) -> (yes: bool)
    ensures
        yes == handlers@.contains(event),
{
    let mut i: usize = 0;
    while i < handlers.len()
        invariant
            i <= handlers@.len(),
            forall|j: int| 0 <= j < i ==> handlers@[j] != event,
        decreases handlers@.len() - i,
    {
        if handlers[i] == event {
            return true;
        }
        i += 1;
    }
    false
}

impl Picker {
    /// What a key means depends on.
    pub open spec fn context_for(&self, modal: bool, event: KeyEvent) -> KeyContext {
        KeyContext {
            modal,
            mode: self.mode,
            preview_shown: self.previews(),
            custom: self.key_handlers@.contains(event) && self.selected() is Some,
            modal_custom: self.modal_key_handlers@.contains(key::canonical(event))
                && self.selected() is Some,
        }
    }

    /// What the handler of an extra key is handed.
    pub open spec fn action_args(&self) -> Option<PickerAction> {
        match self.selected() {
            Some(selection) => Some(PickerAction { selection, cursor: self.cursor }),
            None => None,
        }
    }

    /// The selected item, to be opened.
    pub open spec fn opening(&self, action: Action) -> Option<(u64, Action)> {
        match self.selected() {
            Some(selection) => Some((selection, action)),
            None => None,
        }
    }

    /// What becomes of the picker when it is closed. One with very many items
    /// is not kept, to avoid excessive memory consumption.
    pub open spec fn closing(&self) -> Close {
        if matcher::item_total(self.matcher) > MAX_REMEMBERED_ITEMS {
            Close::Forget
        } else {
            Close::Remember
        }
    }

    /// The picker once it is closed. A picker that is kept moves on to another
    /// version, so that no more items come in.
    pub open spec fn closed(self) -> Picker {
        if self.closing() == Close::Forget {
            self
        } else {
            Picker {
                version: if self.version == usize::MAX {
                    0
                } else {
                    (self.version + 1) as usize
                },
                ..self
            }
        }
    }

    /// What the picker does on a command, apart from the preview. `completion`
    /// is the history completion that can be taken.
    pub open spec fn state_after(self, command: Command, completion: Option<Seq<char>>) -> Picker {
        let len = self.matches().len() as int;
        match command {
            Command::MovePrevious => Picker {
                cursor: picker::moved(len, self.cursor, 1, Direction::Backward) as u32,
                ..self
            },
            Command::MoveNext => Picker {
                cursor: picker::moved(len, self.cursor, 1, Direction::Forward) as u32,
                ..self
            },
            Command::PageUp => Picker {
                cursor: picker::moved(
                    len,
                    self.cursor,
                    self.completion_height as u32,
                    Direction::Backward,
                ) as u32,
                ..self
            },
            Command::PageDown => Picker {
                cursor: picker::moved(
                    len,
                    self.cursor,
                    self.completion_height as u32,
                    Direction::Forward,
                ) as u32,
                ..self
            },
            Command::ToStart => Picker { cursor: 0, ..self },
            Command::ToEnd => Picker { cursor: geometry::monus(len, 1) as u32, ..self },
            Command::TogglePreview => Picker { show_preview: !self.show_preview, ..self },
            Command::EnterNormalMode => Picker { mode: PickerMode::Normal, ..self },
            Command::EnterInsertMode => Picker { mode: PickerMode::Insert, ..self },
            Command::Close | Command::OpenHorizontalSplit | Command::OpenVerticalSplit =>
            self.closed(),
            Command::Accept => if completion is Some {
                self
            } else {
                self.closed()
            },
            _ => self,
        }
    }

    /// What is to be done on a command.
    pub open spec fn reaction_to(self, command: Command, completion: Option<Seq<char>>) -> ReactionView {
        match command {
            Command::CustomKey => ReactionView { custom: self.action_args(), ..nothing_more() },
            Command::ModalKey => ReactionView { modal: self.action_args(), ..nothing_more() },
            Command::OpenAndStay => ReactionView {
                open: self.opening(self.default_action),
                ..nothing_more()
            },
            Command::Accept => match completion {
                Some(line) => ReactionView {
                    set_line: Some(query::escaped(line)),
                    ..nothing_more()
                },
                None => ReactionView {
                    open: self.opening(self.default_action),
                    record: match self.history_register {
                        Some(register) => Some((register, self.primary_text())),
                        None => None,
                    },
                    close: Some(self.closing()),
                    ..nothing_more()
                },
            },
            Command::OpenHorizontalSplit => ReactionView {
                open: self.opening(Action::HorizontalSplit),
                close: Some(self.closing()),
                ..nothing_more()
            },
            Command::OpenVerticalSplit => ReactionView {
                open: self.opening(Action::VerticalSplit),
                close: Some(self.closing()),
                ..nothing_more()
            },
            Command::Close => ReactionView { close: Some(self.closing()), ..nothing_more() },
            Command::ToQuery => ReactionView { to_prompt: true, ..nothing_more() },
            _ => nothing_more(),
        }
    }

    /// By how many rows a command scrolls the preview, if it does.
    pub open spec fn scroll_amount(self, command: Command, scroll_lines: isize) -> Option<isize> {
        match command {
            Command::ScrollPreviewLineDown => Some(paging::rows_down(scroll_lines)),
            Command::ScrollPreviewLineUp => Some(paging::rows_up(scroll_lines)),
            Command::ScrollPreviewPageDown => Some(self.preview_height as isize),
            Command::ScrollPreviewPageUp => Some((-(self.preview_height as isize)) as isize),
            _ => None,
        }
    }

    /// Whether the picker is currently in modal normal mode, where unmodified
    /// keys drive the picker rather than typing into the query.
    ///
    /// Always `false` while pickers are not modal, which is the default.
    pub fn in_normal_mode(&self, modal: bool) -> (yes: bool)
        ensures
            yes == (modal && self.mode == PickerMode::Normal),
    {
        modal && self.mode == PickerMode::Normal
    }

    /// What a key means depends on.
    fn key_context(&self, modal: bool, event: KeyEvent) -> (cx: KeyContext)
        ensures
            cx == self.context_for(modal, event),
    {
        let mut folded: KeyEvent = event;
        key::canonicalize_key(&mut folded);
        let selected: bool = self.selection().is_some();
        KeyContext {
            modal,
            mode: self.mode,
            preview_shown: self.preview_shown(),
            custom: bound(&self.key_handlers, event) && selected,
            modal_custom: bound(&self.modal_key_handlers, folded) && selected,
        }
    }

    /// What the handler of an extra key is handed.
    fn handler_args(&self) -> (args: Option<PickerAction>)
        ensures
            args == self.action_args(),
    {
        match self.selection() {
            Some(selection) => Some(PickerAction { selection, cursor: self.cursor }),
            None => None,
        }
    }

    /// The selected item, to be opened.
    fn open_selection(&self, action: Action) -> (open: Option<(u64, Action)>)
        ensures
            open == self.opening(action),
    {
        match self.selection() {
            Some(selection) => Some((selection, action)),
            None => None,
        }
    }

    /// Closes the picker: stops streaming in new items in the background,
    /// unless it is too large to be kept anyway.
    fn close(&mut self) -> (close: Close)
        ensures
            *final(self) == old(self).closed(),
            close == old(self).closing(),
    {
        if matcher::item_count(&self.matcher) > MAX_REMEMBERED_ITEMS {
            Close::Forget
        } else {
            self.version = self.version.wrapping_add(1);
            Close::Remember
        }
    }

    /// What a command does to the picker and to the editor, and what is to be
    /// done besides.
    pub open spec fn obeys(
        self,
        command: Command,
        after: Picker,
        editor: Editor,
        editor_after: Editor,
        location: Option<FileLocation>,
        completion: Option<Seq<char>>,
        reaction: ReactionView,
    ) -> bool {
        &&& reaction == self.reaction_to(command, completion)
        &&& match self.scroll_amount(command, editor.scroll_lines) {
            Some(amount) => self.scrolls_to(after, editor, editor_after, location, amount),
            None => after == self.state_after(command, completion) && editor_after == editor,
        }
    }

    /// What an event does to the picker and to the editor, and what is to be
    /// done besides.
    pub open spec fn handles(
        self,
        event: Event,
        after: Picker,
        editor: Editor,
        editor_after: Editor,
        location: Option<FileLocation>,
        completion: Option<Seq<char>>,
        reaction: ReactionView,
    ) -> bool {
        match event {
            Event::Key(pressed) => self.obeys(
                key::command_for(self.context_for(editor.modal, pressed), pressed),
                after,
                editor,
                editor_after,
                location,
                completion,
                reaction,
            ),
            Event::Paste => {
                &&& after == self
                &&& editor_after == editor
                &&& reaction == (ReactionView {
                    to_prompt: !(editor.modal && self.mode == PickerMode::Normal),
                    ..nothing_more()
                })
            },
            Event::Resize | Event::Mouse => {
                &&& after == self
                &&& editor_after == editor
                &&& reaction == nothing_more()
            },
            Event::Other => {
                &&& after == self
                &&& editor_after == editor
                &&& reaction == (ReactionView { consumed: false, ..nothing_more() })
            },
        }
    }

    /// Moves the cursor as a command says.
    fn obey_move(&mut self, command: Command)
        requires
            command is MovePrevious || command is MoveNext || command is PageUp || command
                is PageDown || command is ToStart || command is ToEnd,
        ensures
            *final(self) == old(self).state_after(command, None),
    {
        match command {
            Command::MovePrevious => self.move_by(1, Direction::Backward),
            Command::MoveNext => self.move_by(1, Direction::Forward),
            Command::PageUp => self.page_up(),
            Command::PageDown => self.page_down(),
            Command::ToStart => self.to_start(),
            _ => self.to_end(),
        }
    }

    /// Does what a command says.
    fn obey(
        &mut self,
        command: Command,
        editor: &mut Editor,
        location: &Option<FileLocation>,
        line: &str,
        completion: Option<&str>,
    ) -> (reaction: Reaction)
        requires
            old(self).wf(),
        ensures
            final(self).wf(),
            old(self).obeys(
                command,
                *final(self),
                *old(editor),
                *final(editor),
                *location,
                offered(line, completion),
                reaction@,
            ),
    {
        let mut reaction: Reaction = Reaction::consumed();
        match command {
            Command::MovePrevious | Command::MoveNext | Command::PageUp | Command::PageDown
            | Command::ToStart | Command::ToEnd => self.obey_move(command),
            Command::ScrollPreviewLineUp => self.scroll_preview_line_up(editor, location),
            Command::ScrollPreviewLineDown => self.scroll_preview_line_down(editor, location),
            Command::ScrollPreviewPageUp => self.scroll_preview_page_up(editor, location),
            Command::ScrollPreviewPageDown => self.scroll_preview_page_down(editor, location),
            Command::TogglePreview => self.toggle_preview(),
            Command::OpenAndStay => {
                reaction.open = self.open_selection(self.default_action);
            },
            Command::Accept => match if line.is_empty() {
                completion
            } else {
                None
            } {
                // If the prompt has a history completion and is empty, use
                // enter to accept that completion.
                Some(offer) => {
                    reaction.set_line = Some(query::escape_percent(offer));
                },
                None => {
                    reaction.open = self.open_selection(self.default_action);
                    if let Some(register) = self.history_register {
                        reaction.record = Some((register, self.primary_query()));
                    }
                    reaction.close = Some(self.close());
                },
            },
            Command::OpenHorizontalSplit => {
                reaction.open = self.open_selection(Action::HorizontalSplit);
                reaction.close = Some(self.close());
            },
            Command::OpenVerticalSplit => {
                reaction.open = self.open_selection(Action::VerticalSplit);
                reaction.close = Some(self.close());
            },
            Command::Close => {
                reaction.close = Some(self.close());
            },
            Command::EnterNormalMode => {
                self.mode = PickerMode::Normal;
            },
            Command::EnterInsertMode => {
                self.mode = PickerMode::Insert;
            },
            Command::CustomKey => {
                reaction.custom = self.handler_args();
            },
            Command::ModalKey => {
                reaction.modal = self.handler_args();
            },
            Command::Swallow => {},
            Command::ToQuery => {
                reaction.to_prompt = true;
            },
        }
        reaction
    }

    /// Handles an event. `location` is the file that the selected item refers
    /// to, `line` what is typed into the prompt, and `completion` the first
    /// history completion that it offers.
    pub fn handle_event(
        &mut self,
        event: &Event,
        editor: &mut Editor,
        location: &Option<FileLocation>,
        line: &str,
        completion: Option<&str>,
    ) -> (reaction: Reaction)
        requires
            old(self).wf(),
        ensures
            final(self).wf(),
            old(self).handles(
                *event,
                *final(self),
                *old(editor),
                *final(editor),
                *location,
                offered(line, completion),
                reaction@,
            ),
    {
        let mut reaction: Reaction = Reaction::consumed();
        let pressed: KeyEvent = match *event {
            Event::Key(pressed) => pressed,
            // A paste is query text, so it is swallowed in normal mode just
            // like a typed key would be.
            Event::Paste => {
                reaction.to_prompt = !self.in_normal_mode(editor.modal);
                return reaction;
            },
            Event::Resize => return reaction,
            // A picker covers what is underneath, and consumes mouse events so
            // that clicks don't fall through.
            Event::Mouse => return reaction,
            Event::Other => {
                reaction.consumed = false;
                return reaction;
            },
        };
        let command: Command = key::key_command(self.key_context(editor.modal, pressed), pressed);
        self.obey(command, editor, location, line, completion)
    }
}

/// Whatever a key does, the query, the columns and what the matcher looks for
/// stay as they are: only the prompt changes them.
pub proof fn law_keys_leave_the_query_alone(
    picker: Picker,
    command: Command,
    completion: Option<Seq<char>>,
)
    ensures
        picker.state_after(command, completion).query == picker.query,
        picker.state_after(command, completion).matcher == picker.matcher,
        picker.state_after(command, completion).columns == picker.columns,
{
}

/// A picker that is closed and kept takes no more items from the injectors
/// that it had.
pub proof fn law_a_kept_picker_refuses_items(picker: Picker, version: usize)
    requires
        picker.closing() == Close::Remember,
        version == picker.version,
    ensures
        picker.closed().version != version,
{
}

/// Closing goes with every way of opening an item but `Alt-Enter`: that one
/// opens it and keeps the picker as it is.
pub proof fn law_only_alt_enter_opens_and_stays(picker: Picker, command: Command)
    requires
        picker.reaction_to(command, None).open is Some,
    ensures
        picker.reaction_to(command, None).close is Some <==> command != Command::OpenAndStay,
        command == Command::OpenAndStay ==> picker.state_after(command, None) == picker,
{
}

/// An extra key only counts while there is a selection for its handler to act
/// on.
pub proof fn law_extra_keys_need_a_selection(picker: Picker, modal: bool, event: KeyEvent)
    requires
        picker.selected() is None,
    ensures
        key::command_for(picker.context_for(modal, event), event) != Command::CustomKey,
        key::command_for(picker.context_for(modal, event), event) != Command::ModalKey,
{
}

/// Whether two editors are in the same state: what they hold is the same, and
/// so is what they report.
pub open spec fn same_editor(a: Editor, b: Editor) -> bool {
    &&& b == (Editor { documents: b.documents, error: b.error, ..a })
    &&& a.documents@ == b.documents@
    &&& match (a.error, b.error) {
        (Some(x), Some(y)) => x@ == y@,
        (None, None) => true,
        _ => false,
    }
}

/// Whether two pickers are in the same state, but for their modes.
pub open spec fn same_but_mode(a: Picker, b: Picker) -> bool {
    &&& b == (Picker { mode: b.mode, preview_cache: b.preview_cache, ..a })
    &&& a.preview_cache.entries@ == b.preview_cache.entries@
}

/// Apart from the commands that enter one, commands do not look at the mode.
proof fn lemma_commands_ignore_the_mode(
    picker: Picker,
    mode: PickerMode,
    command: Command,
    scroll_lines: isize,
    completion: Option<Seq<char>>,
)
    requires
        command != Command::EnterNormalMode,
        command != Command::EnterInsertMode,
    ensures
        ({
            let other = Picker { mode, ..picker };
            &&& other.reaction_to(command, completion) == picker.reaction_to(command, completion)
            &&& other.scroll_amount(command, scroll_lines) == picker.scroll_amount(
                command,
                scroll_lines,
            )
            &&& other.state_after(command, completion) == (Picker {
                mode,
                ..picker.state_after(command, completion)
            })
        }),
        picker.state_after(command, completion).mode == picker.mode,
{
    let other = Picker { mode, ..picker };
    assert(other.selected() == picker.selected());
    assert(other.closing() == picker.closing());
}

/// Scrolling the preview does not look at the mode.
proof fn lemma_scrolling_ignores_the_mode(
    picker: Picker,
    mode: PickerMode,
    editor: Editor,
    location: Option<FileLocation>,
    amount: isize,
    after: Picker,
    editor_after: Editor,
    other_after: Picker,
    other_editor_after: Editor,
)
    requires
        picker.scrolls_to(after, editor, editor_after, location, amount),
        (Picker { mode, ..picker }).scrolls_to(
            other_after,
            editor,
            other_editor_after,
            location,
            amount,
        ),
    ensures
        same_but_mode(after, other_after),
        same_editor(editor_after, other_editor_after),
        after.mode == picker.mode,
        other_after.mode == mode,
{
    let other = Picker { mode, ..picker };
    assert(other.selected() == picker.selected());
    assert(other.media_selected(editor, location) == picker.media_selected(editor, location));
    if let Some((target, kind)) = picker.media_selected(editor, location) {
        assert(other.media_at(editor, target) == picker.media_at(editor, target));
    }
}

/// While modal pickers are off, the mode of a picker makes no difference to
/// what an event does: two pickers that differ in it alone react alike, end in
/// the same state and leave the editor in the same state, and each stays in the
/// mode that it was in.
pub proof fn law_events_ignore_the_mode_of_plain_pickers(
    picker: Picker,
    mode: PickerMode,
    event: Event,
    editor: Editor,
    location: Option<FileLocation>,
    completion: Option<Seq<char>>,
    after: Picker,
    editor_after: Editor,
    reaction: ReactionView,
    other_after: Picker,
    other_editor_after: Editor,
    other_reaction: ReactionView,
)
    requires
        !editor.modal,
        picker.handles(event, after, editor, editor_after, location, completion, reaction),
        (Picker { mode, ..picker }).handles(
            event,
            other_after,
            editor,
            other_editor_after,
            location,
            completion,
            other_reaction,
        ),
    ensures
        reaction == other_reaction,
        same_but_mode(after, other_after),
        same_editor(editor_after, other_editor_after),
        after.mode == picker.mode,
        other_after.mode == mode,
{
    let other = Picker { mode, ..picker };
    if let Event::Key(pressed) = event {
        let command = key::command_for(picker.context_for(false, pressed), pressed);
        key::law_modal_off_ignores_the_mode(picker.context_for(false, pressed), mode, pressed);
        assert(other.context_for(false, pressed) == KeyContext {
            mode,
            ..picker.context_for(false, pressed)
        });
        lemma_commands_ignore_the_mode(picker, mode, command, editor.scroll_lines, completion);
        if let Some(amount) = picker.scroll_amount(command, editor.scroll_lines) {
            lemma_scrolling_ignores_the_mode(
                picker,
                mode,
                editor,
                location,
                amount,
                after,
                editor_after,
                other_after,
                other_editor_after,
            );
        }
    }
}

/// The mode changes on `Esc` in the query of a modal picker, and on a key that
/// normal mode binds to going back to it, and on nothing else.
pub proof fn law_few_keys_change_the_mode(
    picker: Picker,
    event: Event,
    editor: Editor,
    location: Option<FileLocation>,
    completion: Option<Seq<char>>,
    after: Picker,
    editor_after: Editor,
    reaction: ReactionView,
)
    requires
        picker.handles(event, after, editor, editor_after, location, completion, reaction),
    ensures
        after.mode != picker.mode <==> editor.modal && (event matches Event::Key(pressed)
            && !picker.context_for(editor.modal, pressed).custom && match picker.mode {
            PickerMode::Insert => pressed == key::key(KeyCode::Esc),
            PickerMode::Normal => !picker.context_for(editor.modal, pressed).modal_custom
                && key::normal_action(key::canonical(pressed)) == Some(
                NormalModeAction::EnterInsertMode,
            ),
        }),
{
}

/// Whether an event stops with the picker, and nothing is left to be done
/// besides.
pub open spec fn stops_here(reaction: ReactionView) -> bool {
    &&& reaction.consumed
    &&& !reaction.to_prompt
    &&& reaction.custom is None && reaction.modal is None && reaction.open is None
    &&& reaction.set_line is None && reaction.record is None && reaction.close is None
}

/// The commands that move the cursor move it and nothing else: one match on or
/// back, past either end of the list to the other, a page on or back, or to one
/// of the ends.
pub proof fn law_moving_commands_move_the_cursor(
    picker: Picker,
    command: Command,
    after: Picker,
    editor: Editor,
    editor_after: Editor,
    location: Option<FileLocation>,
    completion: Option<Seq<char>>,
    reaction: ReactionView,
)
    requires
        picker.obeys(command, after, editor, editor_after, location, completion, reaction),
        0 < matcher::matched(picker.matcher).len(),
        picker.cursor < matcher::matched(picker.matcher).len(),
        picker.cursor + matcher::matched(picker.matcher).len() <= u32::MAX,
        picker.cursor + picker.completion_height <= u32::MAX,
    ensures
        ({
            let len = matcher::matched(picker.matcher).len();
            let page = picker.completion_height as int;
            &&& command == Command::MoveNext ==> after.cursor == (if picker.cursor + 1 == len {
                0
            } else {
                picker.cursor + 1
            })
            &&& command == Command::MovePrevious ==> after.cursor == (if picker.cursor == 0 {
                len - 1
            } else {
                picker.cursor - 1
            })
            &&& command == Command::PageDown && picker.cursor + page < len ==> after.cursor
                == picker.cursor + page
            &&& command == Command::PageDown && len <= picker.cursor + page < 2 * len
                ==> after.cursor == picker.cursor + page - len
            &&& command == Command::PageUp && page <= picker.cursor ==> after.cursor
                == picker.cursor - page
            &&& command == Command::PageUp && picker.cursor < page <= picker.cursor + len
                ==> after.cursor == picker.cursor + len - page
            &&& command == Command::ToStart ==> after.cursor == 0
            &&& command == Command::ToEnd ==> after.cursor == len - 1
            &&& command == Command::MoveNext || command == Command::MovePrevious || command
                == Command::PageDown || command == Command::PageUp || command == Command::ToStart
                || command == Command::ToEnd ==> after == (Picker {
                cursor: after.cursor,
                ..picker
            }) && editor_after == editor && stops_here(reaction)
        }),
{
    let len = matcher::matched(picker.matcher).len() as int;
    picker::law_moving_counts_matches(len, picker.cursor, 1);
    picker::law_moving_counts_matches(len, picker.cursor, picker.completion_height as u32);
    picker::law_moving_stays_on_the_list(len, picker.cursor, 1, Direction::Forward);
    picker::law_moving_stays_on_the_list(len, picker.cursor, 1, Direction::Backward);
    picker::law_moving_stays_on_the_list(
        len,
        picker.cursor,
        picker.completion_height as u32,
        Direction::Forward,
    );
    picker::law_moving_stays_on_the_list(
        len,
        picker.cursor,
        picker.completion_height as u32,
        Direction::Backward,
    );
}

/// With no matches no command moves the cursor, but to the start.
pub proof fn law_there_is_nothing_to_move_through(
    picker: Picker,
    command: Command,
    after: Picker,
    editor: Editor,
    editor_after: Editor,
    location: Option<FileLocation>,
    completion: Option<Seq<char>>,
    reaction: ReactionView,
)
    requires
        picker.obeys(command, after, editor, editor_after, location, completion, reaction),
        matcher::matched(picker.matcher).len() == 0,
        command == Command::MoveNext || command == Command::MovePrevious || command
            == Command::PageDown || command == Command::PageUp,
    ensures
        after == picker,
        editor_after == editor,
        stops_here(reaction),
{
}

/// The commands that change a setting of the picker change it and nothing else.
pub proof fn law_settings_are_changed_one_by_one(
    picker: Picker,
    command: Command,
    after: Picker,
    editor: Editor,
    editor_after: Editor,
    location: Option<FileLocation>,
    completion: Option<Seq<char>>,
    reaction: ReactionView,
)
    requires
        picker.obeys(command, after, editor, editor_after, location, completion, reaction),
    ensures
        command == Command::TogglePreview ==> after == (Picker {
            show_preview: !picker.show_preview,
            ..picker
        }),
        command == Command::EnterNormalMode ==> after == (Picker {
            mode: PickerMode::Normal,
            ..picker
        }),
        command == Command::EnterInsertMode ==> after == (Picker {
            mode: PickerMode::Insert,
            ..picker
        }),
        command == Command::Swallow ==> after == picker,
        command == Command::TogglePreview || command == Command::EnterNormalMode || command
            == Command::EnterInsertMode || command == Command::Swallow ==> editor_after == editor
            && stops_here(reaction),
{
}

/// The commands that open an item open the one that the cursor is on, if it is
/// on one: splits in their way, accepting and `Alt-Enter` in the picker's own.
pub proof fn law_the_match_under_the_cursor_is_opened(
    picker: Picker,
    command: Command,
    after: Picker,
    editor: Editor,
    editor_after: Editor,
    location: Option<FileLocation>,
    completion: Option<Seq<char>>,
    reaction: ReactionView,
)
    requires
        picker.obeys(command, after, editor, editor_after, location, completion, reaction),
    ensures
        ({
            let matches = matcher::matched(picker.matcher);
            let action = match command {
                Command::OpenHorizontalSplit => Some(Action::HorizontalSplit),
                Command::OpenVerticalSplit => Some(Action::VerticalSplit),
                Command::OpenAndStay => Some(picker.default_action),
                Command::Accept => if completion is None {
                    Some(picker.default_action)
                } else {
                    None
                },
                _ => None,
            };
            match action {
                Some(action) => if picker.cursor < matches.len() {
                    reaction.open == Some((matches[picker.cursor as int], action))
                } else {
                    reaction.open is None
                },
                None => reaction.open is None,
            }
        }),
{
}

/// A picker closes on accepting, on opening in a split and on closing, and on
/// nothing else. It is kept unless it has more than a million items; one that is
/// kept moves on by a version, and nothing else about it changes.
pub proof fn law_closed_pickers_are_kept_unless_huge(
    picker: Picker,
    command: Command,
    after: Picker,
    editor: Editor,
    editor_after: Editor,
    location: Option<FileLocation>,
    completion: Option<Seq<char>>,
    reaction: ReactionView,
)
    requires
        picker.obeys(command, after, editor, editor_after, location, completion, reaction),
    ensures
        reaction.close is Some <==> command == Command::Close || command
            == Command::OpenHorizontalSplit || command == Command::OpenVerticalSplit || (command
            == Command::Accept && completion is None),
        reaction.close is Some && matcher::item_total(picker.matcher) <= 1000000 ==> reaction.close
            == Some(Close::Remember) && after == (Picker { version: after.version, ..picker })
            && after.version == (if picker.version < usize::MAX {
            picker.version + 1
        } else {
            0
        }),
        reaction.close is Some && matcher::item_total(picker.matcher) > 1000000 ==> reaction.close
            == Some(Close::Forget) && after == picker,
        reaction.close is Some ==> editor_after == editor,
{
}

/// Accepting remembers the primary query in the history register, if there is
/// one, and nothing else does. A history completion that is offered is taken
/// instead: it goes into the prompt, escaped, and the picker stays as it is.
pub proof fn law_accepting_remembers_the_query(
    picker: Picker,
    command: Command,
    after: Picker,
    editor: Editor,
    editor_after: Editor,
    location: Option<FileLocation>,
    completion: Option<Seq<char>>,
    reaction: ReactionView,
)
    requires
        picker.obeys(command, after, editor, editor_after, location, completion, reaction),
    ensures
        command != Command::Accept ==> reaction.record is None && reaction.set_line is None,
        command == Command::Accept && completion is None ==> reaction.set_line is None
            && reaction.record == (match picker.history_register {
            Some(register) => Some((register, picker.primary_text())),
            None => None,
        }),
        command == Command::Accept && completion is Some ==> reaction.set_line == Some(
            query::escaped(completion.unwrap()),
        ) && reaction.record is None && after == picker && editor_after == editor,
{
}

/// Only an extra key runs a handler, and only its own: the handler is handed the
/// selected item and where the cursor is. Only a key that is for the query goes
/// there. Whatever a key does, it stops with the picker.
pub proof fn law_extra_keys_run_their_handlers(
    picker: Picker,
    command: Command,
    after: Picker,
    editor: Editor,
    editor_after: Editor,
    location: Option<FileLocation>,
    completion: Option<Seq<char>>,
    reaction: ReactionView,
)
    requires
        picker.obeys(command, after, editor, editor_after, location, completion, reaction),
    ensures
        ({
            let matches = matcher::matched(picker.matcher);
            let args = if picker.cursor < matches.len() {
                Some(
                    PickerAction {
                        selection: matches[picker.cursor as int],
                        cursor: picker.cursor,
                    },
                )
            } else {
                None
            };
            &&& reaction.consumed
            &&& reaction.custom == (if command == Command::CustomKey {
                args
            } else {
                None
            })
            &&& reaction.modal == (if command == Command::ModalKey {
                args
            } else {
                None
            })
            &&& reaction.to_prompt == (command == Command::ToQuery)
            &&& command == Command::CustomKey || command == Command::ModalKey || command
                == Command::ToQuery || command == Command::OpenAndStay ==> after == picker
                && editor_after == editor
        }),
{
}

/// A key that scrolls the preview down and one that scrolls it up scroll as far,
/// in opposite directions: by lines as many as the editor scrolls by, and by
/// pages as many rows as the preview has.
pub proof fn law_scroll_keys_are_opposites(picker: Picker, scroll_lines: isize)
    requires
        scroll_lines > isize::MIN,
    ensures
        picker.scroll_amount(Command::ScrollPreviewLineDown, scroll_lines) matches Some(down)
            && picker.scroll_amount(Command::ScrollPreviewLineUp, scroll_lines) matches Some(up)
            && down >= 0 && up + down == 0 && (down == scroll_lines || up == scroll_lines),
        picker.scroll_amount(Command::ScrollPreviewPageDown, scroll_lines) matches Some(down)
            && picker.scroll_amount(Command::ScrollPreviewPageUp, scroll_lines) matches Some(up)
            && down == picker.preview_height && up + down == 0,
{
}

/// No other command scrolls the preview, and scrolling leaves nothing to be
/// done besides.
pub proof fn law_only_scroll_keys_scroll(
    picker: Picker,
    command: Command,
    after: Picker,
    editor: Editor,
    editor_after: Editor,
    location: Option<FileLocation>,
    completion: Option<Seq<char>>,
    reaction: ReactionView,
)
    requires
        picker.obeys(command, after, editor, editor_after, location, completion, reaction),
    ensures
        ({
            let scrolls = command == Command::ScrollPreviewLineDown || command
                == Command::ScrollPreviewLineUp || command == Command::ScrollPreviewPageDown
                || command == Command::ScrollPreviewPageUp;
            &&& scrolls ==> stops_here(reaction)
            &&& !scrolls ==> editor_after == editor && after.preview_scroll_offset
                == picker.preview_scroll_offset && after.preview_cache == picker.preview_cache
        }),
{
}

/// What a key means depends on whether pickers are modal, on the picker's mode,
/// on whether there is a preview on screen, and on whether it is one of the
/// extra keys while there is a selection for its handler.
pub proof fn law_a_keys_meaning_depends_on(picker: Picker, modal: bool, event: KeyEvent)
    ensures
        ({
            let cx = picker.context_for(modal, event);
            let selection = picker.cursor < matcher::matched(picker.matcher).len();
            let folded = KeyEvent {
                code: event.code,
                modifiers: key::KeyModifiers {
                    shift: event.modifiers.shift && !(event.code is Char),
                    control: event.modifiers.control,
                    alt: event.modifiers.alt,
                    meta: event.modifiers.meta,
                },
            };
            &&& cx.modal == modal
            &&& cx.mode == picker.mode
            &&& cx.preview_shown == (picker.show_preview && picker.has_preview
                && picker.preview_visible)
            &&& cx.custom == (selection && picker.key_handlers@.contains(event))
            &&& cx.modal_custom == (selection && picker.modal_key_handlers@.contains(folded))
        }),
{
    key::law_folding_takes_shift_off_characters(event);
}

/// A key does what it means. Text that is pasted goes to the query, but in
/// normal mode; other events that reach a picker stop there, and what it does
/// not know goes on. None of these changes the picker or the editor.
pub proof fn law_other_events_change_nothing(
    picker: Picker,
    event: Event,
    after: Picker,
    editor: Editor,
    editor_after: Editor,
    location: Option<FileLocation>,
    completion: Option<Seq<char>>,
    reaction: ReactionView,
)
    requires
        picker.handles(event, after, editor, editor_after, location, completion, reaction),
    ensures
        match event {
            Event::Key(pressed) => picker.obeys(
                key::command_for(picker.context_for(editor.modal, pressed), pressed),
                after,
                editor,
                editor_after,
                location,
                completion,
                reaction,
            ),
            _ => after == picker && editor_after == editor,
        },
        event is Paste ==> stops_here(ReactionView { to_prompt: false, ..reaction })
            && reaction.to_prompt == !(editor.modal && picker.mode == PickerMode::Normal),
        event is Resize || event is Mouse ==> stops_here(reaction),
        event is Other ==> !reaction.consumed && stops_here(
            ReactionView { consumed: true, ..reaction },
        ),
{
}

/// A history completion can be taken only while nothing is typed.
pub proof fn law_completions_are_for_empty_lines(line: &str, completion: Option<&str>)
    ensures
        line@.len() > 0 ==> offered(line, completion) is None,
        completion is None ==> offered(line, completion) is None,
        line@.len() == 0 && completion is Some ==> offered(line, completion) == Some(
            completion.unwrap()@,
        ),
{
}

/// A reaction is seen as it is.
pub proof fn law_reactions_are_seen_as_they_are(reaction: Reaction)
    ensures
        reaction@.consumed == reaction.consumed,
        reaction@.custom == reaction.custom,
        reaction@.modal == reaction.modal,
        reaction@.open == reaction.open,
        reaction@.to_prompt == reaction.to_prompt,
        reaction@.close == reaction.close,
        match reaction.set_line {
            Some(line) => reaction@.set_line == Some(line@),
            None => reaction@.set_line is None,
        },
        match reaction.record {
            Some((register, line)) => reaction@.record == Some((register, line@)),
            None => reaction@.record is None,
        },
{
}

/// The commands that move by matches move by one, and those that move by pages
/// by as many as the list has rows, up or down as they say.
pub proof fn law_moving_commands_move_by_rows(
    picker: Picker,
    command: Command,
    after: Picker,
    editor: Editor,
    editor_after: Editor,
    location: Option<FileLocation>,
    completion: Option<Seq<char>>,
    reaction: ReactionView,
)
    requires
        picker.obeys(command, after, editor, editor_after, location, completion, reaction),
        matcher::matched(picker.matcher).len() <= u32::MAX,
    ensures
        ({
            let len = matcher::matched(picker.matcher).len() as int;
            let there = |amount: u32, direction: Direction|
                picker::moved(len, picker.cursor, amount, direction);
            &&& command == Command::MoveNext ==> after.cursor == there(1, Direction::Forward)
            &&& command == Command::MovePrevious ==> after.cursor == there(1, Direction::Backward)
            &&& command == Command::PageDown ==> after.cursor == there(
                picker.completion_height as u32,
                Direction::Forward,
            )
            &&& command == Command::PageUp ==> after.cursor == there(
                picker.completion_height as u32,
                Direction::Backward,
            )
            &&& command == Command::ToStart ==> after.cursor == 0
            &&& command == Command::ToEnd ==> after.cursor == (if len > 0 {
                len - 1
            } else {
                0
            })
        }),
{
    let len = matcher::matched(picker.matcher).len() as int;
    if len > 0 {
        let page = picker.completion_height as u32;
        picker::law_moving_stays_on_the_list(len, picker.cursor, 1, Direction::Forward);
        picker::law_moving_stays_on_the_list(len, picker.cursor, 1, Direction::Backward);
        picker::law_moving_stays_on_the_list(len, picker.cursor, page, Direction::Forward);
        picker::law_moving_stays_on_the_list(len, picker.cursor, page, Direction::Backward);
    }
}

} // verus!
