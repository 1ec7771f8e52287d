//! The picker: a list of items that is narrowed down by typing, with a preview
//! of the selected one.
//!
//! Items are known by keys. What an item looks like, and what happens when it
//! is opened, is up to whoever made the picker.
pub mod event;
pub mod paging;
pub mod render;

use nucleo::{Injector as ItemSink, Nucleo};
use vstd::prelude::*;
use vstd::string::*;
use crate::column;
use crate::column::{Column, Injector};
use crate::geometry;
use crate::key::{KeyEvent, PickerMode};
use crate::matcher;
use crate::preview::PreviewCache;
use crate::query;
use crate::query::PickerQuery;
use crate::text;

verus! {

/// The name of the layer that a picker is.
pub const ID: &'static str = "picker";

/// The width above which there is room for a preview beside the list.
pub const MIN_AREA_WIDTH_FOR_PREVIEW: u16 = 72;

/// The size above which a picker is not kept for reopening.
pub const MAX_REMEMBERED_ITEMS: u32 = 1000000;

/// How an item is opened.
#[derive(Debug, Clone, Copy, PartialEq, Eq, Structural)]
pub enum Action {
    Load,
    Replace,
    HorizontalSplit,
    VerticalSplit,
}

/// Which way the cursor moves through the list.
#[derive(Debug, Clone, Copy, PartialEq, Eq, Structural)]
pub enum Direction {
    /// Down.
    Forward,
    /// Up.
    Backward,
}

/// The picker state handed to the handler of an extra key when it is pressed.
#[derive(Debug, Clone, Copy, PartialEq, Eq, Structural)]
pub struct PickerAction {
    /// The item currently under the picker's cursor.
    pub selection: u64,
    /// The index of the picker's cursor within the current matches. Pass it to
    /// [`Picker::with_initial_cursor`] to reopen the picker where the user left
    /// it.
    pub cursor: u32,
}

/// The news that the primary query of a dynamic picker might have changed.
pub struct DynamicQueryChange {
    pub query: String,
    pub is_paste: bool,
}

/// A picker.
pub struct Picker {
    pub columns: Vec<Column>,
    pub primary_column: usize,
    /// Items from an injector of another version are refused.
    pub version: usize,
    pub matcher: Nucleo<u64>,
    /// Current height of the completions box.
    pub completion_height: u16,
    pub cursor: u32,
    /// The register that queries are remembered in.
    pub history_register: Option<char>,
    pub query: PickerQuery,
    /// Whether to show the preview panel (default true).
    pub show_preview: bool,
    /// The widths for tabular formatting.
    pub widths: Vec<u16>,
    pub default_action: Action,
    /// Extra keys, checked before the picker's own key handling. See
    /// [`Picker::with_key_handlers`].
    pub key_handlers: Vec<KeyEvent>,
    /// Extra keys which are only live in [`PickerMode::Normal`]. See
    /// [`Picker::with_modal_key_handlers`].
    pub modal_key_handlers: Vec<KeyEvent>,
    /// The picker's modal-editing mode. Only consulted when pickers are modal;
    /// a picker always opens in [`PickerMode::Insert`] so that typing filters
    /// right away.
    pub mode: PickerMode,
    pub truncate_start: bool,
    pub preview_cache: PreviewCache,
    /// Whether items have a file to preview.
    pub has_preview: bool,
    /// Whether the items themselves depend on the query.
    pub dynamic: bool,
    /// Vertical scroll of the preview relative to its natural top. Positive
    /// scrolls down, negative up. Counted in visual (soft-wrapped) rows for a
    /// document preview and in placement rows for a panned image; a PDF pages
    /// instead of scrolling, so this stays zero for one.
    pub preview_scroll_offset: isize,
    /// Height in rows of the preview pane's inner area, used for page scrolling.
    pub preview_height: u16,
    /// Selected item the current `preview_scroll_offset` applies to; the scroll
    /// resets to the top when the selection changes.
    pub preview_scroll_cursor: u32,
    /// Whether the last frame actually drew a preview. Preview-scroll keys fall
    /// back to result-list navigation when it did not, so `PageUp`/`PageDown`
    /// keep paging the list in a window too narrow for a preview.
    pub preview_visible: bool,
}

/// The pattern of each matcher column under a query.
pub open spec fn query_patterns(columns: Seq<Column>, query: PickerQuery) -> Seq<Seq<char>> {
    column::filter_names(columns).map_values(|name: Seq<char>| query.text_of(name))
}

/// Where the cursor goes among `len` matches: on past the end comes the start,
/// and the other way round. With no matches it cannot move.
pub open spec fn moved(len: int, cursor: u32, amount: u32, direction: Direction) -> int {
    if len <= 0 {
        cursor as int
    } else {
        match direction {
            Direction::Forward => geometry::least(cursor + amount, u32::MAX as int) % len,
            Direction::Backward => geometry::monus(
                geometry::least(cursor + len, u32::MAX as int),
                amount as int,
            ) % len,
        }
    }
}

/// The items that a matcher is given: each by its key, with the texts of the
/// cells that it is filtered by.
pub open spec fn searchable(columns: Seq<Column>, options: Seq<(u64, Vec<String>)>) -> Seq<
    (u64, Seq<Seq<char>>),
> {
    options.map_values(
        |option: (u64, Vec<String>)| (option.0, column::filter_cells(columns, option.1@)),
    )
}

/// The widths that columns start out with.
pub open spec fn initial_widths(columns: Seq<Column>) -> Seq<u16> {
    columns.map_values(|c: Column| (c.name@.len() % 65536) as u16)
}

impl Picker {
    /// What holds of every picker: there are columns, the primary one is one
    /// of them, each has a width, the matcher looks for what the query asks,
    /// and it matches paths if there are previews. Every match is an item that
    /// was added, and there are no more matches than items.
    pub open spec fn wf(&self) -> bool {
        &&& self.primary_column < self.columns@.len()
        &&& self.widths@.len() == self.columns@.len()
        &&& matcher::patterns(self.matcher) == query_patterns(self.columns@, self.query)
        &&& matcher::matches_paths(self.matcher) == self.has_preview
        &&& matcher::finds_listed(self.matcher)
        &&& self.matches().len() <= matcher::item_total(self.matcher)
        &&& self.preview_cache.wf()
    }

    /// The keys of the matches, best first.
    pub open spec fn matches(&self) -> Seq<u64> {
        matcher::matched(self.matcher)
    }

    /// The selected item.
    pub open spec fn selected(&self) -> Option<u64> {
        if self.cursor < self.matches().len() {
            Some(self.matches()[self.cursor as int])
        } else {
            None
        }
    }

    /// What the query asks of the primary column.
    pub open spec fn primary_text(&self) -> Seq<char> {
        self.query.text_of(self.columns@[self.primary_column as int].name@)
    }

    /// A matcher for items with the given columns, and a handle to fill it
    /// with. `notify` is called, on any thread, when there is something new to
    /// show.
    pub fn stream<F: Fn() + Sync + Send + 'static>(columns: Vec<Column>, notify: F) -> (made: (
        Nucleo<u64>,
        Injector,
    ))
        requires
            0 < column::filter_names(columns@).len() <= u32::MAX,
            call_requires(notify, ()),
        ensures
            matcher::items_of(made.1.dst) == matcher::items(made.0),
            matcher::finds_listed(made.0),
            matcher::matched(made.0) == Seq::<u64>::empty(),
            matcher::item_total(made.0) == 0,
            matcher::patterns(made.0) == blank_patterns(columns@),
            !matcher::matches_paths(made.0),
            made.1.columns == columns,
            made.1.version == 0,
    {
        let count: usize = column::count_filters(&columns);
        let mut matcher: Nucleo<u64> = matcher::new_matcher(notify, count as u32);
        let dst: ItemSink<u64> = matcher::injector_of(&mut matcher);
        (matcher, Injector { dst, columns, version: 0 })
    }

    /// A picker of the given items, each a key with the texts of its cells, and
    /// of no others: there is no handle yet to add any through. When the items
    /// are found depends on the matcher's threads.
    pub fn new<F: Fn() + Sync + Send + 'static>(
        columns: Vec<Column>,
        primary_column: usize,
        options: &Vec<(u64, Vec<String>)>,
        notify: F,
    ) -> (picker: Picker)
        requires
            0 < column::filter_names(columns@).len() <= u32::MAX,
            primary_column < columns@.len(),
            options@.len() <= matcher::CAPACITY,
            forall|i: int|
                0 <= i < options@.len() ==> (#[trigger] options@[i]).1@.len() == columns@.len(),
            call_requires(notify, ()),
        ensures
            picker.columns == columns,
            picker.is_fresh(primary_column, 0),
            picker.matches() == Seq::<u64>::empty(),
            !matcher::shared(picker.matcher),
            matcher::contents(picker.matcher) == searchable(columns@, options@),
            forall|i: int|
                0 <= i < options@.len() ==> matcher::offered(
                    matcher::items(picker.matcher),
                    (#[trigger] options@[i]).0,
                    column::filter_cells(columns@, options@[i].1@),
                ),
            picker.wf(),
    {
        let count: usize = column::count_filters(&columns);
        let mut matcher: Nucleo<u64> = matcher::new_matcher(notify, count as u32);
        let mut i: usize = 0;
        while i < options.len()
            invariant
                i <= options@.len() <= matcher::CAPACITY,
                forall|j: int|
                    0 <= j < options@.len() ==> (#[trigger] options@[j]).1@.len() == columns@.len(),
                !matcher::shared(matcher),
                matcher::contents(matcher) == searchable(columns@, options@.take(i as int)),
                matcher::matched(matcher) == Seq::<u64>::empty(),
                matcher::item_total(matcher) == 0,
                matcher::patterns(matcher) == blank_patterns(columns@),
                !matcher::matches_paths(matcher),
                forall|j: int|
                    0 <= j < i ==> matcher::offered(
                        matcher::items(matcher),
                        (#[trigger] options@[j]).0,
                        column::filter_cells(columns@, options@[j].1@),
                    ),
            decreases options@.len() - i,
        {
            let texts: Vec<String> = column::filter_texts(&columns, &options[i].1);
            matcher::add_item(&mut matcher, options[i].0, &texts);
            i += 1;
            assert(searchable(columns@, options@.take(i as int)) =~= searchable(
                columns@,
                options@.take(i - 1),
            ).push(searchable(columns@, options@)[i - 1]));
        }
        assert(options@.take(i as int) =~= options@);
        Self::with(matcher, columns, primary_column, 0)
    }

    /// A picker of the items that come in through an injector. The matcher and
    /// the injector are those of [`Picker::stream`].
    pub fn with_stream(matcher: Nucleo<u64>, primary_column: usize, injector: Injector) -> (picker:
        Picker)
        requires
            primary_column < injector.columns@.len(),
            matcher::patterns(matcher) == blank_patterns(injector.columns@),
            !matcher::matches_paths(matcher),
            matcher::finds_listed(matcher),
            matcher::matched(matcher).len() <= matcher::item_total(matcher),
        ensures
            picker.columns == injector.columns,
            picker.is_fresh(primary_column, injector.version),
            picker.matcher == matcher,
            picker.wf(),
    {
        Self::with(matcher, injector.columns, primary_column, injector.version)
    }

    /// Whether nothing has happened to a picker yet: nothing is typed, nothing
    /// is drawn, and it is in insert mode.
    pub open spec fn is_untouched(&self, primary_column: usize, version: usize) -> bool {
        &&& self.primary_column == primary_column
        &&& self.version == version
        &&& self.completion_height == 0
        &&& self.history_register is None
        &&& self.query.fields@.len() == 0
        &&& self.show_preview
        &&& self.widths@ == initial_widths(self.columns@)
        &&& self.default_action == Action::Replace
        &&& self.mode == PickerMode::Insert
        &&& self.truncate_start
        &&& self.preview_cache.entries@.len() == 0
        &&& !self.dynamic
        &&& self.preview_scroll_offset == 0
        &&& self.preview_height == 0
        &&& self.preview_scroll_cursor == 0
        &&& !self.preview_visible
    }

    /// Whether a picker is as it was made: nothing has happened to it, the
    /// cursor is at the top, and it has no bindings or previews of its own.
    pub open spec fn is_fresh(&self, primary_column: usize, version: usize) -> bool {
        &&& self.is_untouched(primary_column, version)
        &&& self.cursor == 0
        &&& self.key_handlers@.len() == 0
        &&& self.modal_key_handlers@.len() == 0
        &&& !self.has_preview
    }

    fn with(matcher: Nucleo<u64>, columns: Vec<Column>, default_column: usize, version: usize) -> (picker:
        Picker)
        requires
            default_column < columns@.len(),
            matcher::patterns(matcher) == blank_patterns(columns@),
            !matcher::matches_paths(matcher),
            matcher::finds_listed(matcher),
            matcher::matched(matcher).len() <= matcher::item_total(matcher),
        ensures
            picker.columns == columns,
            picker.matcher == matcher,
            picker.is_fresh(default_column, version),
            picker.wf(),
    {
        let mut widths: Vec<u16> = Vec::new();
        let mut i: usize = 0;
        while i < columns.len()
            invariant
                widths@.len() == i <= columns@.len(),
                forall|j: int| 0 <= j < i ==> widths@[j] == initial_widths(columns@)[j],
            decreases columns@.len() - i,
        {
            let len: usize = text::chars_of(columns[i].name.as_str()).len();
            widths.push((len % 65536) as u16);
            i += 1;
        }
        assert(widths@ =~= initial_widths(columns@));
        let query: PickerQuery = PickerQuery::new();
        assert(query_patterns(columns@, query) =~= blank_patterns(columns@));
        Picker {
            columns,
            primary_column: default_column,
            version,
            matcher,
            completion_height: 0,
            cursor: 0,
            history_register: None,
            query,
            show_preview: true,
            widths,
            default_action: Action::Replace,
            key_handlers: Vec::new(),
            modal_key_handlers: Vec::new(),
            mode: PickerMode::Insert,
            truncate_start: true,
            preview_cache: PreviewCache::new(),
            has_preview: false,
            dynamic: false,
            preview_scroll_offset: 0,
            preview_height: 0,
            preview_scroll_cursor: 0,
            preview_visible: false,
        }
    }

    /// A handle through which items are added to the picker, for as long as it
    /// stays at its version. From here on the picker's list of items is shared.
    pub fn injector(&mut self) -> (injector: Injector)
        ensures
            *final(self) == (Picker { matcher: final(self).matcher, ..*old(self) }),
            matcher::items_of(injector.dst) == matcher::items(final(self).matcher),
            matcher::items(final(self).matcher) == matcher::items(old(self).matcher),
            matcher::patterns(final(self).matcher) == matcher::patterns(old(self).matcher),
            final(self).matches() == old(self).matches(),
            matcher::item_total(final(self).matcher) == matcher::item_total(old(self).matcher),
            column::same_columns(injector.columns@, old(self).columns@),
            injector.version == old(self).version,
            old(self).wf() ==> final(self).wf(),
    {
        let dst: ItemSink<u64> = matcher::injector_of(&mut self.matcher);
        Injector { dst, columns: column::copy_columns(&self.columns), version: self.version }
    }

    /// Sets whether cells that are too wide lose their start or their end.
    pub fn truncate_start(self, truncate_start: bool) -> (picker: Picker)
        ensures
            picker == (Picker { truncate_start, ..self }),
    {
        let mut picker: Picker = self;
        picker.truncate_start = truncate_start;
        picker
    }

    /// Says that items have a file to preview. What has a preview is taken to
    /// be a path, so paths are matched from here on.
    pub fn with_preview(self) -> (picker: Picker)
        requires
            self.wf(),
        ensures
            picker == (Picker { has_preview: true, matcher: picker.matcher, ..self }),
            matcher::same_list(picker.matcher, self.matcher),
            picker.matches() == self.matches(),
            matcher::item_total(picker.matcher) == matcher::item_total(self.matcher),
            picker.wf(),
    {
        let mut picker: Picker = self;
        picker.has_preview = true;
        matcher::match_paths(&mut picker.matcher);
        picker
    }

    /// Sets the register that queries are remembered in.
    pub fn with_history_register(self, history_register: Option<char>) -> (picker: Picker)
        ensures
            picker == (Picker { history_register, ..self }),
    {
        let mut picker: Picker = self;
        picker.history_register = history_register;
        picker
    }

    /// Puts the cursor on a match to start with.
    pub fn with_initial_cursor(self, cursor: u32) -> (picker: Picker)
        ensures
            picker == (Picker { cursor, ..self }),
    {
        let mut picker: Picker = self;
        picker.cursor = cursor;
        picker
    }

    /// Adds extra keys to the picker.
    ///
    /// They are looked at before the picker's own key handling and before the
    /// prompt sees the key, so one may shadow a built-in binding. An extra key
    /// only counts when the picker has a selection; otherwise it falls through
    /// to the normal handling.
    ///
    /// Prefer keys that the picker and its prompt do not already use. Notably
    /// taken are `Alt-Enter`, `Alt-b`, `Alt-d`, `Alt-f`, `Alt-Backspace`,
    /// `Alt-Delete`, `Ctrl-u`, `Ctrl-d`, `PageUp` and `PageDown`.
    pub fn with_key_handlers(self, handlers: Vec<KeyEvent>) -> (picker: Picker)
        ensures
            picker == (Picker { key_handlers: handlers, ..self }),
    {
        let mut picker: Picker = self;
        picker.key_handlers = handlers;
        picker
    }

    /// Adds keys which are only live in [`PickerMode::Normal`], that is only
    /// when pickers are modal and the user has left the query with `Esc`.
    ///
    /// Because these keys never reach the query, they can be unmodified letters
    /// which would otherwise be typed into it.
    pub fn with_modal_key_handlers(self, handlers: Vec<KeyEvent>) -> (picker: Picker)
        ensures
            picker == (Picker { modal_key_handlers: handlers, ..self }),
    {
        let mut picker: Picker = self;
        picker.modal_key_handlers = handlers;
        picker
    }

    /// Makes the items depend on the primary query. The query at hand is to be
    /// searched for at once: it counts as pasted.
    pub fn with_dynamic_query(self) -> (made: (Picker, DynamicQueryChange))
        requires
            self.wf(),
        ensures
            made.0 == (Picker { dynamic: true, ..self }),
            made.1.query@ == self.primary_text(),
            made.1.is_paste,
            made.0.wf(),
    {
        let query: String = self.primary_query();
        let mut picker: Picker = self;
        picker.dynamic = true;
        (picker, DynamicQueryChange { query, is_paste: true })
    }

    /// Sets how an accepted item is opened.
    pub fn with_default_action(self, action: Action) -> (picker: Picker)
        ensures
            picker == (Picker { default_action: action, ..self }),
    {
        let mut picker: Picker = self;
        picker.default_action = action;
        picker
    }

    /// Whether a scrollable preview is currently shown.
    pub open spec fn previews(&self) -> bool {
        self.show_preview && self.has_preview && self.preview_visible
    }

    /// Whether a scrollable preview is currently shown. Pickers without
    /// previews, with the preview toggled off, or too narrow to fit one route
    /// preview-scroll keys back to result-list navigation.
    pub fn preview_shown(&self) -> (shown: bool)
        ensures
            shown == self.previews(),
    {
        self.show_preview && self.has_preview && self.preview_visible
    }

    /// Moves the cursor by a number of lines, either down (`Forward`) or up
    /// (`Backward`).
    pub fn move_by(&mut self, amount: u32, direction: Direction)
        ensures
            *final(self) == (Picker { cursor: final(self).cursor, ..*old(self) }),
            final(self).cursor == moved(
                old(self).matches().len() as int,
                old(self).cursor,
                amount,
                direction,
            ),
    {
        let len: u32 = matcher::matched_item_count(&self.matcher);
        if len == 0 {
            // No results, can't move.
            return ;
        }
        match direction {
            Direction::Forward => {
                self.cursor = self.cursor.saturating_add(amount) % len;
            },
            Direction::Backward => {
                self.cursor = self.cursor.saturating_add(len).saturating_sub(amount) % len;
            },
        }
    }

    /// Moves the cursor up by exactly one page. Before the first page comes the
    /// last page.
    pub fn page_up(&mut self)
        ensures
            *final(self) == (Picker { cursor: final(self).cursor, ..*old(self) }),
            final(self).cursor == moved(
                old(self).matches().len() as int,
                old(self).cursor,
                old(self).completion_height as u32,
                Direction::Backward,
            ),
    {
        self.move_by(self.completion_height as u32, Direction::Backward);
    }

    /// Moves the cursor down by exactly one page. After the last page comes the
    /// first page.
    pub fn page_down(&mut self)
        ensures
            *final(self) == (Picker { cursor: final(self).cursor, ..*old(self) }),
            final(self).cursor == moved(
                old(self).matches().len() as int,
                old(self).cursor,
                old(self).completion_height as u32,
                Direction::Forward,
            ),
    {
        self.move_by(self.completion_height as u32, Direction::Forward);
    }

    /// Moves the cursor to the first entry.
    pub fn to_start(&mut self)
        ensures
            *final(self) == (Picker { cursor: 0, ..*old(self) }),
    {
        self.cursor = 0;
    }

    /// Moves the cursor to the last entry.
    pub fn to_end(&mut self)
        ensures
            *final(self) == (Picker { cursor: final(self).cursor, ..*old(self) }),
            final(self).cursor == geometry::monus(old(self).matches().len() as int, 1),
    {
        self.cursor = matcher::matched_item_count(&self.matcher).saturating_sub(1);
    }

    /// The item under the cursor.
    pub fn selection(&self) -> (selection: Option<u64>)
        ensures
            selection == self.selected(),
    {
        matcher::get_matched_item(&self.matcher, self.cursor)
    }

    /// What the query asks of the primary column.
    pub fn primary_query(&self) -> (text: String)
        requires
            self.primary_column < self.columns@.len(),
        ensures
            text@ == self.primary_text(),
    {
        self.query.text_for(self.columns[self.primary_column].name.as_str()).to_string()
    }

    /// How many rows the header takes: a single column has none.
    pub open spec fn header_rows(&self) -> u16 {
        if self.columns@.len() > 1 {
            1
        } else {
            0
        }
    }

    /// How many rows the header takes.
    pub fn header_height(&self) -> (height: u16)
        ensures
            height == self.header_rows(),
    {
        if self.columns.len() > 1 {
            1
        } else {
            0
        }
    }

    /// Shows the preview, or stops showing it.
    pub fn toggle_preview(&mut self)
        ensures
            *final(self) == (Picker { show_preview: !old(self).show_preview, ..*old(self) }),
    {
        self.show_preview = !self.show_preview;
    }

    /// Takes over what the prompt asks for after it was edited. A query that
    /// has meaningfully changed puts the cursor back to the top of the results,
    /// and is news for a dynamic picker.
    pub fn handle_prompt_change(&mut self, query: PickerQuery, is_paste: bool) -> (news: Option<
        DynamicQueryChange,
    >)
        requires
            old(self).wf(),
        ensures
            final(self).wf(),
            *final(self) == (Picker {
                query,
                cursor: if old(self).query.asks_the_same(&query) {
                    old(self).cursor
                } else {
                    0
                },
                matcher: final(self).matcher,
                ..*old(self)
            }),
            query_patterns(old(self).columns@, query) == query_patterns(
                old(self).columns@,
                old(self).query,
            ) ==> final(self).matcher == old(self).matcher,
            old(self).query.asks_the_same(&query) ==> final(self).matcher == old(self).matcher,
            forall|i: int|
                0 <= i < old(self).columns@.len() && (#[trigger] old(self).columns@[i]).filter ==> {
                    let k = column::filters_before(old(self).columns@, i);
                    let name = old(self).columns@[i].name@;
                    &&& 0 <= k < matcher::patterns(final(self).matcher).len()
                    &&& matcher::patterns(final(self).matcher)[k] == (match query.lookup(name) {
                        Some(text) => text,
                        None => Seq::<char>::empty(),
                    })
                },
            matcher::patterns(final(self).matcher).len() == column::filters_before(
                old(self).columns@,
                old(self).columns@.len() as int,
            ),
            matcher::same_list(final(self).matcher, old(self).matcher),
            final(self).matches() == old(self).matches(),
            matcher::item_total(final(self).matcher) == matcher::item_total(old(self).matcher),
            news is Some <==> old(self).dynamic && !old(self).query.asks_the_same(&query),
            news matches Some(change) ==> change.query@ == final(self).primary_text()
                && change.is_paste == is_paste,
    {
        let mut old_query: PickerQuery = query;
        std::mem::swap(&mut self.query, &mut old_query);
        proof {
            lemma_patterns_line_up(self.columns@, self.query);
            lemma_patterns_line_up(self.columns@, old_query);
        }
        if old_query.same(&self.query) {
            proof {
                assert(query_patterns(self.columns@, self.query) =~= query_patterns(
                    self.columns@,
                    old_query,
                ));
            }
            return None;
        }
        // If the query has meaningfully changed, reset the cursor to the top of the results.
        self.cursor = 0;
        // Have the matcher reparse each changed column.
        let ghost names = column::filter_names(self.columns@);
        let mut k: usize = 0;
        let mut i: usize = 0;
        assert(self.columns@.take(0) =~= Seq::<Column>::empty());
        assert(between(names, self.query, old_query, 0) =~= query_patterns(self.columns@, old_query));
        while i < self.columns.len()
            invariant
                *self == (Picker {
                    query: self.query,
                    cursor: 0,
                    matcher: self.matcher,
                    ..*old(self)
                }),
                self.query == query,
                old_query == old(self).query,
                matcher::same_list(self.matcher, old(self).matcher),
                self.matches() == old(self).matches(),
                matcher::item_total(self.matcher) == matcher::item_total(old(self).matcher),
                matcher::matches_paths(self.matcher) == matcher::matches_paths(old(self).matcher),
                i <= self.columns@.len(),
                names == column::filter_names(self.columns@),
                k == column::filter_names(self.columns@.take(i as int)).len(),
                k <= i,
                matcher::patterns(self.matcher) == between(names, self.query, old_query, k as int),
                query_patterns(self.columns@, self.query) == query_patterns(self.columns@, old_query)
                    ==> self.matcher == old(self).matcher,
            decreases self.columns@.len() - i,
        {
            proof {
                column::lemma_filter_prefix(self.columns@, i as int);
                assert(self.columns@.take(i + 1).drop_last() =~= self.columns@.take(i as int));
            }
            if self.columns[i].filter {
                let name: &str = self.columns[i].name.as_str();
                let pattern: &str = self.query.text_for(name);
                let old_pattern: &str = old_query.text_for(name);
                proof {
                    assert(query_patterns(self.columns@, self.query)[k as int] == pattern@);
                    assert(query_patterns(self.columns@, old_query)[k as int] == old_pattern@);
                }
                // Fastlane: most columns will remain unchanged after each edit.
                if !text::same_text(pattern, old_pattern) {
                    let new_chars: Vec<char> = text::chars_of(pattern);
                    let old_chars: Vec<char> = text::chars_of(old_pattern);
                    let is_append: bool = text::begins_with(
                        new_chars.as_slice(),
                        old_chars.as_slice(),
                        0,
                    );
                    matcher::reparse(&mut self.matcher, k, pattern, is_append);
                }
                assert(matcher::patterns(self.matcher) =~= between(
                    names,
                    self.query,
                    old_query,
                    k + 1,
                ));
                k += 1;
            }
            i += 1;
        }
        proof {
            assert(self.columns@.take(self.columns@.len() as int) =~= self.columns@);
            assert(between(names, self.query, old_query, k as int) =~= query_patterns(
                self.columns@,
                self.query,
            ));
        }
        // If this is a dynamic picker, say that the primary query might have
        // been updated.
        if self.dynamic {
            Some(DynamicQueryChange { query: self.primary_query(), is_paste })
        } else {
            None
        }
    }
}

/// The patterns of matcher columns that look for nothing.
pub open spec fn blank_patterns(columns: Seq<Column>) -> Seq<Seq<char>> {
    Seq::new(column::filter_names(columns).len(), |i: int| Seq::<char>::empty())
}

/// The patterns while the first `k` columns have been handed a new query.
spec fn between(names: Seq<Seq<char>>, new: PickerQuery, old_query: PickerQuery, k: int) -> Seq<
    Seq<char>,
> {
    Seq::new(
        names.len(),
        |j: int|
            if j < k {
                new.text_of(names[j])
            } else {
                old_query.text_of(names[j])
            },
    )
}

/// What is selected in a picker is one of the items that were added to it: one
/// of those that it was made with, as long as no handle to it was handed out.
pub proof fn law_selections_were_added(picker: Picker)
    requires
        picker.wf(),
    ensures
        picker.selected() matches Some(key) ==> {
            &&& matcher::listed(matcher::items(picker.matcher), key)
            &&& !matcher::shared(picker.matcher) ==> matcher::among(
                matcher::contents(picker.matcher),
                key,
            )
        },
{
}

/// Moving the cursor keeps it on the list, as long as there is one.
pub proof fn law_moving_stays_on_the_list(len: int, cursor: u32, amount: u32, direction: Direction)
    requires
        0 < len <= u32::MAX,
    ensures
        0 <= moved(len, cursor, amount, direction) < len,
{
    let forward = geometry::least(cursor + amount, u32::MAX as int);
    let backward = geometry::monus(geometry::least(cursor + len, u32::MAX as int), amount as int);
    assert(0 <= forward % len < len && 0 <= backward % len < len) by (nonlinear_arith)
        requires
            0 < len,
            0 <= forward,
            0 <= backward,
    ;
}

/// After the last match comes the first, and before the first the last.
pub proof fn law_the_list_wraps_around(len: int)
    requires
        0 < len <= u32::MAX,
    ensures
        moved(len, (len - 1) as u32, 1, Direction::Forward) == 0,
        moved(len, 0, 1, Direction::Backward) == len - 1,
{
    assert(len % len == 0 && (len - 1) % len == len - 1) by (nonlinear_arith)
        requires
            0 < len,
    ;
}

/// Moving back undoes moving forward, unless the numbers run out on the way.
pub proof fn law_moving_back_undoes_moving_forward(len: int, cursor: u32, amount: u32)
    requires
        0 < len,
        cursor < len,
        cursor + amount <= u32::MAX,
        (cursor + amount) % len + len <= u32::MAX,
        amount <= (cursor + amount) % len + len,
    ensures
        moved(
            len,
            moved(len, cursor, amount, Direction::Forward) as u32,
            amount,
            Direction::Backward,
        ) == cursor,
{
    let there = cursor + amount;
    vstd::arithmetic::div_mod::lemma_fundamental_div_mod(there, len);
    vstd::arithmetic::div_mod::lemma_mod_bound(there, len);
    lemma_whole_rounds(len, cursor as int, 1 - there / len);
    let rounds = 1 - there / len;
    assert(there % len + len - amount == len * rounds + cursor) by (nonlinear_arith)
        requires
            there == len * (there / len) + there % len,
            there == cursor + amount,
            rounds == 1 - there / len,
    ;
}

/// Moving forward undoes moving back, unless the numbers run out on the way.
pub proof fn law_moving_forward_undoes_moving_back(len: int, cursor: u32, amount: u32)
    requires
        0 < len,
        cursor < len,
        cursor + len <= u32::MAX,
        amount <= cursor + len,
        (cursor + len - amount) % len + amount <= u32::MAX,
    ensures
        moved(
            len,
            moved(len, cursor, amount, Direction::Backward) as u32,
            amount,
            Direction::Forward,
        ) == cursor,
{
    let there = cursor + len - amount;
    vstd::arithmetic::div_mod::lemma_fundamental_div_mod(there, len);
    vstd::arithmetic::div_mod::lemma_mod_bound(there, len);
    lemma_whole_rounds(len, cursor as int, 1 - there / len);
    let rounds = 1 - there / len;
    assert(there % len + amount == len * rounds + cursor) by (nonlinear_arith)
        requires
            there == len * (there / len) + there % len,
            there == cursor + len - amount,
            rounds == 1 - there / len,
    ;
}

/// Going all the way round leads back to the start.
proof fn lemma_whole_rounds(len: int, cursor: int, rounds: int)
    requires
        0 <= cursor < len,
    ensures
        (len * rounds + cursor) % len == cursor,
{
    vstd::arithmetic::div_mod::lemma_mod_multiples_vanish(rounds, cursor, len);
    vstd::arithmetic::div_mod::lemma_small_mod(cursor as nat, len as nat);
}

/// The matcher looks, column by column, for just what the query holds: for each
/// column that is filtered by, the text of the first field of that name,
/// character by character, and for nothing where there is no such field.
pub proof fn law_the_matcher_is_given_the_query(picker: Picker)
    requires
        picker.wf(),
    ensures
        matcher::patterns(picker.matcher).len() == column::filters_before(
            picker.columns@,
            picker.columns@.len() as int,
        ),
        forall|i: int, f: int|
            0 <= i < picker.columns@.len() && (#[trigger] picker.columns@[i]).filter && 0 <= f
                < picker.query.fields@.len() && (#[trigger] picker.query.fields@[f]).0@
                == picker.columns@[i].name@ && (forall|g: int|
                0 <= g < f ==> (#[trigger] picker.query.fields@[g]).0@ != picker.columns@[i].name@)
                ==> matcher::patterns(picker.matcher)[column::filters_before(picker.columns@, i)]
                == picker.query.fields@[f].1@,
        forall|i: int|
            0 <= i < picker.columns@.len() && (#[trigger] picker.columns@[i]).filter && (forall|
                f: int,
            |
                0 <= f < picker.query.fields@.len() ==> (#[trigger] picker.query.fields@[f]).0@
                    != picker.columns@[i].name@) ==> matcher::patterns(
                picker.matcher,
            )[column::filters_before(picker.columns@, i)] == Seq::<char>::empty(),
{
    lemma_patterns_line_up(picker.columns@, picker.query);
    assert forall|i: int, f: int|
        0 <= i < picker.columns@.len() && (#[trigger] picker.columns@[i]).filter && 0 <= f
            < picker.query.fields@.len() && (#[trigger] picker.query.fields@[f]).0@
            == picker.columns@[i].name@ && (forall|g: int|
            0 <= g < f ==> (#[trigger] picker.query.fields@[g]).0@ != picker.columns@[i].name@)
        implies matcher::patterns(picker.matcher)[column::filters_before(picker.columns@, i)]
        == picker.query.fields@[f].1@ by {
        query::law_the_first_field_counts(picker.query, picker.columns@[i].name@);
    }
    assert forall|i: int|
        0 <= i < picker.columns@.len() && (#[trigger] picker.columns@[i]).filter && (forall|f: int|
            0 <= f < picker.query.fields@.len() ==> (#[trigger] picker.query.fields@[f]).0@
                != picker.columns@[i].name@) implies matcher::patterns(
        picker.matcher,
    )[column::filters_before(picker.columns@, i)] == Seq::<char>::empty() by {
        query::law_the_first_field_counts(picker.query, picker.columns@[i].name@);
        assert(picker.query.text_of(picker.columns@[i].name@) =~= Seq::<char>::empty());
    }
}

/// The pattern for a column stands where the matcher has that column.
proof fn lemma_patterns_line_up(columns: Seq<Column>, query: PickerQuery)
    ensures
        query_patterns(columns, query).len() == column::filters_before(
            columns,
            columns.len() as int,
        ),
        forall|i: int|
            0 <= i < columns.len() && (#[trigger] columns[i]).filter ==> 0
                <= column::filters_before(columns, i) < query_patterns(columns, query).len()
                && query_patterns(columns, query)[column::filters_before(columns, i)]
                == query.text_of(columns[i].name@),
{
    let cells = Seq::<String>::empty();
    column::lemma_filters_counted(columns, cells);
    assert forall|i: int| 0 <= i < columns.len() && (#[trigger] columns[i]).filter implies 0
        <= column::filters_before(columns, i) < query_patterns(columns, query).len()
        && query_patterns(columns, query)[column::filters_before(columns, i)] == query.text_of(
        columns[i].name@,
    ) by {
        column::law_filter_columns_line_up(columns, cells, i);
    }
}

/// A picker is given its items as they are: each under its key, and for each
/// column that is filtered by the text of its cell.
pub proof fn law_items_are_searched_by_their_cells(
    columns: Seq<Column>,
    options: Seq<(u64, Vec<String>)>,
    n: int,
    i: int,
)
    requires
        0 <= n < options.len(),
        0 <= i < columns.len(),
        columns[i].filter,
    ensures
        searchable(columns, options).len() == options.len(),
        searchable(columns, options)[n].0 == options[n].0,
        searchable(columns, options)[n].1.len() == column::filters_before(
            columns,
            columns.len() as int,
        ),
        searchable(columns, options)[n].1[column::filters_before(columns, i)] == options[n].1@[i]@,
{
    column::law_filter_columns_line_up(columns, options[n].1@, i);
}

/// Columns start out as wide as their names, and there is a width for each.
pub proof fn law_columns_start_as_wide_as_their_names(columns: Seq<Column>, i: int)
    requires
        0 <= i < columns.len(),
        columns[i].name@.len() <= u16::MAX,
    ensures
        initial_widths(columns).len() == columns.len(),
        initial_widths(columns)[i] == columns[i].name@.len(),
{
}

/// Moving by an amount leads as many matches on or back as it says: down it
/// adds to the cursor, up it takes away, and whole rounds of the list make no
/// difference.
pub proof fn law_moving_counts_matches(len: int, cursor: u32, amount: u32)
    requires
        0 < len,
        cursor < len,
        cursor + amount <= u32::MAX,
        cursor + len <= u32::MAX,
    ensures
        cursor + amount < len ==> moved(len, cursor, amount, Direction::Forward) == cursor + amount,
        amount <= cursor ==> moved(len, cursor, amount, Direction::Backward) == cursor - amount,
        len <= cursor + amount < 2 * len ==> moved(len, cursor, amount, Direction::Forward) == cursor
            + amount - len,
        cursor < amount <= cursor + len ==> moved(len, cursor, amount, Direction::Backward) == cursor
            + len - amount,
        exists|rounds: int|
            moved(len, cursor, amount, Direction::Forward) == cursor + amount - #[trigger] (len
                * rounds),
{
    let there = cursor + amount;
    vstd::arithmetic::div_mod::lemma_fundamental_div_mod(there, len);
    assert(moved(len, cursor, amount, Direction::Forward) == there - len * (there / len));
    if there < len {
        vstd::arithmetic::div_mod::lemma_small_mod(there as nat, len as nat);
    } else if there < 2 * len {
        lemma_whole_rounds(len, there - len, 1);
    }
    if amount <= cursor {
        lemma_whole_rounds(len, cursor - amount, 1);
    } else if amount <= cursor + len {
        vstd::arithmetic::div_mod::lemma_small_mod((cursor + len - amount) as nat, len as nat);
    }
}

/// With no matches the cursor stays where it is.
pub proof fn law_nothing_to_move_through(cursor: u32, amount: u32, direction: Direction)
    ensures
        moved(0, cursor, amount, direction) == cursor,
{
}

/// What is selected is the match that the cursor is on, and nothing past the
/// last one.
pub proof fn law_the_cursor_selects(picker: Picker)
    ensures
        picker.matches() == matcher::matched(picker.matcher),
        picker.cursor < matcher::matched(picker.matcher).len() ==> picker.selected() == Some(
            matcher::matched(picker.matcher)[picker.cursor as int],
        ),
        picker.cursor >= matcher::matched(picker.matcher).len() ==> picker.selected() is None,
{
}

/// A header takes a row as soon as there is more than one column to name.
pub proof fn law_single_columns_need_no_header(picker: Picker)
    ensures
        picker.columns@.len() <= 1 ==> picker.header_rows() == 0,
        picker.columns@.len() >= 2 ==> picker.header_rows() == 1,
{
}

/// A preview is scrolled only while one is on screen: the items have one, it is
/// not toggled off, and the last frame had room for it.
pub proof fn law_previews_are_on_screen(picker: Picker)
    ensures
        picker.previews() ==> picker.show_preview,
        picker.previews() ==> picker.has_preview,
        picker.previews() ==> picker.preview_visible,
        picker.show_preview && picker.has_preview && picker.preview_visible ==> picker.previews(),
{
}

/// The primary query is what the query holds for the primary column.
pub proof fn law_the_primary_query_is_the_primary_columns(picker: Picker, f: int)
    requires
        picker.primary_column < picker.columns@.len(),
        0 <= f < picker.query.fields@.len(),
        picker.query.fields@[f].0@ == picker.columns@[picker.primary_column as int].name@,
        forall|g: int|
            0 <= g < f ==> (#[trigger] picker.query.fields@[g]).0@
                != picker.columns@[picker.primary_column as int].name@,
    ensures
        picker.primary_text() == picker.query.fields@[f].1@,
{
    query::law_the_first_field_counts(
        picker.query,
        picker.columns@[picker.primary_column as int].name@,
    );
}

/// A picker as it was made is in insert mode with the cursor on the first match,
/// an empty query, no extra keys and no previews; what it opens replaces what is
/// shown.
pub proof fn law_new_pickers_are_ready_to_type(picker: Picker, primary_column: usize, version: usize)
    requires
        picker.is_fresh(primary_column, version),
    ensures
        picker.primary_column == primary_column && picker.version == version,
        picker.cursor == 0,
        picker.mode == PickerMode::Insert,
        picker.query.fields@.len() == 0,
        picker.default_action == Action::Replace,
        picker.show_preview && !picker.has_preview && !picker.preview_visible,
        picker.key_handlers@.len() == 0 && picker.modal_key_handlers@.len() == 0,
        picker.history_register is None,
        picker.truncate_start,
        !picker.dynamic,
        picker.preview_scroll_offset == 0 && picker.preview_scroll_cursor == 0,
        picker.completion_height == 0 && picker.preview_height == 0,
        picker.preview_cache.entries@.len() == 0,
        picker.widths@.len() == picker.columns@.len(),
{
}

/// A picker that has just been made looks for nothing: there is an empty
/// pattern for each column that is filtered by.
pub proof fn law_new_pickers_look_for_nothing(columns: Seq<Column>, k: int)
    requires
        0 <= k < blank_patterns(columns).len(),
    ensures
        blank_patterns(columns).len() == column::filters_before(columns, columns.len() as int),
        blank_patterns(columns)[k].len() == 0,
{
    column::lemma_filters_counted(columns, Seq::<String>::empty());
}

/// Pickers with previews match paths, and others do not; every match is an item
/// of the list, and every column has a width.
pub proof fn law_pickers_with_previews_match_paths(picker: Picker, i: int)
    requires
        picker.wf(),
        0 <= i < picker.matches().len(),
    ensures
        matcher::matches_paths(picker.matcher) <==> picker.has_preview,
        picker.widths@.len() == picker.columns@.len(),
        picker.primary_column < picker.columns@.len(),
        matcher::listed(matcher::items(picker.matcher), picker.matches()[i]),
        picker.matches().len() <= matcher::item_total(picker.matcher),
{
}

/// Wherever the cursor is, moving leads to the match that is as far on or back
/// in the list, gone round as often as it takes. Going back further than the
/// list allows for once leads to the first match, and what cannot be counted is
/// not counted.
pub proof fn law_moving_goes_round_the_list(len: int, cursor: u32, amount: u32)
    requires
        0 < len <= u32::MAX,
    ensures
        cursor + amount <= u32::MAX ==> exists|rounds: int|
            moved(len, cursor, amount, Direction::Forward) == cursor + amount - #[trigger] (len
                * rounds),
        cursor + amount > u32::MAX ==> exists|rounds: int|
            moved(len, cursor, amount, Direction::Forward) == u32::MAX - #[trigger] (len * rounds),
        amount <= cursor + len <= u32::MAX ==> exists|rounds: int|
            moved(len, cursor, amount, Direction::Backward) == cursor + len - amount
                - #[trigger] (len * rounds),
        cursor + len <= amount ==> moved(len, cursor, amount, Direction::Backward) == 0,
        0 <= moved(len, cursor, amount, Direction::Forward) < len,
        0 <= moved(len, cursor, amount, Direction::Backward) < len,
{
    law_moving_stays_on_the_list(len, cursor, amount, Direction::Forward);
    law_moving_stays_on_the_list(len, cursor, amount, Direction::Backward);
    let down = geometry::least(cursor + amount, u32::MAX as int);
    let up = geometry::monus(geometry::least(cursor + len, u32::MAX as int), amount as int);
    vstd::arithmetic::div_mod::lemma_fundamental_div_mod(down, len);
    vstd::arithmetic::div_mod::lemma_fundamental_div_mod(up, len);
    assert(moved(len, cursor, amount, Direction::Forward) == down - len * (down / len));
    assert(moved(len, cursor, amount, Direction::Backward) == up - len * (up / len));
    if cursor + len <= amount {
        assert(up == 0);
        vstd::arithmetic::div_mod::lemma_small_mod(0, len as nat);
    }
}

} // verus!
