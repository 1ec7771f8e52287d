//! Where the parts of a picker's own pane go: the prompt line, the counter and
//! the window on the list of matches.
use vstd::prelude::*;
use vstd::string::*;
use crate::geometry;
use crate::geometry::Rect;
use crate::key::PickerMode;
use crate::pane::{Label, LabelView, TextRole};
use crate::text;

verus! {

/// The counter: how many items match, of how many, and whether there may be
/// more to come.
pub open spec fn count_text(running: bool, matched: u32, total: u32) -> Seq<char> {
    (if running {
        "(running) "@
    } else {
        Seq::<char>::empty()
    }) + text::decimal(matched as nat) + "/"@ + text::decimal(total as nat)
}

/// The label that a modal picker puts at the head of its prompt line.
pub open spec fn mode_text(mode: PickerMode) -> Seq<char> {
    match mode {
        PickerMode::Insert => "INS "@,
        PickerMode::Normal => "NOR "@,
    }
}

/// How much room the mode takes up on the prompt line.
pub open spec fn mode_width(modal: bool) -> int {
    if modal {
        4
    } else {
        0
    }
}

/// A rectangle with columns cut off its left edge.
pub open spec fn left_clipped(area: Rect, columns: int) -> Rect {
    let cut = geometry::least(columns, area.width as int);
    Rect {
        x: geometry::least(area.x + cut, u16::MAX as int) as u16,
        width: (area.width - cut) as u16,
        ..area
    }
}

/// The line with the mode, the prompt and the counter.
pub open spec fn top_line(area: Rect) -> Rect {
    Rect { height: 1, ..left_clipped(area.framed(), 1) }
}

/// The first match on the page that the cursor is on.
pub open spec fn page_start(cursor: u32, rows: int) -> int {
    cursor - cursor as int % (if rows > 1 {
        rows
    } else {
        1
    })
}

/// How many rows of matches there is room for.
pub open spec fn list_rows(area: Rect, header: u16) -> int {
    geometry::monus(geometry::monus(area.framed().height as int, 2), header as int)
}

/// The parts of a picker's own pane.
pub struct PickerLayout {
    /// The mode, in a modal picker.
    pub mode: Option<Label>,
    /// Where the prompt goes.
    pub line: Rect,
    pub count: Label,
    /// The line between the prompt and the list.
    pub separator: Rect,
    /// Where the list goes, header included.
    pub list: Rect,
    /// The matches shown: from this one on,
    pub first: u32,
    /// up to this one.
    pub end: u32,
    /// The row of the selected match.
    pub selected: u32,
}

impl PickerLayout {
    /// Whether the parts are where they belong.
    pub open spec fn fits(
        &self,
        area: Rect,
        modal: bool,
        mode: PickerMode,
        running: bool,
        matched: u32,
        total: u32,
        cursor: u32,
        header: u16,
    ) -> bool {
        let inner = area.framed();
        let top = top_line(area);
        let count = count_text(running, matched, total);
        let rows = list_rows(area, header);
        let clipped = left_clipped(top, mode_width(modal));
        &&& match self.mode {
            Some(label) => modal && label@ == (LabelView {
                x: top.x as int,
                y: top.y as int,
                content: mode_text(mode),
                max_width: geometry::least(4, top.width as int),
                role: match mode {
                    PickerMode::Insert => TextRole::InsertMode,
                    PickerMode::Normal => TextRole::NormalMode,
                },
            }),
            None => !modal,
        }
        &&& self.line == (Rect {
            width: geometry::monus(clipped.width as int, count.len() as int + 1) as u16,
            ..clipped
        })
        &&& self.count@ == (LabelView {
            x: geometry::monus(top.x + top.width, count.len() as int + 1),
            y: top.y as int,
            content: count,
            max_width: geometry::least(count.len() as int, top.width as int),
            role: TextRole::Plain,
        })
        &&& self.separator == (Rect { y: (inner.y + 1) as u16, height: 1, ..inner })
        &&& self.list.x == inner.x
        &&& self.list.width == inner.width
        &&& self.list.y == geometry::least(
            inner.y + geometry::least(2, inner.height as int),
            u16::MAX as int,
        )
        &&& self.list.height == geometry::monus(inner.height as int, 2)
        &&& self.first == page_start(cursor, rows)
        &&& self.end == geometry::least(
            geometry::least(self.first + rows, u32::MAX as int),
            matched as int,
        )
        &&& self.selected == cursor - self.first
    }
}

/// A number below 2^32 has at most ten digits.
proof fn lemma_ten_digits(n: u32)
    ensures
        text::decimal(n as nat).len() <= 10,
{
    reveal_with_fuel(text::decimal, 11);
}

/// Lays out a picker's own pane. `running` says whether there may be more
/// matches to come, and `header` how many rows the header takes.
///
/// The counter is ASCII, so its characters are as many as its columns.
pub fn lay_out(
    area: Rect,
    modal: bool,
    mode: PickerMode,
    running: bool,
    matched: u32,
    total: u32,
    cursor: u32,
    header: u16,
) -> (layout: PickerLayout)
    requires
        area.addressable(),
        area.framed().y < u16::MAX,
    ensures
        layout.fits(area, modal, mode, running, matched, total, cursor, header),
        layout.first <= cursor,
{
    let inner: Rect = area.inside_border();
    let mut count: String = String::new();
    if running {
        count.append("(running) ");
    }
    text::push_decimal(&mut count, matched as u64);
    count.append("/");
    text::push_decimal(&mut count, total as u64);
    assert(count@ =~= count_text(running, matched, total));
    proof {
        lemma_ten_digits(matched);
        lemma_ten_digits(total);
        reveal_strlit("(running) ");
        reveal_strlit("/");
    }
    let len: u16 = text::chars_of(count.as_str()).len() as u16;
    let top: Rect = inner.clip_left(1).with_height(1);
    assert(top == top_line(area));
    let width: u16 = if modal { 4 } else { 0 };
    let line: Rect = top.clip_left(width).clip_right(len + 1);
    let label: Option<Label> = if modal {
        let shown: &str = match mode {
            PickerMode::Insert => "INS ",
            PickerMode::Normal => "NOR ",
        };
        Some(
            Label {
                x: top.x,
                y: top.y,
                content: shown.to_string(),
                max_width: if width <= top.width { width } else { top.width },
                role: match mode {
                    PickerMode::Insert => TextRole::InsertMode,
                    PickerMode::Normal => TextRole::NormalMode,
                },
            },
        )
    } else {
        None
    };
    let counter: Label = Label {
        x: (top.x + top.width).saturating_sub(len + 1),
        y: top.y,
        content: count,
        max_width: if len <= top.width { len } else { top.width },
        role: TextRole::Plain,
    };
    let separator: Rect = Rect { x: inner.x, y: inner.y + 1, width: inner.width, height: 1 };
    let list: Rect = inner.clip_top(2);
    let rows: u32 = list.height.saturating_sub(header) as u32;
    let page: u32 = if rows > 1 { rows } else { 1 };
    assert(cursor % page <= cursor) by (nonlinear_arith)
        requires
            page > 0,
    ;
    let first: u32 = cursor - cursor % page;
    let bottom: u32 = first.saturating_add(rows);
    let end: u32 = if bottom <= matched { bottom } else { matched };
    PickerLayout {
        mode: label,
        line,
        count: counter,
        separator,
        list,
        first,
        end,
        selected: cursor - first,
    }
}

/// The selected match is on the page that is shown, whenever there is room
/// for any and the cursor is on a match.
pub proof fn law_selection_is_on_the_page(cursor: u32, rows: int, matched: u32)
    requires
        0 < rows <= u16::MAX,
        cursor < matched,
    ensures
        page_start(cursor, rows) <= cursor < page_start(cursor, rows) + rows,
        page_start(cursor, rows) <= cursor < geometry::least(
            geometry::least(page_start(cursor, rows) + rows, u32::MAX as int),
            matched as int,
        ),
{
    let c = cursor as int;
    assert(0 <= c % rows < rows && c % rows <= c) by (nonlinear_arith)
        requires
            0 < rows,
            0 <= c,
    ;
}

/// The page fits below the header: the rows of the header and of the matches
/// shown are no more than the list has. The page is filled unless the matches
/// end, and where the header leaves no room nothing is shown.
pub proof fn law_pages_fit_below_the_header(
    layout: PickerLayout,
    area: Rect,
    modal: bool,
    mode: PickerMode,
    running: bool,
    matched: u32,
    total: u32,
    cursor: u32,
    header: u16,
)
    requires
        layout.fits(area, modal, mode, running, matched, total, cursor, header),
    ensures
        layout.first + layout.selected == cursor,
        layout.first <= cursor,
        layout.end <= matched,
        layout.list.height > header ==> header + (layout.end - layout.first) <= layout.list.height,
        layout.list.height > header ==> layout.end == matched || header + (layout.end
            - layout.first) == layout.list.height || layout.end == u32::MAX,
        layout.list.height > header ==> header + layout.selected < layout.list.height,
        layout.list.height > header && cursor < matched ==> cursor < layout.end,
        layout.list.height <= header ==> layout.end <= layout.first,
{
    let rows = list_rows(area, header);
    let page = if rows > 1 {
        rows
    } else {
        1
    };
    let c = cursor as int;
    assert(0 <= c % page < page && c % page <= c) by (nonlinear_arith)
        requires
            0 < page,
            0 <= c,
    ;
}

/// Pages lie end to end: while the cursor stays on the matches shown, the page
/// stays; a cursor right behind them is at the top of the next page.
pub proof fn law_pages_lie_end_to_end(
    shown: PickerLayout,
    other: PickerLayout,
    area: Rect,
    modal: bool,
    mode: PickerMode,
    running: bool,
    matched: u32,
    total: u32,
    cursor: u32,
    moved: u32,
    header: u16,
)
    requires
        shown.fits(area, modal, mode, running, matched, total, cursor, header),
        other.fits(area, modal, mode, running, matched, total, moved, header),
        shown.list.height > header,
    ensures
        shown.first <= moved < shown.end ==> other.first == shown.first && other.end == shown.end,
        moved == shown.end && moved < matched ==> other.first == moved && other.selected == 0,
        moved < shown.first ==> other.end <= shown.first,
        moved == 0 ==> other.first == 0,
{
    let rows = list_rows(area, header);
    let c = cursor as int;
    let m = moved as int;
    let q = c / rows;
    let f = shown.first as int;
    assert(0 <= c % rows < rows && c % rows <= c && c == rows * q + c % rows) by (nonlinear_arith)
        requires
            0 < rows,
            0 <= c,
            q == c / rows,
    ;
    assert(f == rows * q);
    if f <= m < f + rows {
        assert(m % rows == m - f) by (nonlinear_arith)
            requires
                0 < rows,
                f == rows * q,
                f <= m < f + rows,
        ;
    }
    if m == f + rows {
        assert(m % rows == 0) by (nonlinear_arith)
            requires
                0 < rows,
                f == rows * q,
                m == f + rows,
        ;
    }
    if m < f {
        let p = m / rows;
        assert(m - m % rows + rows <= f) by (nonlinear_arith)
            requires
                0 < rows,
                0 <= m < f,
                f == rows * q,
        ;
    }
    if m == 0 {
        assert(m % rows == 0) by (nonlinear_arith)
            requires
                0 < rows,
                m == 0,
        ;
    }
}

/// The parts are where they belong in the frame: mode, prompt and counter on
/// the first line in it, one column in; the prompt ends where the counter
/// begins, and the counter one column before the frame; the separator is on the
/// second line, and the list has all below it.
pub proof fn law_parts_have_their_places(
    layout: PickerLayout,
    area: Rect,
    modal: bool,
    mode: PickerMode,
    running: bool,
    matched: u32,
    total: u32,
    cursor: u32,
    header: u16,
)
    requires
        layout.fits(area, modal, mode, running, matched, total, cursor, header),
        area.x + area.width < u16::MAX,
        area.y + area.height < u16::MAX,
        area.height >= 4,
        area.width >= 8 + layout.count.content@.len(),
    ensures
        layout.line.y == area.y + 1,
        layout.line.height == 1,
        layout.line.x == area.x + 2 + (if modal {
            4int
        } else {
            0
        }),
        layout.line.x + layout.line.width == layout.count.x,
        layout.count.y == area.y + 1,
        layout.count.x + layout.count.content@.len() + 2 == area.x + area.width,
        layout.count.max_width == layout.count.content@.len(),
        layout.count.role == TextRole::Plain,
        layout.mode is Some <==> modal,
        layout.mode matches Some(label) ==> label.x == area.x + 2 && label.y == area.y + 1
            && label.max_width == 4 && label.content@ == (match mode {
            PickerMode::Insert => "INS "@,
            PickerMode::Normal => "NOR "@,
        }) && label.role == (match mode {
            PickerMode::Insert => TextRole::InsertMode,
            PickerMode::Normal => TextRole::NormalMode,
        }),
        layout.separator.x == area.x + 1,
        layout.separator.y == area.y + 2,
        layout.separator.width == area.width - 2,
        layout.separator.height == 1,
        layout.list.x == area.x + 1,
        layout.list.y == area.y + 3,
        layout.list.width == area.width - 2,
        layout.list.y + layout.list.height == area.y + area.height - 1,
{
}

/// The counter gives the number of matches, a slash and the number of items,
/// behind a remark while there may be more to come.
pub proof fn law_the_counter_counts(running: bool, matched: u32, total: u32)
    ensures
        count_text(false, matched, total) == text::decimal(matched as nat) + seq!['/']
            + text::decimal(total as nat),
        count_text(true, matched, total) == "(running) "@ + count_text(false, matched, total),
{
    reveal_strlit("/");
    assert("/"@ =~= seq!['/']);
    assert(count_text(false, matched, total) =~= text::decimal(matched as nat) + seq!['/']
        + text::decimal(total as nat));
    assert(count_text(true, matched, total) =~= "(running) "@ + count_text(
        false,
        matched,
        total,
    ));
}

/// Cutting columns off the left moves the left edge by as many, and leaves the
/// right edge and the rows where they are.
pub proof fn law_cutting_moves_the_left_edge(area: Rect, columns: int)
    requires
        area.x + area.width <= u16::MAX,
        0 <= columns,
    ensures
        columns <= area.width ==> left_clipped(area, columns).x == area.x + columns,
        left_clipped(area, columns).x + left_clipped(area, columns).width == area.x + area.width,
        columns >= area.width ==> left_clipped(area, columns).width == 0,
        left_clipped(area, columns).y == area.y,
        left_clipped(area, columns).height == area.height,
{
}

/// The mode of a modal picker takes up four columns, as many as its label has
/// characters; without modes it takes none.
pub proof fn law_modes_take_up_their_label(mode: PickerMode)
    ensures
        mode_width(true) == mode_text(mode).len(),
        mode_width(false) == 0,
{
    reveal_strlit("INS ");
    reveal_strlit("NOR ");
}

/// However small the pane, its parts stay in it: what does not fit is cut off,
/// down to nothing.
pub proof fn law_parts_stay_in_the_pane(
    layout: PickerLayout,
    area: Rect,
    modal: bool,
    mode: PickerMode,
    running: bool,
    matched: u32,
    total: u32,
    cursor: u32,
    header: u16,
)
    requires
        layout.fits(area, modal, mode, running, matched, total, cursor, header),
        area.x + area.width <= u16::MAX,
        area.y + area.height <= u16::MAX,
        layout.count.content@.len() < u16::MAX,
    ensures
        ({
            let len = layout.count.content@.len() as int;
            let label = if modal {
                4int
            } else {
                0
            };
            let room = if area.width >= 3 {
                area.width - 3
            } else {
                0
            };
            &&& layout.line.width == (if room > label + len + 1 {
                room - label - len - 1
            } else {
                0
            })
            &&& layout.line.height == 1 && layout.line.y == layout.count.y
            &&& layout.count.max_width == (if len <= room {
                len
            } else {
                room
            })
            &&& layout.mode matches Some(shown) ==> shown.max_width == (if room >= 4 {
                4
            } else {
                room
            })
            &&& area.x <= layout.list.x && layout.list.x + layout.list.width <= area.x + area.width
            &&& area.y <= layout.list.y && layout.list.y + layout.list.height <= area.y
                + area.height
            &&& layout.list.height == (if area.height >= 4 {
                area.height - 4
            } else {
                0
            })
            &&& layout.separator.width == layout.list.width
            &&& layout.separator.x == layout.list.x
        }),
{
}

/// What the counter shows is the counter's text.
pub proof fn law_the_counter_is_shown(
    layout: PickerLayout,
    area: Rect,
    modal: bool,
    mode: PickerMode,
    running: bool,
    matched: u32,
    total: u32,
    cursor: u32,
    header: u16,
)
    requires
        layout.fits(area, modal, mode, running, matched, total, cursor, header),
    ensures
        layout.count.content@ == count_text(running, matched, total),
{
}

/// Where the header leaves no room, the page is at the cursor.
pub proof fn law_no_room_no_page(
    layout: PickerLayout,
    area: Rect,
    modal: bool,
    mode: PickerMode,
    running: bool,
    matched: u32,
    total: u32,
    cursor: u32,
    header: u16,
)
    requires
        layout.fits(area, modal, mode, running, matched, total, cursor, header),
        layout.list.height <= header,
    ensures
        layout.first == cursor,
        layout.selected == 0,
{
    let c = cursor as int;
    assert(c % 1 == 0) by (nonlinear_arith);
}

} // verus!
