//! Drawing rasterized media (images, PDF pages) into cells.
//!
//! Both the media view and the picker preview place an image the same way:
//! fit it to the available cells and stamp placeholders over them.
use vstd::prelude::*;
use crate::geometry;
use crate::geometry::Rect;
use crate::graphics;
use crate::graphics::{GraphicsMode, GraphicsState};
use crate::media::Raster;
use crate::placeholder;
use crate::text;

verus! {

/// A drawn placement: the cells it covers, and how far it can be panned.
#[derive(Debug, Clone, Copy, PartialEq, Eq, Structural)]
pub struct Placement {
    /// The cells the image was drawn into.
    pub area: Rect,
    /// Rows of the placement that are hidden below `area`, i.e. the largest
    /// pan that still shows image. Zero when the whole image is visible.
    pub max_pan: u16,
}

/// A cell to be written: where, which placeholder, and the foreground color
/// that carries the image id.
pub struct CellWrite {
    pub x: u16,
    pub y: u16,
    pub symbol: [char; 3],
    pub colour: (u8, u8, u8),
}

/// The model of a [`CellWrite`].
pub open spec fn write_view(cell: CellWrite) -> (int, int, Seq<char>, (u8, u8, u8)) {
    (cell.x as int, cell.y as int, cell.symbol@, cell.colour)
}

/// The models of cells to be written.
pub open spec fn writes(cells: Seq<CellWrite>) -> Seq<(int, int, Seq<char>, (u8, u8, u8))> {
    cells.map_values(|c: CellWrite| write_view(c))
}

/// The low 24 bits of an image id, as red, green and blue.
pub open spec fn id_colour(id: u32) -> (u8, u8, u8) {
    ((id / 65536 % 256) as u8, (id / 256 % 256) as u8, (id % 256) as u8)
}

/// Two sizes in cells, width first: of the whole of an area, and of its width
/// alone.
#[derive(Debug, Clone, Copy, PartialEq, Eq)]
pub struct Sizes {
    pub whole: (u16, u16),
    pub wide: (u16, u16),
}

/// The size of a placement: the whole image is fitted into the area, unless it
/// is panned through. Panning fits it to the width alone, letting it grow past
/// the bottom of the area; an image that does not get there is fitted as if it
/// were not panned.
pub open spec fn fit_for(area: Rect, fits: Sizes, pan: u16) -> (u16, u16) {
    if pan == 0 || fits.wide.1 <= area.height {
        fits.whole
    } else {
        fits.wide
    }
}

/// Where an image fitted to `cols` by `rows` cells goes: centred, and with no
/// more rows than the area has.
pub open spec fn placed(area: Rect, cols: u16, rows: u16) -> Placement {
    let visible = geometry::least(rows as int, area.height as int);
    Placement {
        area: Rect {
            x: (area.x + (area.width - cols) / 2) as u16,
            y: (area.y + (area.height - visible) / 2) as u16,
            width: cols,
            height: visible as u16,
        },
        max_pan: geometry::monus(rows as int, area.height as int) as u16,
    }
}

/// The cells of one row of a placement, of which the image rows before `pan`
/// are left out. Rows and columns without a diacritic are skipped.
pub open spec fn row_writes(area: Rect, pan: int, row: int, cols: int, id: u32) -> Seq<
    (int, int, Seq<char>, (u8, u8, u8)),
>
    decreases cols,
{
    if cols <= 0 {
        Seq::empty()
    } else {
        let before = row_writes(area, pan, row, cols - 1, id);
        if pan + row < 297 && cols - 1 < 297 {
            before.push(
                (
                    area.x + cols - 1,
                    area.y + row,
                    placeholder::symbol_text(pan + row, cols - 1),
                    id_colour(id),
                ),
            )
        } else {
            before
        }
    }
}

/// The cells of the first rows of a placement, row by row.
pub open spec fn all_writes(area: Rect, pan: int, rows: int, id: u32) -> Seq<
    (int, int, Seq<char>, (u8, u8, u8)),
>
    decreases rows,
{
    if rows <= 0 {
        Seq::empty()
    } else {
        all_writes(area, pan, rows - 1, id) + row_writes(area, pan, rows - 1, area.width as int, id)
    }
}

/// How many cells an image may take up in an area, or `None` where there are
/// none. Fitted to the width alone, it may grow past the bottom.
pub fn available_cells(area: Rect) -> (room: Option<Sizes>)
    ensures
        room == (if area.width == 0 || area.height == 0 {
            None
        } else {
            Some(Sizes { whole: (area.width, area.height), wide: (area.width, u16::MAX) })
        }),
{
    if area.width == 0 || area.height == 0 {
        None
    } else {
        Some(Sizes { whole: (area.width, area.height), wide: (area.width, u16::MAX) })
    }
}

/// The size of a placement, of the sizes that the image takes in the
/// [`available_cells`].
pub fn choose_fit(area: Rect, fits: Sizes, pan: u16) -> (fit: (u16, u16))
    ensures
        fit == fit_for(area, fits, pan),
{
    if pan == 0 || fits.wide.1 <= area.height {
        fits.whole
    } else {
        fits.wide
    }
}

/// How many cells a placement may take up at most: as many as are available,
/// and no more than there are diacritics to number them with.
pub fn fit_limits(avail: (u16, u16)) -> (limits: (u16, u16))
    ensures
        limits.0 == geometry::least(avail.0 as int, 297),
        limits.1 == geometry::least(avail.1 as int, 297),
{
    (if avail.0 <= 297 { avail.0 } else { 297 }, if avail.1 <= 297 { avail.1 } else { 297 })
}

/// A number kept between one and a limit; at a limit of zero it is one.
pub open spec fn kept_within(n: u16, limit: u16) -> u16 {
    if n == 0 || limit <= 1 {
        1
    } else if n <= limit {
        n
    } else {
        limit
    }
}

/// A placement size kept within its limits: it has at least one cell, even
/// where there is no room for it.
pub fn clamp_fit(cols: u16, rows: u16, limits: (u16, u16)) -> (fit: (u16, u16))
    ensures
        fit == (kept_within(cols, limits.0), kept_within(rows, limits.1)),
        1 <= fit.0 && 1 <= fit.1,
        limits.0 > 0 ==> fit.0 <= limits.0,
        limits.1 > 0 ==> fit.1 <= limits.1,
{
    let width: u16 = if limits.0 > 1 { limits.0 } else { 1 };
    let height: u16 = if limits.1 > 1 { limits.1 } else { 1 };
    (
        if cols < 1 {
            1
        } else if cols > width {
            width
        } else {
            cols
        },
        if rows < 1 {
            1
        } else if rows > height {
            height
        } else {
            rows
        },
    )
}

/// The color that carries an image id.
pub fn colour_of(id: u32) -> (colour: (u8, u8, u8))
    ensures
        colour == id_colour(id),
{
    ((id / 65536 % 256) as u8, (id / 256 % 256) as u8, (id % 256) as u8)
}

/// Draws `raster` centred in `area` and returns the cells it covers. Returns
/// `None`, having drawn nothing, when the terminal has no graphics support, so
/// callers can fall back to text. `fit` is the size in cells, width first,
/// that the raster takes in the whole of the [`available_cells`].
pub fn draw_raster(
    surface: &mut Vec<CellWrite>,
    graphics: &mut GraphicsState,
    area: Rect,
    raster: &Raster,
    fit: (u16, u16),
) -> (drawn: Option<Rect>)
    requires
        area.addressable(),
        area.width > 0 && area.height > 0 ==> fit.0 <= area.width,
    ensures
        drawn is Some <==> area.width > 0 && area.height > 0 && old(graphics).mode
            == GraphicsMode::Kitty,
        drawn matches Some(cells) ==> cells == placed(area, fit.0, fit.1).area,
        drawing(
            *old(graphics),
            *final(graphics),
            old(surface)@,
            final(surface)@,
            area,
            *raster,
            fit,
            0,
        ),
{
    match draw_raster_panned(surface, graphics, area, raster, Sizes { whole: fit, wide: fit }, 0) {
        Some(placement) => Some(placement.area),
        None => None,
    }
}

/// What drawing does to the graphics state and to the surface.
pub open spec fn drawing(
    before: GraphicsState,
    after: GraphicsState,
    surface: Seq<CellWrite>,
    drawn: Seq<CellWrite>,
    area: Rect,
    raster: Raster,
    fit: (u16, u16),
    pan: u16,
) -> bool {
    if area.width == 0 || area.height == 0 || before.mode != GraphicsMode::Kitty {
        after == before && drawn == surface
    } else {
        let placement = placed(area, fit.0, fit.1);
        let shift = geometry::least(pan as int, placement.max_pan as int);
        &&& before.placed_by(after, raster, fit.0, fit.1)
        &&& writes(drawn) == writes(surface) + all_writes(
            placement.area,
            shift,
            placement.area.height as int,
            raster.id,
        )
    }
}

/// Draws `raster` in `area`, panned down by `pan` placement rows. `fits` are
/// the sizes that the raster takes in the [`available_cells`].
///
/// With `pan == 0` this is [`draw_raster`]: the whole raster is fitted into
/// `area` and centred. With a non-zero `pan` the placement is instead sized to
/// the width of `area`, so an image taller than it is wide overflows
/// vertically and there is something to pan through; the window of
/// `pan..pan + area.height` placement rows is drawn. Placeholders name the
/// image row and column each cell shows, so leaving rows out crops the image
/// without re-rasterizing it.
///
/// An image that fits `area` at full width is unaffected by `pan`, and the
/// returned `max_pan` is then zero so that callers can clamp the offset back to
/// the top.
pub fn draw_raster_panned(
    surface: &mut Vec<CellWrite>,
    graphics: &mut GraphicsState,
    area: Rect,
    raster: &Raster,
    fits: Sizes,
    pan: u16,
) -> (drawn: Option<Placement>)
    requires
        area.addressable(),
        area.width > 0 && area.height > 0 ==> fits.whole.0 <= area.width && fits.wide.0
            <= area.width,
    ensures
        drawn is Some <==> area.width > 0 && area.height > 0 && old(graphics).mode
            == GraphicsMode::Kitty,
        drawn matches Some(placement) ==> placement == placed(
            area,
            fit_for(area, fits, pan).0,
            fit_for(area, fits, pan).1,
        ),
        drawing(
            *old(graphics),
            *final(graphics),
            old(surface)@,
            final(surface)@,
            area,
            *raster,
            fit_for(area, fits, pan),
            pan,
        ),
{
    if area.width == 0 || area.height == 0 {
        return None;
    }
    let fit: (u16, u16) = choose_fit(area, fits, pan);
    let cols: u16 = fit.0;
    let rows: u16 = fit.1;
    if !graphics.ensure_placement(raster, cols, rows) {
        return None;
    }
    let max_pan: u16 = rows.saturating_sub(area.height);
    let shift: u16 = if pan <= max_pan { pan } else { max_pan };
    let visible: u16 = if rows <= area.height { rows } else { area.height };
    let cells: Rect = Rect {
        x: area.x + (area.width - cols) / 2,
        y: area.y + (area.height - visible) / 2,
        width: cols,
        height: visible,
    };
    let colour: (u8, u8, u8) = colour_of(raster.id);
    let ghost blank = writes(surface@);
    let mut row: u16 = 0;
    assert(blank + all_writes(cells, shift as int, 0, raster.id) =~= blank);
    while row < visible
        invariant
            row <= visible,
            cells.addressable(),
            cells.width == cols,
            cells.height == visible,
            shift + visible <= rows || shift == 0,
            colour == id_colour(raster.id),
            writes(surface@) == blank + all_writes(cells, shift as int, row as int, raster.id),
        decreases visible - row,
    {
        let ghost above = all_writes(cells, shift as int, row as int, raster.id);
        let mut col: u16 = 0;
        assert(above + row_writes(cells, shift as int, row as int, 0, raster.id) =~= above);
        while col < cols
            invariant
                col <= cols,
                row < visible,
                cells.addressable(),
                cells.width == cols,
                cells.height == visible,
                shift + visible <= rows || shift == 0,
                colour == id_colour(raster.id),
                writes(surface@) == blank + (above + row_writes(
                    cells,
                    shift as int,
                    row as int,
                    col as int,
                    raster.id,
                )),
            decreases cols - col,
        {
            let ghost so_far = surface@;
            let ghost line = row_writes(cells, shift as int, row as int, col as int, raster.id);
            if let Some(symbol) = placeholder::placeholder_symbol(shift + row, col) {
                surface.push(CellWrite { x: cells.x + col, y: cells.y + row, symbol, colour });
                assert(writes(surface@) =~= writes(so_far).push(write_view(surface@.last())));
                assert(blank + (above + line.push(write_view(surface@.last()))) =~= (blank + (above
                    + line)).push(write_view(surface@.last())));
            }
            col += 1;
        }
        row += 1;
    }
    Some(Placement { area: cells, max_pan })
}

/// The display width of a caption, for centring it under a placement. Captions
/// contain non-ASCII characters, so their byte length would push them off
/// centre.
pub fn text_width(caption: &str) -> (width: u16)
    ensures
        width == geometry::least(text::display_width(caption@) as int, u16::MAX as int),
{
    let width: usize = text::width_of(caption);
    if width <= u16::MAX as usize {
        width as u16
    } else {
        u16::MAX
    }
}

/// The color of a placeholder names the image: it holds the whole of an id
/// below 2^24.
pub proof fn law_colour_names_the_image(id: u32)
    requires
        id < 0x100_0000,
    ensures
        id_colour(id).0 * 65536 + id_colour(id).1 * 256 + id_colour(id).2 == id,
{
}

/// A placement lies in the area it was drawn in, horizontally centred to the
/// cell.
pub proof fn law_placement_lies_in_its_area(area: Rect, cols: u16, rows: u16)
    requires
        area.addressable(),
        cols <= area.width,
    ensures
        area.encloses(placed(area, cols, rows).area),
        ({
            let p = placed(area, cols, rows).area;
            let left = p.x - area.x;
            let right = area.x + area.width - (p.x + p.width);
            let top = p.y - area.y;
            let bottom = area.y + area.height - (p.y + p.height);
            0 <= right - left <= 1 && 0 <= bottom - top <= 1
        }),
{
}

/// An image of which no row is hidden is unaffected by panning: it is placed
/// as it is without, the same cells are drawn, and the graphics state is asked
/// for the same placement.
pub proof fn law_pan_leaves_a_fitting_image(
    area: Rect,
    raster: Raster,
    fits: Sizes,
    pan: u16,
    graphics: GraphicsState,
    still: GraphicsState,
    panned: GraphicsState,
    surface: Seq<CellWrite>,
    still_drawn: Seq<CellWrite>,
    panned_drawn: Seq<CellWrite>,
)
    requires
        ({
            let fit = fit_for(area, fits, pan);
            placed(area, fit.0, fit.1).max_pan == 0
        }),
        drawing(
            graphics,
            still,
            surface,
            still_drawn,
            area,
            raster,
            fit_for(area, fits, 0),
            0,
        ),
        drawing(
            graphics,
            panned,
            surface,
            panned_drawn,
            area,
            raster,
            fit_for(area, fits, pan),
            pan,
        ),
    ensures
        fit_for(area, fits, pan) == fit_for(area, fits, 0),
        ({
            let fit = fit_for(area, fits, pan);
            let whole = fit_for(area, fits, 0);
            placed(area, fit.0, fit.1) == placed(area, whole.0, whole.1)
        }),
        writes(panned_drawn) == writes(still_drawn),
        drawing(
            graphics,
            panned,
            surface,
            panned_drawn,
            area,
            raster,
            fit_for(area, fits, 0),
            0,
        ),
{
}

/// An image that fits its area at full width has no hidden row however far it
/// is panned, as long as it fits the whole of the area at all.
pub proof fn law_fitting_images_cannot_be_panned(area: Rect, fits: Sizes, pan: u16)
    requires
        fits.wide.1 <= area.height,
        fits.whole.1 <= area.height,
    ensures
        ({
            let fit = fit_for(area, fits, pan);
            placed(area, fit.0, fit.1).max_pan == 0
        }),
{
}

/// However far it is panned, the window on an image shows rows of the image
/// only.
pub proof fn law_pan_stays_on_the_image(area: Rect, cols: u16, rows: u16, pan: u16, row: int)
    requires
        0 <= row < placed(area, cols, rows).area.height,
    ensures
        geometry::least(pan as int, placed(area, cols, rows).max_pan as int) + row < rows,
{
}

/// One row of a placement: its cells go from left to right, each with the
/// diacritics of the image row and of its own column.
proof fn lemma_row_is_drawn(area: Rect, pan: int, row: int, cols: int, id: u32)
    requires
        0 <= cols,
    ensures
        row_writes(area, pan, row, cols, id).len() == (if pan + row < 297 {
            geometry::least(cols, 297)
        } else {
            0
        }),
        forall|c: int|
            0 <= c < row_writes(area, pan, row, cols, id).len() ==> #[trigger] row_writes(
                area,
                pan,
                row,
                cols,
                id,
            )[c] == (
                area.x + c,
                area.y + row,
                placeholder::symbol_text(pan + row, c),
                id_colour(id),
            ),
    decreases cols,
{
    if cols > 0 {
        lemma_row_is_drawn(area, pan, row, cols - 1, id);
    }
}

/// The rows of a placement are drawn one below the other.
proof fn lemma_rows_are_drawn(area: Rect, pan: int, rows: int, id: u32)
    requires
        0 <= pan,
        0 <= rows,
    ensures
        ({
            let wide = geometry::least(area.width as int, 297);
            let all = all_writes(area, pan, rows, id);
            &&& all.len() == wide * geometry::least(rows, geometry::monus(297, pan))
            &&& forall|k: int|
                0 <= k < all.len() ==> #[trigger] all[k] == (
                    area.x + k % wide,
                    area.y + k / wide,
                    placeholder::symbol_text(pan + k / wide, k % wide),
                    id_colour(id),
                )
        }),
    decreases rows,
{
    let wide = geometry::least(area.width as int, 297);
    let all = all_writes(area, pan, rows, id);
    if rows == 0 {
        assert(wide * 0 == 0) by (nonlinear_arith);
    } else {
        let above = all_writes(area, pan, rows - 1, id);
        let last = row_writes(area, pan, rows - 1, area.width as int, id);
        lemma_rows_are_drawn(area, pan, rows - 1, id);
        lemma_row_is_drawn(area, pan, rows - 1, area.width as int, id);
        let before = geometry::least(rows - 1, geometry::monus(297, pan));
        if pan + rows - 1 < 297 {
            assert(wide * (before + 1) == wide * before + wide) by (nonlinear_arith);
            assert forall|k: int| 0 <= k < all.len() implies #[trigger] all[k] == (
                area.x + k % wide,
                area.y + k / wide,
                placeholder::symbol_text(pan + k / wide, k % wide),
                id_colour(id),
            ) by {
                if k < above.len() {
                    assert(all[k] == above[k]);
                } else {
                    let c = k - wide * before;
                    assert(all[k] == last[c]);
                    assert(k / wide == before && k % wide == c) by (nonlinear_arith)
                        requires
                            k == wide * before + c,
                            0 <= c < wide,
                    ;
                }
            }
        } else {
            assert(all =~= above);
        }
    }
}

/// Every cell that is drawn names the cell of the image that it shows. The
/// window on the image starts `pan` rows down, or at the last rows there are:
/// the cell at (x, y) of the placement has the diacritic of the image row that
/// lies `y` rows below the top of the window, and that of column `x`. Cells are
/// drawn row by row, each once, and those drawn before stay.
pub proof fn law_cells_name_what_they_show(
    before: GraphicsState,
    after: GraphicsState,
    surface: Seq<CellWrite>,
    drawn: Seq<CellWrite>,
    area: Rect,
    raster: Raster,
    fit: (u16, u16),
    pan: u16,
)
    requires
        area.addressable(),
        area.width > 0,
        area.height > 0,
        before.mode == GraphicsMode::Kitty,
        fit.0 <= area.width,
        drawing(before, after, surface, drawn, area, raster, fit, pan),
    ensures
        ({
            let place = placed(area, fit.0, fit.1).area;
            let hidden = if fit.1 > area.height {
                fit.1 - area.height
            } else {
                0
            };
            let top = if pan < hidden {
                pan as int
            } else {
                hidden
            };
            &&& drawn.len() >= surface.len()
            &&& forall|k: int|
                0 <= k < surface.len() ==> (#[trigger] drawn[k]).x == surface[k].x && drawn[k].y
                    == surface[k].y && drawn[k].symbol@ == surface[k].symbol@ && drawn[k].colour
                    == surface[k].colour
            &&& forall|k: int|
                #![trigger drawn[k]]
                surface.len() <= k < drawn.len() ==> {
                    let col = drawn[k].x - place.x;
                    let row = drawn[k].y - place.y;
                    &&& 0 <= col < place.width && 0 <= row < place.height
                    &&& 0 <= top + row < 297 && top + row < fit.1 && col < 297
                    &&& drawn[k].symbol@[0] == placeholder::PLACEHOLDER
                    &&& drawn[k].symbol@[1] == placeholder::ROW_COLUMN_DIACRITICS@[top + row]
                    &&& drawn[k].symbol@[2] == placeholder::ROW_COLUMN_DIACRITICS@[col]
                    &&& drawn[k].colour.0 == raster.id / 65536 % 256
                    &&& drawn[k].colour.1 == raster.id / 256 % 256
                    &&& drawn[k].colour.2 == raster.id % 256
                }
            &&& ({
                let wide = if fit.0 <= 297 {
                    fit.0 as int
                } else {
                    297
                };
                let high = if top + place.height <= 297 {
                    place.height as int
                } else if top <= 297 {
                    297 - top
                } else {
                    0
                };
                &&& drawn.len() - surface.len() == wide * high
                &&& forall|k: int|
                    #![trigger drawn[k]]
                    surface.len() <= k < drawn.len() ==> wide > 0 && drawn[k].x == place.x + (k
                        - surface.len()) % wide && drawn[k].y == place.y + (k - surface.len())
                        / wide
            })
        }),
{
    let place = placed(area, fit.0, fit.1).area;
    let shift = geometry::least(pan as int, placed(area, fit.0, fit.1).max_pan as int);
    let wide = geometry::least(place.width as int, 297);
    let new = all_writes(place, shift, place.height as int, raster.id);
    lemma_rows_are_drawn(place, shift, place.height as int, raster.id);
    let all = writes(surface) + new;
    assert(writes(drawn).len() == drawn.len());
    assert(writes(surface).len() == surface.len());
    let high = geometry::least(place.height as int, geometry::monus(297, shift));
    assert forall|k: int| 0 <= k < surface.len() implies (#[trigger] drawn[k]).x == surface[k].x
        && drawn[k].y == surface[k].y && drawn[k].symbol@ == surface[k].symbol@ && drawn[k].colour
        == surface[k].colour by {
        assert(writes(drawn)[k] == write_view(drawn[k]));
        assert(writes(surface)[k] == write_view(surface[k]));
    }
    assert forall|k: int| #![trigger drawn[k]] surface.len() <= k < drawn.len() implies {
        let col = drawn[k].x - place.x;
        let row = drawn[k].y - place.y;
        let n = k - surface.len();
        &&& 0 < wide && 0 <= col < wide && 0 <= row < high
        &&& col == n % wide && row == n / wide
        &&& drawn[k].symbol@ == placeholder::symbol_text(shift + row, col)
        &&& drawn[k].colour == id_colour(raster.id)
    } by {
        let n = k - surface.len();
        assert(writes(drawn)[k] == write_view(drawn[k]));
        assert(all[k] == new[n]);
        assert(0 < wide && 0 <= n % wide < wide && 0 <= n / wide < high) by (nonlinear_arith)
            requires
                0 <= n < wide * high,
                0 <= wide,
                0 <= high,
        ;
    }
}

/// No two cells of one drawing hold the same symbol, panned or not: no part of
/// the image is shown twice.
pub proof fn law_no_cell_is_shown_twice(
    before: GraphicsState,
    after: GraphicsState,
    drawn: Seq<CellWrite>,
    area: Rect,
    raster: Raster,
    fit: (u16, u16),
    pan: u16,
    i: int,
    j: int,
)
    requires
        area.addressable(),
        area.width > 0,
        area.height > 0,
        before.mode == GraphicsMode::Kitty,
        fit.0 <= area.width,
        drawing(before, after, Seq::<CellWrite>::empty(), drawn, area, raster, fit, pan),
        0 <= i < j < drawn.len(),
    ensures
        drawn[i].symbol@ != drawn[j].symbol@,
        (drawn[i].x, drawn[i].y) != (drawn[j].x, drawn[j].y),
{
    law_cells_name_what_they_show(
        before,
        after,
        Seq::<CellWrite>::empty(),
        drawn,
        area,
        raster,
        fit,
        pan,
    );
    let place = placed(area, fit.0, fit.1).area;
    let wide = if fit.0 <= 297 {
        fit.0 as int
    } else {
        297
    };
    assert(drawn[i].x - place.x == i % wide && drawn[j].x - place.x == j % wide);
    assert(i % wide != j % wide || i / wide != j / wide) by (nonlinear_arith)
        requires
            0 < wide,
            0 <= i < j,
    ;
    if drawn[i].symbol@ == drawn[j].symbol@ {
        let hidden = if fit.1 > area.height {
            fit.1 - area.height
        } else {
            0
        };
        let top = if pan < hidden {
            pan as int
        } else {
            hidden
        };
        let a = top + (drawn[i].y - place.y);
        let b = top + (drawn[j].y - place.y);
        let c = drawn[i].x - place.x;
        let d = drawn[j].x - place.x;
        if a < b {
            placeholder::law_diacritics_ascend(a, b);
        } else if b < a {
            placeholder::law_diacritics_ascend(b, a);
        }
        if c < d {
            placeholder::law_diacritics_ascend(c, d);
        } else if d < c {
            placeholder::law_diacritics_ascend(d, c);
        }
        assert(false);
    }
}

/// A placement is as wide as the image was fitted to be and shows as many of
/// its rows as there is room for; the rest is there to pan through.
pub proof fn law_placements_show_all_there_is_room_for(area: Rect, cols: u16, rows: u16)
    ensures
        placed(area, cols, rows).area.width == cols,
        placed(area, cols, rows).area.height <= area.height,
        placed(area, cols, rows).area.height <= rows,
        placed(area, cols, rows).area.height == area.height || placed(area, cols, rows).area.height
            == rows,
        placed(area, cols, rows).area.height + placed(area, cols, rows).max_pan == rows,
{
}

/// An image that is not panned is fitted whole, and one that is panned and
/// taller than the area at full width is fitted to the width.
pub proof fn law_panned_images_fill_the_width(area: Rect, fits: Sizes, pan: u16)
    ensures
        fit_for(area, fits, 0) == fits.whole,
        pan > 0 && fits.wide.1 > area.height ==> fit_for(area, fits, pan) == fits.wide,
        fits.wide.1 <= area.height ==> fit_for(area, fits, pan) == fits.whole,
{
}

/// A size within its limits stays as it is; any other is brought to the nearer
/// end of them.
pub proof fn law_sizes_are_kept_within_limits(n: u16, limit: u16)
    requires
        limit > 0,
    ensures
        1 <= kept_within(n, limit) <= limit,
        1 <= n <= limit ==> kept_within(n, limit) == n,
        n > limit ==> kept_within(n, limit) == limit,
        n == 0 ==> kept_within(n, limit) == 1,
        kept_within(n, 0) == 1,
{
}

/// Nothing is drawn, and nothing sent, where there is no room or no graphics
/// support.
pub proof fn law_nothing_is_drawn_without_graphics(
    before: GraphicsState,
    after: GraphicsState,
    surface: Seq<CellWrite>,
    drawn: Seq<CellWrite>,
    area: Rect,
    raster: Raster,
    fit: (u16, u16),
    pan: u16,
)
    requires
        drawing(before, after, surface, drawn, area, raster, fit, pan),
        area.width == 0 || area.height == 0 || before.mode == GraphicsMode::Off,
    ensures
        after == before,
        drawn == surface,
{
}

/// An image that is drawn is placed in the size that it was fitted to, width
/// first: it is loaded in that size afterwards.
pub proof fn law_drawn_images_are_loaded(
    before: GraphicsState,
    after: GraphicsState,
    surface: Seq<CellWrite>,
    drawn: Seq<CellWrite>,
    area: Rect,
    raster: Raster,
    fit: (u16, u16),
    pan: u16,
)
    requires
        drawing(before, after, surface, drawn, area, raster, fit, pan),
        area.width > 0,
        area.height > 0,
        before.mode == GraphicsMode::Kitty,
        before.placements@.dom().finite(),
    ensures
        after.placements@.contains_key(raster.id),
        after.placements@[raster.id].size.0 == fit.0,
        after.placements@[raster.id].size.1 == fit.1,
        after.placements@[raster.id].used == before.frame,
{
    graphics::law_placed_images_count_as_drawn(before, after, raster, fit.0, fit.1);
}

} // verus!
