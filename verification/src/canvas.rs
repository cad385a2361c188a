//! The canvas at a width. The layout constants (`layout.rs`) describe the *core*: the narrow
//! 1280-wide canvas with the viewport in its top-left and the right column beside it. A wider
//! window keeps the core and adds room around it: the viewport is centred, a *wing* to its left
//! holds the roster, and the band under the viewport spans the wing and the core. A narrower
//! window gets the core centred with the band under it, as on the narrow canvas.

use vstd::prelude::*;
use crate::layout::{
    CANVAS_HEIGHT, CANVAS_WIDTH, CELL, Rect, SIDEBAR_MAP, cell, fits_i32, overlay_map_clip,
    right_column, spec_cell, viewport,
};

verus! {

/// The band's first text row on the canvas grid: its top (540) rounded up to a row.
pub const BAND_ROW0: i32 = 68;
/// The message line's row, from the band's first row.
pub const MESSAGE_ROW: i32 = 0;
/// The captions over the roster and the log.
pub const CAPTION_ROW: i32 = 2;
/// The first member's row; one row per slot follows.
pub const FIRST_MEMBER_ROW: i32 = 3;
/// Rows the roster has: the party's six slots.
pub const MEMBER_ROWS: usize = 6;
/// The column the event log starts at on the narrow canvas, beside the roster.
pub const LOG_COLUMN: i32 = 63;
/// Rows of the event log, from the first member's row down.
pub const LOG_ROWS: usize = 18;
/// The help line's row.
pub const HELP_ROW: i32 = 21;
/// Rows the band uses.
pub const ROWS_USED: i32 = 22;
/// Text cells across the narrow band from its first column.
pub const BAND_COLUMNS: usize = 212;
/// Cells of a roster row.
pub const ROSTER_CELLS: usize = 61;
/// Cells of a log line on the narrow canvas: the least a log line gets.
pub const LOG_CELLS: usize = 149;
/// Text cells across the wing: a roster row, the marker's cell before it, one clear after.
pub const WING_COLUMNS: i32 = 63;
/// The wing's width in pixels.
pub const WING: u32 = 378;

/// The canvas pixel of a band cell on the narrow canvas.
pub open spec fn spec_band_cell(column: int, row: int) -> (int, int) {
    spec_cell(1 + column, 68 + row)
}

/// The canvas pixel of a band cell on the narrow canvas: one column in, so the marker fits
/// before the roster.
pub fn band_cell(column: i32, row: i32) -> (r: (i32, i32))
    requires
        fits_i32(1 + column),
        fits_i32(1 + (1 + column) * 6),
        fits_i32(68 + row),
        fits_i32((68 + row) * 8),
    ensures
        r.0 == spec_band_cell(column as int, row as int).0,
        r.1 == spec_band_cell(column as int, row as int).1,
{
    cell(1 + column, BAND_ROW0 + row)
}

/// Where the regions sit on a canvas of some width.
#[derive(Debug, Clone, Copy, PartialEq, Eq)]
pub struct Layout {
    /// The canvas width in pixels, at least `CANVAS_WIDTH`.
    pub width: u32,
    /// The core's top-left corner: the viewport's corner, the right column beside it.
    pub core: (i32, i32),
    /// The roster's column left of the viewport, on a canvas wide enough for it.
    pub wing: Option<Rect>,
    /// The band under the viewport: the wing and the core wide, or the core alone.
    pub band: Rect,
}

/// A difference of two `u32`s taken as an `i32`, as the cast wraps it.
pub open spec fn wrap_i32(x: int) -> int {
    if x > 0x7fff_ffff {
        x - 0x1_0000_0000
    } else {
        x
    }
}

/// Half, rounded toward zero as integer division does.
pub open spec fn half_toward_zero(x: int) -> int {
    if x >= 0 {
        x / 2
    } else {
        -((-x) / 2)
    }
}

/// The layout for a canvas this wide: at least the narrow canvas; the viewport centred with
/// the wing beside it when the wing fits left of a centred viewport, else the core centred.
/// Past `i32::MAX` pixels the offsets wrap as a cast to `i32` wraps them.
pub open spec fn spec_for_width(width: int) -> Layout {
    let width = if width < 1280 { 1280 } else { width };
    let centred = half_toward_zero(wrap_i32(width - 960));
    if centred >= 378 {
        Layout {
            width: width as u32,
            core: (centred as i32, 0),
            wing: Some(Rect { x: (centred - 378) as i32, y: 0, w: 378, h: 540 }),
            band: Rect { x: (centred - 378) as i32, y: 540, w: 1658, h: 180 },
        }
    } else {
        let core = half_toward_zero(wrap_i32(width - 1280));
        Layout {
            width: width as u32,
            core: (core as i32, 0),
            wing: None,
            band: Rect { x: core as i32, y: 540, w: 1280, h: 180 },
        }
    }
}

/// Half of a `u32` taken as an `i32` the way a cast does, rounded toward zero.
pub(crate) fn half_as_i32(d: u32) -> (r: i32)
    ensures
        r == half_toward_zero(wrap_i32(d as int)),
{
    half_of(wrap_to_i32(d))
}

/// A `u32` taken as an `i32` the way a cast does.
pub(crate) fn wrap_to_i32(d: u32) -> (r: i32)
    ensures
        r == wrap_i32(d as int),
{
    if d > 0x7fff_ffff {
        (d - 0x8000_0000) as i32 - 0x7fff_ffff - 1
    } else {
        d as i32
    }
}

/// Half, rounded toward zero as integer division does.
pub(crate) fn half_of(w: i32) -> (r: i32)
    ensures
        r == half_toward_zero(w as int),
{
    if w >= 0 {
        w / 2
    } else {
        let m: i64 = -(w as i64);
        -(m / 2) as i32
    }
}

/// The narrow canvas: the layout the constants describe.
pub open spec fn spec_narrow() -> Layout {
    spec_for_width(1280)
}

impl Layout {
    /// A layout some width gave: the only ones the painters are handed.
    pub open spec fn wf(self) -> bool {
        self == spec_for_width(self.width as int)
    }

    /// The layout for a canvas this wide.
    pub fn for_width(width: u32) -> (r: Layout)
        ensures
            r == spec_for_width(width as int),
            r.wf(),
    {
        let width = if width < CANVAS_WIDTH {
            CANVAS_WIDTH
        } else {
            width
        };
        let centred = half_as_i32(width - 960);
        if centred >= WING as i32 {
            let wing = Rect::new(centred - WING as i32, 0, WING, 540);
            Layout {
                width,
                core: (centred, 0),
                wing: Some(wing),
                band: Rect::new(wing.x, 540, WING + CANVAS_WIDTH, 180),
            }
        } else {
            let core = half_as_i32(width - CANVAS_WIDTH);
            Layout { width, core: (core, 0), wing: None, band: Rect::new(core, 540, 1280, 180) }
        }
    }

    /// Whether the roster sits in the wing rather than the band.
    pub fn is_wide(&self) -> (r: bool)
        ensures
            r == self.wing.is_some(),
    {
        self.wing.is_some()
    }

    /// The whole canvas.
    pub fn canvas(&self) -> (r: Rect)
        ensures
            r == self.spec_canvas(),
    {
        Rect::new(0, 0, self.width, CANVAS_HEIGHT)
    }

    /// A core rectangle on this canvas.
    pub fn shift(&self, rect: Rect) -> (r: Rect)
        requires
            fits_i32(rect.x + self.core.0),
            fits_i32(rect.y + self.core.1),
        ensures
            r == (Rect {
                x: (rect.x + self.core.0) as i32,
                y: (rect.y + self.core.1) as i32,
                w: rect.w,
                h: rect.h,
            }),
    {
        rect.shifted(self.core.0, self.core.1)
    }

    /// The whole canvas, as the spec sees it.
    pub open spec fn spec_canvas(self) -> Rect {
        Rect { x: 0, y: 0, w: self.width, h: 720 }
    }

    /// The viewport, as the spec sees it.
    pub open spec fn spec_viewport(self) -> Rect {
        Rect { x: self.core.0, y: self.core.1, w: 960, h: 540 }
    }

    /// The right column, as the spec sees it.
    pub open spec fn spec_right_column(self) -> Rect {
        Rect { x: (self.core.0 + 960) as i32, y: self.core.1, w: 320, h: 540 }
    }

    /// The viewport.
    pub fn viewport(&self) -> (r: Rect)
        requires
            self.wf(),
        ensures
            r == self.spec_viewport(),
    {
        self.shift(viewport())
    }

    /// The right column.
    pub fn right_column(&self) -> (r: Rect)
        requires
            self.wf(),
        ensures
            r == self.spec_right_column(),
    {
        self.shift(right_column())
    }

    /// The sidebar minimap as `(x, y, width, height)`.
    pub fn minimap(&self) -> (r: (i32, i32, u32, u32))
        requires
            self.wf(),
        ensures
            r == ((992 + self.core.0) as i32, (8 + self.core.1) as i32, 256u32, 256u32),
    {
        (SIDEBAR_MAP.0 + self.core.0, SIDEBAR_MAP.1 + self.core.1, SIDEBAR_MAP.2, SIDEBAR_MAP.3)
    }

    /// The large automap's clip inside the viewport.
    pub fn overlay_clip(&self) -> (r: Rect)
        requires
            self.wf(),
        ensures
            r == (Rect { x: (8 + self.core.0) as i32, y: (8 + self.core.1) as i32, w: 944, h: 524 }),
    {
        self.shift(overlay_map_clip())
    }

    /// The canvas pixel of a band cell, as a pair of integers.
    pub open spec fn spec_band_cell(self, column: int, row: int) -> (int, int) {
        (self.band.x + 1 + 6 * (1 + column), 8 * (68 + row))
    }

    /// The canvas pixel of a band cell: one column in from the band's edge.
    pub fn band_cell(&self, column: i32, row: i32) -> (r: (i32, i32))
        requires
            fits_i32(self.band.x + 1),
            fits_i32(1 + column),
            fits_i32(6 * (1 + column)),
            fits_i32(self.band.x + 1 + 6 * (1 + column)),
            fits_i32(68 + row),
            fits_i32(8 * (68 + row)),
        ensures
            r.0 == self.spec_band_cell(column as int, row as int).0,
            r.1 == self.spec_band_cell(column as int, row as int).1,
    {
        (self.band.x + 1 + CELL.0 * (1 + column), CELL.1 * (BAND_ROW0 + row))
    }

    /// Text cells across the band from its first column.
    pub open spec fn spec_band_columns(self) -> int {
        (self.band.w - 7) / 6
    }

    /// Text cells across the band from its first column.
    pub fn band_columns(&self) -> (r: usize)
        requires
            self.wf(),
        ensures
            r == self.spec_band_columns(),
    {
        ((self.band.w as i32 - (1 + CELL.0)) / CELL.0) as usize
    }

    /// The column the event log starts at, as the spec sees it.
    pub open spec fn spec_log_column(self) -> int {
        if self.wing.is_some() {
            0
        } else {
            63
        }
    }

    /// The column the event log starts at: the band's first when the roster is in the wing.
    pub fn log_column(&self) -> (r: i32)
        ensures
            r == self.spec_log_column(),
    {
        if self.is_wide() {
            0
        } else {
            LOG_COLUMN
        }
    }

    /// Cells of a log line.
    pub fn log_cells(&self) -> (r: usize)
        requires
            self.wf(),
        ensures
            r == self.spec_band_columns() - self.spec_log_column(),
    {
        self.band_columns() - self.log_column() as usize
    }

    /// The canvas pixel of the roster's caption row, as a pair of integers.
    pub open spec fn spec_roster_origin(self) -> (int, int) {
        match self.wing {
            Some(wing) => (wing.x + 7, wing.y + 8),
            None => self.spec_band_cell(0, 2),
        }
    }

    /// The canvas pixel of the roster's caption row; the members follow a row each.
    pub fn roster_origin(&self) -> (r: (i32, i32))
        requires
            self.wf(),
        ensures
            r.0 == self.spec_roster_origin().0,
            r.1 == self.spec_roster_origin().1,
    {
        match self.wing {
            Some(wing) => (wing.x + 1 + CELL.0, wing.y + CELL.1),
            None => self.band_cell(0, CAPTION_ROW),
        }
    }

    /// The canvas pixel of a member's roster row, for the party's slots.
    pub fn slot_origin(&self, slot: usize) -> (r: Option<(i32, i32)>)
        requires
            self.wf(),
        ensures
            slot >= 6 ==> r is None,
            slot < 6 ==> r == Some(
                (
                    self.spec_roster_origin().0 as i32,
                    (self.spec_roster_origin().1 + 8 * (1 + slot)) as i32,
                ),
            ),
    {
        if slot >= MEMBER_ROWS {
            return None;
        }
        let (x, y) = self.roster_origin();
        Some((x, y + CELL.1 * (1 + slot as i32)))
    }
}

/// The narrow canvas: the layout the constants describe; the one a new game starts with.
/// The narrow canvas: the layout the constants describe.
pub fn narrow() -> (r: Layout)
    ensures
        r == spec_narrow(),
{
    Layout::for_width(CANVAS_WIDTH)
}

impl Default for Layout {
    fn default() -> (r: Layout)
        ensures
            r == spec_narrow(),
    {
        Layout::for_width(CANVAS_WIDTH)
    }
}

/// A member's roster row, as the spec sees it: `ROSTER_CELLS` cells from its origin.
pub open spec fn spec_roster_row(layout: Layout, slot: int) -> Rect {
    Rect {
        x: layout.spec_roster_origin().0 as i32,
        y: (layout.spec_roster_origin().1 + 8 * (1 + slot)) as i32,
        w: 366,
        h: 8,
    }
}

/// The wide canvas begins where the wing fits left of a centred viewport: a layout has a wing
/// exactly when its canvas is at least 1716 pixels wide.
pub proof fn lemma_wide_exactly_from_1716(layout: Layout)
    requires
        layout.wf(),
        layout.width <= i32::MAX,
    ensures
        layout.wing is Some <==> layout.width >= 1716,
{
}

/// On a wide canvas the wing, the viewport, the right column and the band lie inside the
/// canvas and share no pixel; the wing ends where the viewport begins, the band runs from the
/// wing's left edge to the right column's right edge under the viewport, the viewport is
/// centred to the pixel, every roster row and its marker stay in the wing, the log starts at
/// the band's first column and is no narrower than on the narrow canvas, the band's columns
/// end inside it, and so does the minimap.
pub proof fn lemma_wide_layout_regions(layout: Layout)
    requires
        layout.wf(),
        layout.wing is Some,
    ensures
        ({
            let wing = layout.wing->0;
            let canvas = layout.spec_canvas();
            let viewport = layout.spec_viewport();
            let column = layout.spec_right_column();
            let band = layout.band;
            &&& canvas.spec_encloses(wing)
            &&& canvas.spec_encloses(viewport)
            &&& canvas.spec_encloses(column)
            &&& canvas.spec_encloses(band)
            &&& !wing.spec_overlaps(viewport) && !wing.spec_overlaps(column)
            &&& !wing.spec_overlaps(band) && !viewport.spec_overlaps(column)
            &&& !viewport.spec_overlaps(band) && !column.spec_overlaps(band)
            &&& wing.spec_right() == viewport.x
            &&& band.x == wing.x
            &&& band.spec_right() == column.spec_right()
            &&& band.y == viewport.spec_bottom()
            &&& (2 * viewport.x + 960 == layout.width || 2 * viewport.x + 961 == layout.width)
            &&& layout.spec_log_column() == 0
            &&& layout.spec_band_columns() - layout.spec_log_column() >= LOG_CELLS
            &&& layout.spec_band_cell(layout.spec_band_columns(), 0).0 <= band.spec_right()
            &&& 992 + layout.core.0 + 256 <= canvas.spec_right()
        }),
        forall|slot: int|
            0 <= slot < 6 ==> {
                let row = #[trigger] spec_roster_row(layout, slot);
                &&& layout.wing->0.spec_encloses(row)
                &&& layout.wing->0.spec_encloses(Rect { x: (row.x - 5) as i32, y: row.y, w: 3, h: 8 })
            },
{
}

/// Short of the wing the core is centred with the band under it: the band is the narrow
/// canvas's band moved by the core's offset, the log keeps its narrow width, and the canvas
/// holds the viewport, the right column and the band.
pub proof fn lemma_narrow_layout_regions(layout: Layout)
    requires
        layout.wf(),
        layout.width <= i32::MAX,
        layout.wing is None,
    ensures
        layout.core.0 == (layout.width - 1280) / 2,
        layout.core.1 == 0,
        layout.band == (Rect { x: layout.core.0, y: 540, w: 1280, h: 180 }),
        layout.spec_band_columns() - layout.spec_log_column() == LOG_CELLS,
        layout.spec_canvas().spec_encloses(layout.spec_viewport()),
        layout.spec_canvas().spec_encloses(layout.spec_right_column()),
        layout.spec_canvas().spec_encloses(layout.band),
        !layout.spec_viewport().spec_overlaps(layout.spec_right_column()),
        !layout.spec_viewport().spec_overlaps(layout.band),
        !layout.spec_right_column().spec_overlaps(layout.band),
        forall|slot: int|
            0 <= slot < 6 ==> layout.band.spec_encloses(#[trigger] spec_roster_row(layout, slot)),
{
}

/// At every width the log keeps its place: beside the roster at its narrow column and width
/// when the roster is in the band, from the band's first column and no narrower when the
/// roster is in the wing.
pub proof fn lemma_log_cells_at_any_width(width: u32)
    ensures
        ({
            let layout = spec_for_width(width as int);
            &&& layout.wing is None ==> layout.spec_log_column() == LOG_COLUMN
                && layout.spec_band_columns() - layout.spec_log_column() == LOG_CELLS
            &&& layout.wing is Some ==> layout.spec_log_column() == 0
                && layout.spec_band_columns() - layout.spec_log_column() >= LOG_CELLS
        }),
{
}

} // verus!
