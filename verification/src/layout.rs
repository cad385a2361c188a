//! Canvas geometry: the internal resolution is 1280x720, a viewport in the top-left, a right
//! column for the minimap, the location lines and the movement pad, and a bottom band for the
//! message line, the party and the help line. Text is laid out on a grid of 6x8 cells.
//! Every region is an expression of the inputs at the top of the file; the regions that are
//! rectangles are functions, each of which states its value.

use vstd::prelude::*;

verus! {

/// Internal canvas width in pixels.
pub const CANVAS_WIDTH: u32 = 1280;
/// Internal canvas height in pixels.
pub const CANVAS_HEIGHT: u32 = 720;
/// The viewport's top-left corner on the canvas.
pub const VIEWPORT_ORIGIN: (i32, i32) = (0, 0);
/// The viewport's size on the canvas; every tileset's `viewport` must match.
pub const VIEWPORT_SIZE: (u16, u16) = (960, 540);
/// The panel colour around the viewport.
pub const PANEL_COLOR: (u8, u8, u8) = (24, 24, 34);
/// A text cell as `(width, height)`: glyphs are 5x7 in a 6x8 cell.
pub const CELL: (i32, i32) = (6, 8);
/// Pixels per tile in the sidebar minimap.
pub const SIDEBAR_MAP_SCALE: i32 = 8;
/// Tiles across the sidebar minimap.
pub const SIDEBAR_MAP_TILES: i32 = 32;
/// Pixels per tile in the large automap overlay.
pub const OVERLAY_MAP_SCALE: i32 = 16;
/// Both maps' inset from the edges of their regions: one text row.
pub const MAP_INSET: i32 = 8;
/// The gap between the minimap and the first location line.
pub const HUD_GAP: i32 = 2;
/// A pad button's size.
pub const PAD_BUTTON: (u32, u32) = (96, 40);
/// The gap between pad buttons, across and down.
pub const PAD_GAP: (i32, i32) = (8, 8);
/// The pad's inset from the right column's right and bottom edges.
pub const PAD_INSET: (i32, i32) = (8, 8);
/// The band's text inset from the canvas edge.
pub const BAND_X: i32 = 4;
/// The band's padding above the message line.
pub const BAND_PAD: i32 = 2;

/// The canvas as text cells: `CANVAS_WIDTH / CELL.0`.
pub const COLUMNS: i32 = 213;
/// The canvas as text rows: `CANVAS_HEIGHT / CELL.1`.
pub const ROWS: i32 = 90;
/// Text columns a menu screen may use: the viewport's width in cells.
pub const MENU_COLUMNS: i32 = 160;
/// Rows of text a menu screen may use: the viewport's height in cells.
pub const MENU_ROWS: i32 = 67;
/// Text columns across the viewport.
pub const VIEWPORT_COLUMNS: i32 = 160;
/// Text rows down the viewport.
pub const VIEWPORT_ROWS: i32 = 67;
/// The sidebar minimap's side in pixels: `SIDEBAR_MAP_TILES * SIDEBAR_MAP_SCALE`.
pub const SIDEBAR_MAP_SIDE: u32 = 256;
/// The sidebar minimap on the canvas as `(x, y, width, height)`: centred in the right column,
/// `MAP_INSET` under its top.
pub const SIDEBAR_MAP: (i32, i32, u32, u32) = (992, 8, 256, 256);
/// Text cells across the right column, less a pixel at each side.
pub const HUD_COLUMNS: usize = 53;
/// Top-left of the three location lines: map name, position, clock; under the minimap, one
/// pixel in from the column's edge.
pub const HUD_LINES: [(i32, i32); 3] = [(961, 266), (961, 274), (961, 282)];
/// The pad's size: three buttons across, three down, the gaps between.
pub const PAD_SIZE: (u32, u32) = (304, 136);
/// Top-left of the message line.
pub const BAND_MESSAGE: (i32, i32) = (4, 542);
/// Text cells across the message and help lines.
pub const BAND_COLUMNS: usize = 212;
/// Top of each of the three party rows: a pixel under the message line, then one row each.
pub const BAND_ROWS: [i32; 3] = [551, 559, 567];
/// Left edge of the front-row column.
pub const BAND_FRONT_X: i32 = 4;
/// Left edge of the back-row column: the second half of the canvas.
pub const BAND_BACK_X: i32 = 644;
/// Text cells per party row.
pub const BAND_ROW_COLUMNS: usize = 106;
/// Top-left of the help line: a pixel under the last party row.
pub const BAND_HELP: (i32, i32) = (4, 576);

/// Whether a value fits an `i32`.
pub open spec fn fits_i32(v: int) -> bool {
    i32::MIN <= v <= i32::MAX
}

/// A rectangle in canvas pixels.
#[derive(Debug, Clone, Copy, PartialEq, Eq, Structural)]
pub struct Rect {
    /// Left edge.
    pub x: i32,
    /// Top edge.
    pub y: i32,
    /// Width.
    pub w: u32,
    /// Height.
    pub h: u32,
}

impl Rect {
    /// One past the right edge.
    pub open spec fn spec_right(self) -> int {
        self.x + self.w
    }

    /// One past the bottom edge.
    pub open spec fn spec_bottom(self) -> int {
        self.y + self.h
    }

    /// Whether the point is inside.
    pub open spec fn spec_contains(self, x: int, y: int) -> bool {
        self.x <= x < self.spec_right() && self.y <= y < self.spec_bottom()
    }

    /// Whether the two share a pixel.
    pub open spec fn spec_overlaps(self, other: Rect) -> bool {
        &&& self.x < other.spec_right()
        &&& other.x < self.spec_right()
        &&& self.y < other.spec_bottom()
        &&& other.y < self.spec_bottom()
    }

    /// Whether `inner` lies entirely inside.
    pub open spec fn spec_encloses(self, inner: Rect) -> bool {
        &&& inner.x >= self.x
        &&& inner.y >= self.y
        &&& inner.spec_right() <= self.spec_right()
        &&& inner.spec_bottom() <= self.spec_bottom()
    }

    /// Whether the far edges are canvas coordinates.
    pub open spec fn edges_fit(self) -> bool {
        fits_i32(self.spec_right()) && fits_i32(self.spec_bottom())
    }

    /// From its edges and size.
    pub fn new(x: i32, y: i32, w: u32, h: u32) -> (r: Rect)
        ensures
            r == (Rect { x, y, w, h }),
    {
        Rect { x, y, w, h }
    }

    /// One past the right edge.
    pub fn right(self) -> (r: i32)
        requires
            fits_i32(self.spec_right()),
        ensures
            r == self.spec_right(),
    {
        (self.x as i64 + self.w as i64) as i32
    }

    /// One past the bottom edge.
    pub fn bottom(self) -> (r: i32)
        requires
            fits_i32(self.spec_bottom()),
        ensures
            r == self.spec_bottom(),
    {
        (self.y as i64 + self.h as i64) as i32
    }

    /// Whether the point is inside.
    pub fn contains(self, x: i32, y: i32) -> (r: bool)
        ensures
            r == self.spec_contains(x as int, y as int),
    {
        let (x, y) = (x as i64, y as i64);
        x >= self.x as i64 && x < self.x as i64 + self.w as i64 && y >= self.y as i64 && y
            < self.y as i64 + self.h as i64
    }

    /// Whether the two share a pixel.
    pub fn overlaps(self, other: Rect) -> (r: bool)
        ensures
            r == self.spec_overlaps(other),
    {
        (self.x as i64) < other.x as i64 + other.w as i64 && (other.x as i64) < self.x as i64
            + self.w as i64 && (self.y as i64) < other.y as i64 + other.h as i64 && (other.y as i64)
            < self.y as i64 + self.h as i64
    }

    /// Whether `inner` lies entirely inside.
    pub fn encloses(self, inner: Rect) -> (r: bool)
        ensures
            r == self.spec_encloses(inner),
    {
        inner.x >= self.x && inner.y >= self.y && inner.x as i64 + inner.w as i64 <= self.x as i64
            + self.w as i64 && inner.y as i64 + inner.h as i64 <= self.y as i64 + self.h as i64
    }

    /// The same rectangle moved by `(dx, dy)`.
    pub fn shifted(self, dx: i32, dy: i32) -> (r: Rect)
        requires
            fits_i32(self.x + dx),
            fits_i32(self.y + dy),
        ensures
            r == (Rect { x: (self.x + dx) as i32, y: (self.y + dy) as i32, w: self.w, h: self.h }),
    {
        Rect { x: self.x + dx, y: self.y + dy, w: self.w, h: self.h }
    }

    /// As the `(x, y, width, height)` tuple the older helpers take.
    pub fn tuple(self) -> (r: (i32, i32, u32, u32))
        ensures
            r == (self.x, self.y, self.w, self.h),
    {
        (self.x, self.y, self.w, self.h)
    }
}

/// The canvas.
pub open spec fn spec_canvas() -> Rect {
    Rect { x: 0, y: 0, w: 1280, h: 720 }
}

/// The viewport: the top-left 960x540 of the canvas.
pub open spec fn spec_viewport() -> Rect {
    Rect { x: 0, y: 0, w: 960, h: 540 }
}

/// The large automap overlay's clip: the viewport less `MAP_INSET` at every edge.
pub open spec fn spec_overlay_map_clip() -> Rect {
    Rect { x: 8, y: 8, w: 944, h: 524 }
}

/// The right column beside the viewport: minimap, location lines, movement pad.
pub open spec fn spec_right_column() -> Rect {
    Rect { x: 960, y: 0, w: 320, h: 540 }
}

/// The movement pad, against the column's right and bottom edges less its inset.
pub open spec fn spec_pad() -> Rect {
    Rect { x: 968, y: 396, w: 304, h: 136 }
}

/// The bottom band under the viewport: message line, party rows, help line.
pub open spec fn spec_band() -> Rect {
    Rect { x: 0, y: 540, w: 1280, h: 180 }
}

/// The canvas.
pub fn canvas() -> (r: Rect)
    ensures
        r == spec_canvas(),
{
    Rect::new(0, 0, CANVAS_WIDTH, CANVAS_HEIGHT)
}

/// The viewport.
pub fn viewport() -> (r: Rect)
    ensures
        r == spec_viewport(),
{
    Rect::new(VIEWPORT_ORIGIN.0, VIEWPORT_ORIGIN.1, VIEWPORT_SIZE.0 as u32, VIEWPORT_SIZE.1 as u32)
}

/// The large automap overlay is clipped to this, inside the viewport.
pub fn overlay_map_clip() -> (r: Rect)
    ensures
        r == spec_overlay_map_clip(),
{
    let v = viewport();
    Rect::new(v.x + MAP_INSET, v.y + MAP_INSET, v.w - 2 * MAP_INSET as u32, v.h - 2 * MAP_INSET as u32)
}

/// The right column: minimap, location lines, movement pad.
pub fn right_column() -> (r: Rect)
    ensures
        r == spec_right_column(),
{
    let v = viewport();
    Rect::new(v.right(), v.y, CANVAS_WIDTH - v.right() as u32, v.h)
}

/// The movement pad.
pub fn pad() -> (r: Rect)
    ensures
        r == spec_pad(),
{
    let c = right_column();
    Rect::new(
        c.right() - PAD_INSET.0 - PAD_SIZE.0 as i32,
        c.bottom() - PAD_INSET.1 - PAD_SIZE.1 as i32,
        PAD_SIZE.0,
        PAD_SIZE.1,
    )
}

/// The bottom band: message line, party rows, help line.
pub fn band() -> (r: Rect)
    ensures
        r == spec_band(),
{
    let v = viewport();
    Rect::new(0, v.bottom(), CANVAS_WIDTH, CANVAS_HEIGHT - v.bottom() as u32)
}

/// The pad button at a column and row of the pad's grid.
pub open spec fn spec_pad_button(column: int, row: int) -> Rect {
    Rect { x: (968 + column * 104) as i32, y: (396 + row * 48) as i32, w: 96, h: 40 }
}

/// The pad button at a column and row of the pad's grid: buttons 96x40, 8 pixels apart.
pub fn pad_button(column: i32, row: i32) -> (r: Rect)
    requires
        fits_i32(column * 104),
        fits_i32(row * 48),
        fits_i32(968 + column * 104),
        fits_i32(396 + row * 48),
    ensures
        r == spec_pad_button(column as int, row as int),
{
    let p = pad();
    Rect::new(
        p.x + column * (PAD_BUTTON.0 as i32 + PAD_GAP.0),
        p.y + row * (PAD_BUTTON.1 as i32 + PAD_GAP.1),
        PAD_BUTTON.0,
        PAD_BUTTON.1,
    )
}

/// The pad's buttons in reading order: turn left, forward, turn right, sidestep left, back,
/// sidestep right, use (the full width of the bottom row).
pub open spec fn spec_pad_buttons(i: int) -> Rect {
    if i < 6 {
        spec_pad_button(i % 3, i / 3)
    } else {
        Rect { x: 968, y: 492, w: 304, h: 40 }
    }
}

/// The pad button `i` in reading order, for `i < 7`.
pub fn pad_buttons(i: usize) -> (r: Rect)
    requires
        i < 7,
    ensures
        r == spec_pad_buttons(i as int),
{
    if i < 6 {
        pad_button((i % 3) as i32, (i / 3) as i32)
    } else {
        let p = pad();
        Rect::new(p.x, pad_button(0, 2).y, p.w, PAD_BUTTON.1)
    }
}

/// The canvas pixel of a text cell in the menu area.
pub open spec fn spec_cell(column: int, row: int) -> (int, int) {
    (1 + column * 6, row * 8)
}

/// The canvas pixel of a text cell in the menu area: one pixel in from the left edge so the
/// first glyph has a margin, and the column past the viewport lands one pixel clear of it.
pub fn cell(column: i32, row: i32) -> (r: (i32, i32))
    requires
        fits_i32(1 + column * 6),
        fits_i32(row * 8),
    ensures
        r.0 == spec_cell(column as int, row as int).0,
        r.1 == spec_cell(column as int, row as int).1,
{
    (1 + column * CELL.0, row * CELL.1)
}

/// The box the menu screens paint in: the viewport, whose grid is the canvas grid.
pub fn menu_box() -> (r: Rect)
    ensures
        r == spec_viewport(),
{
    viewport()
}

/// The canvas pixel of a cell of the menu grid; the menu screens fill the viewport, so their
/// grid is the canvas grid.
pub fn menu_cell(column: i32, row: i32) -> (r: (i32, i32))
    requires
        fits_i32(1 + column * 6),
        fits_i32(row * 8),
    ensures
        r.0 == spec_cell(column as int, row as int).0,
        r.1 == spec_cell(column as int, row as int).1,
{
    cell(column, row)
}

/// The canvas y of a text row.
pub fn row_y(row: i32) -> (r: i32)
    requires
        fits_i32(row * 8),
    ensures
        r == row * 8,
{
    row * CELL.1
}

/// The viewport-wide strip from row `from` up to row `to` (exclusive); a strip whose rows run
/// backwards has the height that wraps round, as the cast gives it.
pub fn rows(from: i32, to: i32) -> (r: Rect)
    requires
        fits_i32(from * 8),
        fits_i32((to - from) * 8),
    ensures
        r.h == ((to - from) * 8) as u32,
        r.x == 0,
        r.y == from * 8,
        r.w == 960,
{
    let v = viewport();
    Rect::new(v.x, v.y + row_y(from), v.w, ((to - from) * CELL.1) as u32)
}

/// The location line `i`: under the minimap, one pixel in from the column's edge.
pub fn hud_line(i: i32) -> (r: (i32, i32))
    requires
        fits_i32(i * 8),
        fits_i32(266 + i * 8),
    ensures
        r == (961i32, (266 + 8 * i) as i32),
{
    (cell(MENU_COLUMNS, 0).0, SIDEBAR_MAP.1 + SIDEBAR_MAP.3 as i32 + HUD_GAP + i * CELL.1)
}

/// The top of party row `i`: a pixel under the message line, then one row each.
pub fn band_row(i: i32) -> (r: i32)
    requires
        fits_i32(i * 8),
        fits_i32(551 + i * 8),
    ensures
        r == 551 + 8 * i,
{
    BAND_MESSAGE.1 + CELL.1 + 1 + i * CELL.1
}

/// Overlap is symmetric: two rectangles share a pixel whichever is asked.
pub proof fn lemma_overlaps_symmetric(a: Rect, b: Rect)
    ensures
        a.spec_overlaps(b) == b.spec_overlaps(a),
{
}

/// A rectangle that encloses another contains every point the other contains.
pub proof fn lemma_encloses_contains(outer: Rect, inner: Rect, x: int, y: int)
    requires
        outer.spec_encloses(inner),
        inner.spec_contains(x, y),
    ensures
        outer.spec_contains(x, y),
{
}

/// Enclosing is transitive.
pub proof fn lemma_encloses_transitive(a: Rect, b: Rect, c: Rect)
    requires
        a.spec_encloses(b),
        b.spec_encloses(c),
    ensures
        a.spec_encloses(c),
{
}

/// Two rectangles, one enclosed by a third and one disjoint from it, share no pixel, when the
/// enclosed one is not empty.
pub proof fn lemma_enclosed_disjoint(outer: Rect, inner: Rect, other: Rect)
    requires
        outer.spec_encloses(inner),
        !outer.spec_overlaps(other),
        inner.w > 0,
        inner.h > 0,
    ensures
        !inner.spec_overlaps(other),
{
}

} // verus!
