//! The viewport's draw list: what to paint where, in canvas pixels, later ops over earlier
//! ones; and the small colour and clipping rules the automap and the depth shading share.
//!
//! Order within the viewport's detail rows: rows far to near; within a row floors and
//! ceilings, then side walls, then front walls and doors, then blocks (a block's near face
//! stands a whole tile nearer than the row's walls); within each of those, outer offsets
//! first. Each shared wall plane is drawn once: a tile's left edge at offsets `<= 0`, its
//! right edge at offsets `>= 0`.

use vstd::prelude::*;
use crate::layout::fits_i32;
use crate::raster::Rgb;
use crate::debug_menu::Facing;
use crate::canvas::{half_of, half_toward_zero, wrap_i32, wrap_to_i32};

verus! {

/// What to paint.
#[derive(Debug, PartialEq, Eq)]
pub enum Paint {
    /// A pack-relative image, drawn at its natural size.
    Sprite(String),
    /// A solid rectangle.
    Fill {
        /// RGB.
        color: Rgb,
        /// Width in pixels.
        width: u32,
        /// Height in pixels.
        height: u32,
    },
}

/// One draw, top-left in canvas pixels. Later ops paint over earlier ones.
#[derive(Debug, PartialEq, Eq)]
pub struct DrawOp {
    /// What.
    pub paint: Paint,
    /// Canvas x of the top-left corner.
    pub x: i32,
    /// Canvas y of the top-left corner.
    pub y: i32,
}

/// A solid rectangle as a draw op.
pub open spec fn spec_fill_op(color: Rgb, x: int, y: int, width: int, height: int) -> DrawOp {
    DrawOp { paint: Paint::Fill { color, width: width as u32, height: height as u32 }, x: x as i32, y: y as i32 }
}

impl DrawOp {
    /// An image at a viewport position.
    pub fn sprite(path: &str, x: i16, y: i16) -> (r: DrawOp)
        ensures
            r.paint matches Paint::Sprite(p) && p@ == path@,
            r.x == x,
            r.y == y,
    {
        DrawOp { paint: Paint::Sprite(path.to_string()), x: x as i32, y: y as i32 }
    }

    /// A solid rectangle.
    pub fn fill(color: Rgb, x: i32, y: i32, width: u32, height: u32) -> (r: DrawOp)
        ensures
            r == spec_fill_op(color, x as int, y as int, width as int, height as int),
    {
        DrawOp { paint: Paint::Fill { color, width, height }, x, y }
    }
}

/// One channel scaled by `(2 * span - step) / (2 * span)`, rounded down.
pub open spec fn spec_scale(c: int, span: int, step: int) -> int {
    (c * (2 * span - step)) / (2 * span)
}

/// How far past the detail depth the shading reaches: at least one.
pub open spec fn spec_span(detail: int, visibility: int) -> int {
    if visibility - detail < 1 {
        1
    } else {
        visibility - detail
    }
}

/// How many rows past the detail depth a depth is, at most the span.
pub open spec fn spec_step(depth: int, detail: int, span: int) -> int {
    let past = if depth - detail < 0 {
        0
    } else {
        depth - detail
    };
    if past < span {
        past
    } else {
        span
    }
}

fn scale(c: u8, span: u32, step: u32) -> (r: u8)
    requires
        1 <= span <= 255,
        step <= span,
    ensures
        r == spec_scale(c as int, span as int, step as int),
{
    let factor: u32 = 2 * span - step;
    proof {
        assert(c as int * factor as int <= 255 * 510) by (nonlinear_arith)
            requires
                c <= 255,
                factor <= 510,
        ;
    }
    let num: u32 = c as u32 * factor;
    proof {
        assert(num as int / (2 * span as int) <= c as int) by (nonlinear_arith)
            requires
                num as int == c as int * factor as int,
                factor <= 2 * span,
                span >= 1,
                c >= 0,
        ;
    }
    (num / (2 * span)) as u8
}

/// Darken a colour with distance beyond detail depth: full at the first horizon row, half at
/// the visibility limit.
pub fn shade(color: Rgb, depth: u8, detail: u8, visibility: u8) -> (r: Rgb)
    ensures
        r.0 == spec_scale(color.0 as int, spec_span(detail as int, visibility as int), spec_step(depth as int, detail as int, spec_span(detail as int, visibility as int))),
        r.1 == spec_scale(color.1 as int, spec_span(detail as int, visibility as int), spec_step(depth as int, detail as int, spec_span(detail as int, visibility as int))),
        r.2 == spec_scale(color.2 as int, spec_span(detail as int, visibility as int), spec_step(depth as int, detail as int, spec_span(detail as int, visibility as int))),
{
    let past_detail: u32 = if visibility > detail {
        (visibility - detail) as u32
    } else {
        0
    };
    let span: u32 = if past_detail < 1 {
        1
    } else {
        past_detail
    };
    let past: u32 = if depth > detail {
        (depth - detail) as u32
    } else {
        0
    };
    let step: u32 = if past < span {
        past
    } else {
        span
    };
    (scale(color.0, span, step), scale(color.1, span, step), scale(color.2, span, step))
}

/// A colour at half strength.
pub fn dim(c: Rgb) -> (r: Rgb)
    ensures
        r == ((c.0 / 2) as u8, (c.1 / 2) as u8, (c.2 / 2) as u8),
{
    (c.0 / 2, c.1 / 2, c.2 / 2)
}

/// The larger of two.
pub open spec fn spec_max(a: int, b: int) -> int {
    if a < b {
        b
    } else {
        a
    }
}

/// The smaller of two.
pub open spec fn spec_min(a: int, b: int) -> int {
    if a < b {
        a
    } else {
        b
    }
}

/// A fill cut down to `rect`, or `None` when nothing remains. Sprites pass through.
pub open spec fn spec_clip(op: DrawOp, rect: (i32, i32, u32, u32)) -> Option<DrawOp> {
    match op.paint {
        Paint::Fill { color, width, height } => {
            let x0 = spec_max(op.x as int, rect.0 as int);
            let y0 = spec_max(op.y as int, rect.1 as int);
            let x1 = spec_min(op.x + width, rect.0 + rect.2);
            let y1 = spec_min(op.y + height, rect.1 + rect.3);
            if x1 > x0 && y1 > y0 {
                Some(spec_fill_op(color, x0, y0, x1 - x0, y1 - y0))
            } else {
                None
            }
        },
        Paint::Sprite(_) => Some(op),
    }
}

/// A fill cut down to `rect`, or `None` when nothing remains. Sprites pass through.
pub fn clip(op: DrawOp, rect: (i32, i32, u32, u32)) -> (r: Option<DrawOp>)
    requires
        op.paint matches Paint::Fill { width, height, .. } ==> fits_i32(op.x + width) && fits_i32(op.y + height),
        fits_i32(rect.0 + rect.2),
        fits_i32(rect.1 + rect.3),
    ensures
        r == spec_clip(op, rect),
{
    match op.paint {
        Paint::Fill { color, width, height } => {
            let x0 = if op.x < rect.0 {
                rect.0
            } else {
                op.x
            };
            let y0 = if op.y < rect.1 {
                rect.1
            } else {
                op.y
            };
            let ox1 = op.x as i64 + width as i64;
            let oy1 = op.y as i64 + height as i64;
            let rx1 = rect.0 as i64 + rect.2 as i64;
            let ry1 = rect.1 as i64 + rect.3 as i64;
            let x1 = if ox1 < rx1 {
                ox1
            } else {
                rx1
            };
            let y1 = if oy1 < ry1 {
                oy1
            } else {
                ry1
            };
            if x1 > x0 as i64 && y1 > y0 as i64 {
                Some(DrawOp::fill(color, x0, y0, (x1 - x0 as i64) as u32, (y1 - y0 as i64) as u32))
            } else {
                None
            }
        },
        Paint::Sprite(_) => Some(op),
    }
}


/// What stands on one edge of a tile in view.
#[derive(Debug, Clone, Copy, PartialEq, Eq, Structural)]
pub enum EdgeView {
    /// Nothing.
    Open,
    /// A wall.
    Wall,
    /// A door, open or shut.
    Door { open: bool },
}

/// One tile of the view cone: how far ahead and aside, what terrain, and its edges.
#[derive(Debug, Clone, Copy, PartialEq, Eq, Structural)]
pub struct TileView {
    /// Rows ahead of the party, zero for its own.
    pub depth: u8,
    /// Tiles aside, negative to the left.
    pub offset: i8,
    /// The terrain's index in the map's terrain list.
    pub terrain: u16,
    /// The left edge.
    pub left: EdgeView,
    /// The right edge.
    pub right: EdgeView,
    /// The far edge.
    pub front: EdgeView,
}

/// The surfaces a terrain shows: its floor, a ceiling over it, a block standing on it.
#[derive(Debug, Clone, PartialEq, Eq)]
pub struct TerrainSurfaces {
    /// The floor's surface.
    pub floor: String,
    /// The ceiling's surface, where it has one.
    pub ceiling: Option<String>,
    /// The block's surface, where the terrain is one.
    pub block: Option<String>,
}

/// The surfaces a map draws with.
#[derive(Debug, Clone, PartialEq, Eq)]
pub struct MapSurfaces {
    /// Per terrain index.
    pub terrains: Vec<TerrainSurfaces>,
    /// A wall seen on a tile's left.
    pub wall_left: String,
    /// A wall seen on a tile's right.
    pub wall_right: String,
    /// A wall seen ahead.
    pub wall_front: String,
    /// A shut door.
    pub door: String,
    /// An open door's frame, where the map draws one.
    pub door_open: Option<String>,
}

/// One slot of the tileset, as the tileset resolves it: the image a surface shows at a depth
/// and offset, and where.
#[derive(Debug, Clone, PartialEq, Eq)]
pub struct Slot {
    /// The surface.
    pub surface: String,
    /// Rows ahead.
    pub depth: u8,
    /// Tiles aside.
    pub offset: i8,
    /// The pack-relative image.
    pub path: String,
    /// The viewport x of its top-left corner.
    pub x: i16,
    /// The viewport y of its top-left corner.
    pub y: i16,
}

/// The image and position a surface shows at a depth and offset: the first slot for them.
pub open spec fn spec_slot(slots: Seq<Slot>, surface: Seq<char>, depth: int, offset: int) -> Option<(Seq<char>, int, int)>
    decreases slots.len(),
{
    if slots.len() == 0 {
        None
    } else if slots[0].surface@ == surface && slots[0].depth == depth && slots[0].offset == offset {
        Some((slots[0].path@, slots[0].x as int, slots[0].y as int))
    } else {
        spec_slot(slots.drop_first(), surface, depth, offset)
    }
}

/// A draw op that paints the image at the position.
pub open spec fn op_is(op: DrawOp, want: (Seq<char>, int, int)) -> bool {
    &&& op.paint matches Paint::Sprite(p) && p@ == want.0
    &&& op.x == want.1
    &&& op.y == want.2
}

/// Draw ops that paint the images at the positions, one for one.
pub open spec fn ops_are(ops: Seq<DrawOp>, want: Seq<(Seq<char>, int, int)>) -> bool {
    &&& ops.len() == want.len()
    &&& forall|k: int| 0 <= k < ops.len() ==> op_is(#[trigger] ops[k], want[k])
}

/// Nothing, or the one.
pub open spec fn opt_seq(o: Option<(Seq<char>, int, int)>) -> Seq<(Seq<char>, int, int)> {
    match o {
        Some(x) => seq![x],
        None => Seq::empty(),
    }
}

/// How far aside, either way.
pub open spec fn spec_abs(offset: int) -> int {
    if offset < 0 {
        -offset
    } else {
        offset
    }
}

/// The tiles of a row at one distance aside, in their order.
pub open spec fn spec_pick(tiles: Seq<TileView>, depth: int, aside: int) -> Seq<TileView>
    decreases tiles.len(),
{
    if tiles.len() == 0 {
        Seq::empty()
    } else {
        spec_pick(tiles.drop_last(), depth, aside) + (if tiles.last().depth == depth && spec_abs(
            tiles.last().offset as int,
        ) == aside {
            seq![tiles.last()]
        } else {
            Seq::empty()
        })
    }
}

/// The tiles of a row from the outermost offset in to `aside` tiles aside: outer offsets
/// first, tiles at the same distance in their order.
pub open spec fn spec_row_down_to(tiles: Seq<TileView>, depth: int, aside: int) -> Seq<TileView>
    decreases 129 - aside,
{
    if aside > 128 {
        Seq::empty()
    } else {
        spec_row_down_to(tiles, depth, aside + 1) + spec_pick(tiles, depth, aside)
    }
}

/// The tiles of a row, outer offsets first.
pub open spec fn spec_row(tiles: Seq<TileView>, depth: int) -> Seq<TileView> {
    spec_row_down_to(tiles, depth, 0)
}

/// The surfaces of a tile's terrain.
pub open spec fn spec_terrain(map: MapSurfaces, t: TileView) -> TerrainSurfaces {
    map.terrains@[t.terrain as int]
}

/// What one tile adds in one pass of its row: 0 floors and ceilings, 1 side walls, 2 fronts
/// and doors, 3 blocks.
pub open spec fn spec_tile_ops(t: TileView, pass: int, depth: int, map: MapSurfaces, slots: Seq<Slot>) -> Seq<(Seq<char>, int, int)> {
    let at = |surface: Seq<char>| opt_seq(spec_slot(slots, surface, depth, t.offset as int));
    let terrain = spec_terrain(map, t);
    if pass == 0 {
        at(terrain.floor@) + match terrain.ceiling {
            Some(c) => at(c@),
            None => Seq::empty(),
        }
    } else if pass == 1 {
        (if t.offset <= 0 && t.left != EdgeView::Open {
            at(map.wall_left@)
        } else {
            Seq::empty()
        }) + (if t.offset >= 0 && t.right != EdgeView::Open {
            at(map.wall_right@)
        } else {
            Seq::empty()
        })
    } else if pass == 2 {
        match t.front {
            EdgeView::Wall => at(map.wall_front@),
            EdgeView::Door { open } => if !open {
                at(map.door@)
            } else {
                match map.door_open {
                    Some(frame) => at(frame@),
                    None => Seq::empty(),
                }
            },
            EdgeView::Open => Seq::empty(),
        }
    } else {
        match terrain.block {
            Some(b) => at(b@),
            None => Seq::empty(),
        }
    }
}

/// One pass over a row's tiles, in order.
pub open spec fn spec_pass(row: Seq<TileView>, pass: int, depth: int, map: MapSurfaces, slots: Seq<Slot>) -> Seq<(Seq<char>, int, int)>
    decreases row.len(),
{
    if row.len() == 0 {
        Seq::empty()
    } else {
        spec_pass(row.drop_last(), pass, depth, map, slots) + spec_tile_ops(row.last(), pass, depth, map, slots)
    }
}

/// A row's draws: floors and ceilings, side walls, fronts and doors, blocks.
pub open spec fn spec_row_ops(tiles: Seq<TileView>, depth: int, map: MapSurfaces, slots: Seq<Slot>) -> Seq<(Seq<char>, int, int)> {
    let row = spec_row(tiles, depth);
    spec_pass(row, 0, depth, map, slots) + spec_pass(row, 1, depth, map, slots) + spec_pass(row, 2, depth, map, slots)
        + spec_pass(row, 3, depth, map, slots)
}

/// The rows from `detail - 1` down to `depth`, far to near.
pub open spec fn spec_rows_down_to(tiles: Seq<TileView>, detail: int, depth: int, map: MapSurfaces, slots: Seq<Slot>) -> Seq<(Seq<char>, int, int)>
    decreases detail - depth,
{
    if depth >= detail {
        Seq::empty()
    } else {
        spec_rows_down_to(tiles, detail, depth + 1, map, slots) + spec_row_ops(tiles, depth, map, slots)
    }
}

/// The viewport's detail rows, far to near.
pub open spec fn spec_detail_ops(tiles: Seq<TileView>, detail: int, map: MapSurfaces, slots: Seq<Slot>) -> Seq<(Seq<char>, int, int)> {
    spec_rows_down_to(tiles, detail, 0, map, slots)
}

/// The image and position a surface shows at a depth and offset.
fn find_slot(slots: &[Slot], surface: &str, depth: u8, offset: i8) -> (r: Option<usize>)
    ensures
        match r {
            Some(i) => i < slots@.len() && spec_slot(slots@, surface@, depth as int, offset as int) == Some(
                (slots@[i as int].path@, slots@[i as int].x as int, slots@[i as int].y as int),
            ),
            None => spec_slot(slots@, surface@, depth as int, offset as int) is None,
        },
{
    let mut i: usize = 0;
    assert(slots@.skip(0) =~= slots@);
    while i < slots.len()
        invariant
            i <= slots@.len(),
            spec_slot(slots@, surface@, depth as int, offset as int) == spec_slot(
                slots@.skip(i as int),
                surface@,
                depth as int,
                offset as int,
            ),
        decreases slots@.len() - i,
    {
        assert(slots@.skip(i as int)[0] == slots@[i as int]);
        assert(slots@.skip(i as int).drop_first() =~= slots@.skip(i + 1));
        let s = &slots[i];
        if crate::creation_menu::same(s.surface.as_str(), surface) && s.depth == depth && s.offset == offset {
            return Some(i);
        }
        i = i + 1;
    }
    None
}

/// Push the sprite a surface shows at a depth and offset, if the tileset has one.
fn push_slot(
    ops: &mut Vec<DrawOp>,
    Ghost(want): Ghost<Seq<(Seq<char>, int, int)>>,
    slots: &[Slot],
    surface: &str,
    depth: u8,
    offset: i8,
)
    requires
        ops_are(old(ops)@, want),
    ensures
        ops_are(final(ops)@, want + opt_seq(spec_slot(slots@, surface@, depth as int, offset as int))),
{
    let ghost more = opt_seq(spec_slot(slots@, surface@, depth as int, offset as int));
    match find_slot(slots, surface, depth, offset) {
        Some(i) => {
            let op = DrawOp::sprite(slots[i].path.as_str(), slots[i].x, slots[i].y);
            ops.push(op);
            assert forall|k: int| 0 <= k < ops@.len() implies op_is(#[trigger] ops@[k], (want + more)[k]) by {
                if k < want.len() {
                    assert(ops@[k] == old(ops)@[k]);
                }
            }
        },
        None => {
            assert(want + more =~= want);
        },
    }
}

/// Push what one tile adds in one pass of its row.
fn push_tile_ops(
    ops: &mut Vec<DrawOp>,
    Ghost(want): Ghost<Seq<(Seq<char>, int, int)>>,
    t: &TileView,
    pass: u8,
    depth: u8,
    map: &MapSurfaces,
    slots: &[Slot],
)
    requires
        ops_are(old(ops)@, want),
        (t.terrain as int) < map.terrains@.len(),
    ensures
        ops_are(final(ops)@, want + spec_tile_ops(*t, pass as int, depth as int, *map, slots@)),
{
    let ghost at = |surface: Seq<char>| opt_seq(spec_slot(slots@, surface, depth as int, t.offset as int));
    let terrain = &map.terrains[t.terrain as usize];
    if pass == 0 {
        push_slot(ops, Ghost(want), slots, terrain.floor.as_str(), depth, t.offset);
        let ghost w1 = want + at(terrain.floor@);
        match &terrain.ceiling {
            Some(c) => {
                push_slot(ops, Ghost(w1), slots, c.as_str(), depth, t.offset);
                assert(w1 + at(c@) =~= want + spec_tile_ops(*t, pass as int, depth as int, *map, slots@));
            },
            None => {
                assert(w1 =~= want + spec_tile_ops(*t, pass as int, depth as int, *map, slots@));
            },
        }
    } else if pass == 1 {
        let ghost mut w = want;
        if t.offset <= 0 && t.left != EdgeView::Open {
            push_slot(ops, Ghost(w), slots, map.wall_left.as_str(), depth, t.offset);
            proof {
                w = w + at(map.wall_left@);
            }
        }
        let ghost w1 = w;
        if t.offset >= 0 && t.right != EdgeView::Open {
            push_slot(ops, Ghost(w), slots, map.wall_right.as_str(), depth, t.offset);
            proof {
                w = w + at(map.wall_right@);
            }
        }
        assert(w =~= want + spec_tile_ops(*t, pass as int, depth as int, *map, slots@));
    } else if pass == 2 {
        match t.front {
            EdgeView::Wall => {
                push_slot(ops, Ghost(want), slots, map.wall_front.as_str(), depth, t.offset);
            },
            EdgeView::Door { open } => {
                if !open {
                    push_slot(ops, Ghost(want), slots, map.door.as_str(), depth, t.offset);
                } else {
                    match &map.door_open {
                        Some(frame) => {
                            push_slot(ops, Ghost(want), slots, frame.as_str(), depth, t.offset);
                        },
                        None => {
                            assert(want + spec_tile_ops(*t, pass as int, depth as int, *map, slots@) =~= want);
                        },
                    }
                }
            },
            EdgeView::Open => {
                assert(want + spec_tile_ops(*t, pass as int, depth as int, *map, slots@) =~= want);
            },
        }
    } else {
        match &terrain.block {
            Some(b) => {
                push_slot(ops, Ghost(want), slots, b.as_str(), depth, t.offset);
            },
            None => {
                assert(want + spec_tile_ops(*t, pass as int, depth as int, *map, slots@) =~= want);
            },
        }
    }
}

/// Every tile of a row names a terrain of the map.
pub open spec fn terrains_known(row: Seq<TileView>, map: MapSurfaces) -> bool {
    forall|k: int| 0 <= k < row.len() ==> (#[trigger] row[k].terrain as int) < map.terrains@.len()
}

/// Push one pass over a row's tiles.
fn push_pass(
    ops: &mut Vec<DrawOp>,
    Ghost(want): Ghost<Seq<(Seq<char>, int, int)>>,
    row: &Vec<TileView>,
    pass: u8,
    depth: u8,
    map: &MapSurfaces,
    slots: &[Slot],
)
    requires
        ops_are(old(ops)@, want),
        terrains_known(row@, *map),
    ensures
        ops_are(final(ops)@, want + spec_pass(row@, pass as int, depth as int, *map, slots@)),
{
    let mut i: usize = 0;
    assert(want + spec_pass(row@.take(0), pass as int, depth as int, *map, slots@) =~= want);
    while i < row.len()
        invariant
            i <= row@.len(),
            terrains_known(row@, *map),
            ops_are(ops@, want + spec_pass(row@.take(i as int), pass as int, depth as int, *map, slots@)),
        decreases row@.len() - i,
    {
        let ghost before = want + spec_pass(row@.take(i as int), pass as int, depth as int, *map, slots@);
        assert(row@[i as int].terrain < map.terrains@.len());
        push_tile_ops(ops, Ghost(before), &row[i], pass, depth, map, slots);
        proof {
            let t = row@.take(i + 1);
            assert(t.drop_last() =~= row@.take(i as int));
            assert(t.last() == row@[i as int]);
            assert(before + spec_tile_ops(row@[i as int], pass as int, depth as int, *map, slots@) =~= want
                + spec_pass(t, pass as int, depth as int, *map, slots@));
        }
        i = i + 1;
    }
    assert(row@.take(row@.len() as int) =~= row@);
}

/// Push the tiles of a row at one distance aside, in their order.
fn pick_into(row: &mut Vec<TileView>, tiles: &[TileView], depth: u8, aside: i16)
    ensures
        final(row)@ == old(row)@ + spec_pick(tiles@, depth as int, aside as int),
{
    let mut i: usize = 0;
    assert(old(row)@ + spec_pick(tiles@.take(0), depth as int, aside as int) =~= old(row)@);
    while i < tiles.len()
        invariant
            i <= tiles@.len(),
            row@ == old(row)@ + spec_pick(tiles@.take(i as int), depth as int, aside as int),
        decreases tiles@.len() - i,
    {
        let t = tiles[i];
        let a: i16 = if t.offset < 0 {
            -(t.offset as i16)
        } else {
            t.offset as i16
        };
        let ghost before = row@;
        if t.depth == depth && a == aside {
            row.push(t);
        }
        proof {
            let s = tiles@.take(i + 1);
            assert(s.drop_last() =~= tiles@.take(i as int));
            assert(s.last() == tiles@[i as int]);
            assert(row@ =~= old(row)@ + spec_pick(s, depth as int, aside as int));
        }
        i = i + 1;
    }
    assert(tiles@.take(tiles@.len() as int) =~= tiles@);
}

/// The tiles of a row, outer offsets first, tiles at the same distance aside in their order.
fn row_of(tiles: &[TileView], depth: u8) -> (r: Vec<TileView>)
    ensures
        r@ == spec_row(tiles@, depth as int),
{
    let mut row: Vec<TileView> = Vec::new();
    let mut aside: i16 = 128;
    while aside >= 0
        invariant
            -1 <= aside <= 128,
            row@ == spec_row_down_to(tiles@, depth as int, aside + 1),
        decreases aside + 1,
    {
        pick_into(&mut row, tiles, depth, aside);
        aside = aside - 1;
    }
    row
}

/// Every tile of the row is one of the tiles.
proof fn lemma_row_from_tiles(tiles: Seq<TileView>, depth: int, aside: int)
    ensures
        forall|k: int|
            0 <= k < spec_row_down_to(tiles, depth, aside).len() ==> tiles.contains(
                #[trigger] spec_row_down_to(tiles, depth, aside)[k],
            ),
    decreases 129 - aside,
{
    if aside <= 128 {
        lemma_row_from_tiles(tiles, depth, aside + 1);
        lemma_pick_from_tiles(tiles, depth, aside);
        let a = spec_row_down_to(tiles, depth, aside + 1);
        let b = spec_pick(tiles, depth, aside);
        assert forall|k: int| 0 <= k < (a + b).len() implies tiles.contains(#[trigger] (a + b)[k]) by {
            if k < a.len() {
                assert((a + b)[k] == a[k]);
            } else {
                assert((a + b)[k] == b[k - a.len()]);
            }
        }
    }
}

proof fn lemma_pick_from_tiles(tiles: Seq<TileView>, depth: int, aside: int)
    ensures
        forall|k: int| 0 <= k < spec_pick(tiles, depth, aside).len() ==> tiles.contains(
            #[trigger] spec_pick(tiles, depth, aside)[k],
        ),
    decreases tiles.len(),
{
    if tiles.len() > 0 {
        lemma_pick_from_tiles(tiles.drop_last(), depth, aside);
        let a = spec_pick(tiles.drop_last(), depth, aside);
        assert forall|k: int| 0 <= k < spec_pick(tiles, depth, aside).len() implies tiles.contains(
            #[trigger] spec_pick(tiles, depth, aside)[k],
        ) by {
            if k < a.len() {
                let x = a[k];
                let j = choose|j: int| 0 <= j < tiles.drop_last().len() && tiles.drop_last()[j] == x;
                assert(tiles[j] == x);
            } else {
                assert(tiles[tiles.len() - 1] == tiles.last());
            }
        }
    }
}

/// Every tile in the detail rows names a terrain of the map.
pub open spec fn detail_terrains_known(tiles: Seq<TileView>, detail: int, map: MapSurfaces) -> bool {
    forall|k: int|
        0 <= k < tiles.len() && (#[trigger] tiles[k]).depth < detail ==> (tiles[k].terrain as int)
            < map.terrains@.len()
}

/// The viewport's detail rows from the tileset's slots, far to near: within a row floors
/// and ceilings, then side walls, then front walls and doors, then blocks, outer offsets
/// first; a tile's left wall at offsets `<= 0` and its right wall at offsets `>= 0`.
pub fn detail_ops(tiles: &[TileView], detail_depth: u8, map: &MapSurfaces, slots: &[Slot]) -> (r: Vec<DrawOp>)
    requires
        detail_terrains_known(tiles@, detail_depth as int, *map),
    ensures
        ops_are(r@, spec_detail_ops(tiles@, detail_depth as int, *map, slots@)),
{
    let mut ops: Vec<DrawOp> = Vec::new();
    let mut depth = detail_depth;
    while depth > 0
        invariant
            depth <= detail_depth,
            detail_terrains_known(tiles@, detail_depth as int, *map),
            ops_are(ops@, spec_rows_down_to(tiles@, detail_depth as int, depth as int, *map, slots@)),
        decreases depth,
    {
        depth = depth - 1;
        let row = row_of(tiles, depth);
        proof {
            lemma_row_from_tiles(tiles@, depth as int, 0);
            assert forall|k: int| 0 <= k < row@.len() implies (#[trigger] row@[k].terrain as int)
                < map.terrains@.len() by {
                assert(tiles@.contains(row@[k]));
                let j = choose|j: int| 0 <= j < tiles@.len() && tiles@[j] == row@[k];
                assert(spec_row(tiles@, depth as int) == spec_row_down_to(tiles@, depth as int, 0));
                lemma_row_depth(tiles@, depth as int, 0);
                assert(tiles@[j].depth < detail_depth);
            }
        }
        let ghost w0 = spec_rows_down_to(tiles@, detail_depth as int, depth + 1, *map, slots@);
        push_pass(&mut ops, Ghost(w0), &row, 0, depth, map, slots);
        let ghost w1 = w0 + spec_pass(row@, 0, depth as int, *map, slots@);
        push_pass(&mut ops, Ghost(w1), &row, 1, depth, map, slots);
        let ghost w2 = w1 + spec_pass(row@, 1, depth as int, *map, slots@);
        push_pass(&mut ops, Ghost(w2), &row, 2, depth, map, slots);
        let ghost w3 = w2 + spec_pass(row@, 2, depth as int, *map, slots@);
        push_pass(&mut ops, Ghost(w3), &row, 3, depth, map, slots);
        assert(w3 + spec_pass(row@, 3, depth as int, *map, slots@) =~= spec_rows_down_to(
            tiles@,
            detail_depth as int,
            depth as int,
            *map,
            slots@,
        ));
    }
    ops
}

/// Every tile of a row stands at the row's depth.
proof fn lemma_row_depth(tiles: Seq<TileView>, depth: int, aside: int)
    ensures
        forall|k: int|
            0 <= k < spec_row_down_to(tiles, depth, aside).len() ==> (#[trigger] spec_row_down_to(
                tiles,
                depth,
                aside,
            )[k]).depth == depth,
    decreases 129 - aside,
{
    if aside <= 128 {
        lemma_row_depth(tiles, depth, aside + 1);
        lemma_pick_depth(tiles, depth, aside);
        let a = spec_row_down_to(tiles, depth, aside + 1);
        let b = spec_pick(tiles, depth, aside);
        assert forall|k: int| 0 <= k < (a + b).len() implies (#[trigger] (a + b)[k]).depth == depth by {
            if k < a.len() {
                assert((a + b)[k] == a[k]);
            } else {
                assert((a + b)[k] == b[k - a.len()]);
            }
        }
    }
}

proof fn lemma_pick_depth(tiles: Seq<TileView>, depth: int, aside: int)
    ensures
        forall|k: int|
            0 <= k < spec_pick(tiles, depth, aside).len() ==> (#[trigger] spec_pick(tiles, depth, aside)[k]).depth
                == depth,
    decreases tiles.len(),
{
    if tiles.len() > 0 {
        lemma_pick_depth(tiles.drop_last(), depth, aside);
    }
}


/// Which sides of a tile something stands on.
#[derive(Debug, Clone, Copy, PartialEq, Eq, Structural)]
pub struct Sides {
    /// The north edge.
    pub north: bool,
    /// The south edge.
    pub south: bool,
    /// The west edge.
    pub west: bool,
    /// The east edge.
    pub east: bool,
}

/// A tile the party knows: where, its terrain's colour, whether visited, its walls and doors.
#[derive(Debug, Clone, Copy, PartialEq, Eq)]
pub struct KnownTile {
    /// Column.
    pub x: u16,
    /// Row.
    pub y: u16,
    /// The terrain's colour.
    pub color: Rgb,
    /// Whether the party has stood there.
    pub visited: bool,
    /// Walls on its edges.
    pub walls: Sides,
    /// Doors on its edges.
    pub doors: Sides,
}

/// The automap's scale: at least one pixel per tile.
pub open spec fn spec_scale_of(scale: i32) -> int {
    if scale < 1 {
        1
    } else {
        scale as int
    }
}

/// A colour at half strength.
pub open spec fn spec_dim(c: Rgb) -> Rgb {
    ((c.0 / 2) as u8, (c.1 / 2) as u8, (c.2 / 2) as u8)
}

/// One edge of a known tile: black for a wall, amber for a door, nothing when open.
pub open spec fn spec_edge(wall: bool, door: bool, x: int, y: int, w: int, h: int) -> Seq<DrawOp> {
    if wall {
        seq![spec_fill_op((0u8, 0u8, 0u8), x, y, w, h)]
    } else if door {
        seq![spec_fill_op((200u8, 140u8, 40u8), x, y, w, h)]
    } else {
        Seq::empty()
    }
}

/// `acc`, then a known tile's marks in the cell whose corner is at `(px, py)`: its colour,
/// dimmed unless visited, then its edges north, south, west and east as one-pixel lines.
pub open spec fn spec_add_cell(acc: Seq<DrawOp>, t: KnownTile, px: int, py: int, s: int) -> Seq<DrawOp> {
    acc.push(spec_fill_op(if t.visited { t.color } else { spec_dim(t.color) }, px, py, s, s))
        + spec_edge(t.walls.north, t.doors.north, px, py, s, 1)
        + spec_edge(t.walls.south, t.doors.south, px, py + s - 1, s, 1)
        + spec_edge(t.walls.west, t.doors.west, px, py, 1, s)
        + spec_edge(t.walls.east, t.doors.east, px + s - 1, py, 1, s)
}

/// `acc`, then a known tile's marks on the automap at `(ox, oy)` and `s` pixels a tile.
pub open spec fn spec_add_tile(acc: Seq<DrawOp>, t: KnownTile, ox: int, oy: int, s: int) -> Seq<DrawOp> {
    spec_add_cell(acc, t, ox + t.x * s, oy + t.y * s, s)
}

/// `acc`, then the known tiles' marks, in their order.
pub open spec fn spec_known_marks(acc: Seq<DrawOp>, known: Seq<KnownTile>, ox: int, oy: int, s: int) -> Seq<DrawOp>
    decreases known.len(),
{
    if known.len() == 0 {
        acc
    } else {
        spec_add_tile(spec_known_marks(acc, known.drop_last(), ox, oy, s), known.last(), ox, oy, s)
    }
}

/// The step a facing takes on the map.
pub open spec fn spec_delta(f: Facing) -> (int, int) {
    match f {
        Facing::North => (0, -1),
        Facing::East => (1, 0),
        Facing::South => (0, 1),
        Facing::West => (-1, 0),
    }
}

/// Where along a cell's side the facing mark sits: the middle, or the edge it faces.
pub open spec fn spec_along(d: int, s: int) -> int {
    if d == 0 {
        s / 2
    } else if d < 0 {
        0
    } else {
        s - 1
    }
}

/// The party on the automap: a white mark in its cell, and a red pixel on the edge it faces.
pub open spec fn spec_party_marks(party: (u16, u16, Facing), ox: int, oy: int, s: int) -> Seq<DrawOp> {
    let cx = ox + party.0 * s;
    let cy = oy + party.1 * s;
    let body = if s >= 4 {
        spec_fill_op((255u8, 255u8, 255u8), cx + 1, cy + 1, s - 2, s - 2)
    } else {
        spec_fill_op((255u8, 255u8, 255u8), cx, cy, s, s)
    };
    let d = spec_delta(party.2);
    seq![body, spec_fill_op((255u8, 80u8, 80u8), cx + spec_along(d.0, s), cy + spec_along(d.1, s), 1, 1)]
}

/// The automap of a map `size` tiles large at `scale` pixels per tile, top-left at
/// `origin`: a dark border one pixel out, the known tiles, then the party.
pub open spec fn spec_automap(
    size: (u16, u16),
    known: Seq<KnownTile>,
    party: (u16, u16, Facing),
    origin: (i32, i32),
    scale: i32,
) -> Seq<DrawOp> {
    let s = spec_scale_of(scale);
    spec_known_marks(
        seq![spec_fill_op((20u8, 20u8, 28u8), origin.0 - 1, origin.1 - 1, size.0 * s + 2, size.1 * s + 2)],
        known,
        origin.0 as int,
        origin.1 as int,
        s,
    ) + spec_party_marks(party, origin.0 as int, origin.1 as int, s)
}

/// A cell at column `x` and row `y` fits on the canvas at this origin and scale.
pub open spec fn cell_fits(x: int, y: int, origin: (i32, i32), s: int) -> bool {
    &&& fits_i32(x * s) && fits_i32(origin.0 + x * s + s)
    &&& fits_i32(y * s) && fits_i32(origin.1 + y * s + s)
}

/// The automap's numbers fit in `i32`: the border, every known cell, the party's cell.
pub open spec fn automap_fits(
    size: (u16, u16),
    known: Seq<KnownTile>,
    party: (u16, u16, Facing),
    origin: (i32, i32),
    scale: i32,
) -> bool {
    let s = spec_scale_of(scale);
    &&& fits_i32(origin.0 - 1) && fits_i32(origin.1 - 1)
    &&& size.0 * s + 2 <= i32::MAX && size.1 * s + 2 <= i32::MAX
    &&& forall|k: int| 0 <= k < known.len() ==> cell_fits((#[trigger] known[k]).x as int, known[k].y as int, origin, s)
    &&& cell_fits(party.0 as int, party.1 as int, origin, s)
}

fn fill_at(color: Rgb, x: i64, y: i64, w: i64, h: i64) -> (r: DrawOp)
    requires
        fits_i32(x as int),
        fits_i32(y as int),
        0 <= w <= u32::MAX,
        0 <= h <= u32::MAX,
    ensures
        r == spec_fill_op(color, x as int, y as int, w as int, h as int),
{
    DrawOp::fill(color, x as i32, y as i32, w as u32, h as u32)
}

fn push_edge(ops: &mut Vec<DrawOp>, wall: bool, door: bool, x: i64, y: i64, w: i64, h: i64)
    requires
        fits_i32(x as int),
        fits_i32(y as int),
        0 <= w <= u32::MAX,
        0 <= h <= u32::MAX,
    ensures
        final(ops)@ == old(ops)@ + spec_edge(wall, door, x as int, y as int, w as int, h as int),
{
    if wall {
        ops.push(fill_at((0, 0, 0), x, y, w, h));
    } else if door {
        ops.push(fill_at((200, 140, 40), x, y, w, h));
    }
    assert(final(ops)@ =~= old(ops)@ + spec_edge(wall, door, x as int, y as int, w as int, h as int));
}

proof fn lemma_cell_product(x: int, s: int)
    requires
        0 <= x <= 65535,
        1 <= s <= i32::MAX,
    ensures
        0 <= x * s <= 65535 * 2147483647,
{
    assert(0 <= x * s <= 65535 * 2147483647) by (nonlinear_arith)
        requires
            0 <= x <= 65535,
            1 <= s <= 2147483647,
    ;
}

/// The canvas coordinate of a cell's corner along one axis.
fn corner(o: i32, x: u16, s: i32) -> (r: i64)
    requires
        1 <= s,
        fits_i32(x * s),
        fits_i32(o + x * s + s),
    ensures
        r == o + x * s,
        fits_i32(r as int),
        fits_i32(r + s),
{
    proof {
        lemma_cell_product(x as int, s as int);
    }
    o as i64 + x as i64 * s as i64
}

fn push_tile_marks(ops: &mut Vec<DrawOp>, t: &KnownTile, origin: (i32, i32), s: i32)
    requires
        1 <= s,
        cell_fits(t.x as int, t.y as int, origin, s as int),
    ensures
        final(ops)@ == spec_add_tile(old(ops)@, *t, origin.0 as int, origin.1 as int, s as int),
{
    let s64 = s as i64;
    let px: i64 = corner(origin.0, t.x, s);
    let py: i64 = corner(origin.1, t.y, s);
    let color = if t.visited {
        t.color
    } else {
        dim(t.color)
    };
    ops.push(fill_at(color, px, py, s64, s64));
    push_edge(ops, t.walls.north, t.doors.north, px, py, s64, 1);
    push_edge(ops, t.walls.south, t.doors.south, px, py + s64 - 1, s64, 1);
    push_edge(ops, t.walls.west, t.doors.west, px, py, 1, s64);
    push_edge(ops, t.walls.east, t.doors.east, px + s64 - 1, py, 1, s64);
}

fn push_party_marks(ops: &mut Vec<DrawOp>, party: (u16, u16, Facing), origin: (i32, i32), s: i32)
    requires
        1 <= s,
        cell_fits(party.0 as int, party.1 as int, origin, s as int),
    ensures
        final(ops)@ == old(ops)@ + spec_party_marks(party, origin.0 as int, origin.1 as int, s as int),
{
    let s64 = s as i64;
    let cx: i64 = corner(origin.0, party.0, s);
    let cy: i64 = corner(origin.1, party.1, s);
    let body = if s >= 4 {
        fill_at((255, 255, 255), cx + 1, cy + 1, s64 - 2, s64 - 2)
    } else {
        fill_at((255, 255, 255), cx, cy, s64, s64)
    };
    let (dx, dy): (i64, i64) = match party.2 {
        Facing::North => (0, -1),
        Facing::East => (1, 0),
        Facing::South => (0, 1),
        Facing::West => (-1, 0),
    };
    let ax: i64 = if dx == 0 {
        s64 / 2
    } else if dx < 0 {
        0
    } else {
        s64 - 1
    };
    let ay: i64 = if dy == 0 {
        s64 / 2
    } else if dy < 0 {
        0
    } else {
        s64 - 1
    };
    let mark = fill_at((255, 80, 80), cx + ax, cy + ay, 1, 1);
    ops.push(body);
    ops.push(mark);
    assert(ops@ =~= old(ops)@ + spec_party_marks(party, origin.0 as int, origin.1 as int, s as int));
}

/// The automap of a map `size` tiles large at `scale` pixels per tile, top-left at `origin`:
/// known tiles as terrain colour, dimmed unless visited, walls and doors as one-pixel edges,
/// the party as a white mark with a red pixel on its facing edge.
pub fn automap(
    size: (u16, u16),
    known: &[KnownTile],
    party: (u16, u16, Facing),
    origin: (i32, i32),
    scale: i32,
) -> (r: Vec<DrawOp>)
    requires
        automap_fits(size, known@, party, origin, scale),
    ensures
        r@ == spec_automap(size, known@, party, origin, scale),
        facing_mark_placed(r@, party, origin, scale),
{
    let s: i32 = if scale < 1 {
        1
    } else {
        scale
    };
    let s64 = s as i64;
    proof {
        lemma_cell_product(size.0 as int, s as int);
        lemma_cell_product(size.1 as int, s as int);
    }
    let mut ops: Vec<DrawOp> = Vec::new();
    ops.push(
        fill_at(
            (20, 20, 28),
            origin.0 as i64 - 1,
            origin.1 as i64 - 1,
            size.0 as i64 * s64 + 2,
            size.1 as i64 * s64 + 2,
        ),
    );
    let ghost border = ops@;
    let mut i: usize = 0;
    assert(known@.take(0) =~= Seq::<KnownTile>::empty());
    while i < known.len()
        invariant
            i <= known@.len(),
            1 <= s,
            s as int == spec_scale_of(scale),
            automap_fits(size, known@, party, origin, scale),
            ops@ == spec_known_marks(border, known@.take(i as int), origin.0 as int, origin.1 as int, s as int),
        decreases known@.len() - i,
    {
        assert(cell_fits(known@[i as int].x as int, known@[i as int].y as int, origin, s as int));
        let ghost before = ops@;
        push_tile_marks(&mut ops, &known[i], origin, s);
        proof {
            let t = known@.take(i + 1);
            assert(t.drop_last() =~= known@.take(i as int));
            assert(t.last() == known@[i as int]);
            assert(ops@ == spec_known_marks(border, t, origin.0 as int, origin.1 as int, s as int));
        }
        i = i + 1;
    }
    assert(known@.take(known@.len() as int) =~= known@);
    push_party_marks(&mut ops, party, origin, s);
    proof {
        let none = Sides { north: false, south: false, west: false, east: false };
        let here = KnownTile { x: party.0, y: party.1, color: (0u8, 0u8, 0u8), visited: false, walls: none, doors: none };
        lemma_facing_mark_on_the_faced_edge(size, known@, party, origin, scale, here);
    }
    assert(ops@ =~= spec_automap(size, known@, party, origin, scale));
    ops
}


/// A value kept between two bounds, `lo <= hi`.
pub open spec fn spec_clamp_between(v: int, lo: int, hi: int) -> int {
    if v < lo {
        lo
    } else if v > hi {
        hi
    } else {
        v
    }
}

/// Where a map `size` pixels long goes in `room` pixels: centred when it fits, else moved so
/// the party's cell is as central as the map's edges allow.
pub open spec fn spec_place(room: int, size: int, party: int, s: int) -> int {
    if size <= room {
        (room - size) / 2
    } else {
        spec_clamp_between(half_toward_zero(room) - party * s - s / 2, room - size, 0)
    }
}

/// The automap's top-left corner in a window rectangle.
pub open spec fn spec_window_origin(size: (u16, u16), party: (u16, u16, Facing), rect: (i32, i32, u32, u32), scale: i32) -> (int, int) {
    let s = spec_scale_of(scale);
    (
        rect.0 + spec_place(wrap_i32(rect.2 as int), size.0 * s, party.0 as int, s),
        rect.1 + spec_place(wrap_i32(rect.3 as int), size.1 * s, party.1 as int, s),
    )
}

/// `acc`, then each op cut down to `rect`, those that keep something.
pub open spec fn spec_clipped(acc: Seq<DrawOp>, ops: Seq<DrawOp>, rect: (i32, i32, u32, u32)) -> Seq<DrawOp>
    decreases ops.len(),
{
    if ops.len() == 0 {
        acc
    } else {
        let before = spec_clipped(acc, ops.drop_last(), rect);
        match spec_clip(ops.last(), rect) {
            Some(op) => before.push(op),
            None => before,
        }
    }
}

/// The automap in a window rectangle: a dark fill of the rectangle, then the automap placed
/// by `spec_window_origin` and clipped to the rectangle.
pub open spec fn spec_automap_window(
    size: (u16, u16),
    known: Seq<KnownTile>,
    party: (u16, u16, Facing),
    rect: (i32, i32, u32, u32),
    scale: i32,
) -> Seq<DrawOp> {
    let o = spec_window_origin(size, party, rect, scale);
    spec_clipped(
        seq![spec_fill_op((20u8, 20u8, 28u8), rect.0 as int, rect.1 as int, rect.2 as int, rect.3 as int)],
        spec_automap(size, known, party, (o.0 as i32, o.1 as i32), scale),
        rect,
    )
}

/// Placing a map along one axis stays in `i32`.
pub open spec fn place_fits(room: int, size: int, party: int, s: int) -> bool {
    &&& fits_i32(size)
    &&& size > room ==> {
        &&& fits_i32(room - size)
        &&& fits_i32(party * s)
        &&& fits_i32(half_toward_zero(room) - party * s)
        &&& fits_i32(half_toward_zero(room) - party * s - s / 2)
    }
}

/// A fill's far edges stay in `i32`.
pub open spec fn op_fits(op: DrawOp) -> bool {
    op.paint matches Paint::Fill { width, height, .. } ==> fits_i32(op.x + width) && fits_i32(op.y + height)
}

/// Every fill's far edges stay in `i32`.
pub open spec fn all_fit(ops: Seq<DrawOp>) -> bool {
    forall|k: int| 0 <= k < ops.len() ==> op_fits(#[trigger] ops[k])
}

/// The window's numbers stay in `i32`: the placement, the automap there, its border's far
/// edge, the rectangle's far edges.
pub open spec fn window_fits(
    size: (u16, u16),
    known: Seq<KnownTile>,
    party: (u16, u16, Facing),
    rect: (i32, i32, u32, u32),
    scale: i32,
) -> bool {
    let s = spec_scale_of(scale);
    let o = spec_window_origin(size, party, rect, scale);
    &&& place_fits(wrap_i32(rect.2 as int), size.0 * s, party.0 as int, s)
    &&& place_fits(wrap_i32(rect.3 as int), size.1 * s, party.1 as int, s)
    &&& fits_i32(o.0) && fits_i32(o.1)
    &&& automap_fits(size, known, party, (o.0 as i32, o.1 as i32), scale)
    &&& fits_i32(o.0 + size.0 * s + 1) && fits_i32(o.1 + size.1 * s + 1)
    &&& fits_i32(rect.0 + rect.2) && fits_i32(rect.1 + rect.3)
}

fn place(room: i32, size: i32, party: u16, s: i32) -> (r: i32)
    requires
        1 <= s,
        0 <= size,
        place_fits(room as int, size as int, party as int, s as int),
    ensures
        r == spec_place(room as int, size as int, party as int, s as int),
{
    if size <= room {
        (room - size) / 2
    } else {
        let half = half_of(room);
        let v: i32 = half - party as i32 * s - s / 2;
        let lo: i32 = room - size;
        if v < lo {
            lo
        } else if v > 0 {
            0
        } else {
            v
        }
    }
}

proof fn lemma_concat_fit(a: Seq<DrawOp>, b: Seq<DrawOp>)
    requires
        all_fit(a),
        all_fit(b),
    ensures
        all_fit(a + b),
{
    assert forall|k: int| 0 <= k < (a + b).len() implies op_fits(#[trigger] (a + b)[k]) by {
        if k < a.len() {
            assert((a + b)[k] == a[k]);
        } else {
            assert((a + b)[k] == b[k - a.len()]);
        }
    }
}

proof fn lemma_push_fit(a: Seq<DrawOp>, x: DrawOp)
    requires
        all_fit(a),
        op_fits(x),
    ensures
        all_fit(a.push(x)),
{
    assert forall|k: int| 0 <= k < a.push(x).len() implies op_fits(#[trigger] a.push(x)[k]) by {
        if k < a.len() {
            assert(a.push(x)[k] == a[k]);
        }
    }
}

proof fn lemma_add_tile_fit(acc: Seq<DrawOp>, t: KnownTile, origin: (i32, i32), s: int)
    requires
        1 <= s <= i32::MAX,
        all_fit(acc),
        cell_fits(t.x as int, t.y as int, origin, s),
    ensures
        all_fit(spec_add_tile(acc, t, origin.0 as int, origin.1 as int, s)),
{
    lemma_cell_product(t.x as int, s);
    lemma_cell_product(t.y as int, s);
    let px = origin.0 + t.x * s;
    let py = origin.1 + t.y * s;
    let fill = spec_fill_op(if t.visited { t.color } else { spec_dim(t.color) }, px, py, s, s);
    lemma_push_fit(acc, fill);
    let e1 = spec_edge(t.walls.north, t.doors.north, px, py, s, 1);
    let e2 = spec_edge(t.walls.south, t.doors.south, px, py + s - 1, s, 1);
    let e3 = spec_edge(t.walls.west, t.doors.west, px, py, 1, s);
    let e4 = spec_edge(t.walls.east, t.doors.east, px + s - 1, py, 1, s);
    assert(all_fit(e1));
    assert(all_fit(e2));
    assert(all_fit(e3));
    assert(all_fit(e4));
    lemma_concat_fit(acc.push(fill), e1);
    lemma_concat_fit(acc.push(fill) + e1, e2);
    lemma_concat_fit(acc.push(fill) + e1 + e2, e3);
    lemma_concat_fit(acc.push(fill) + e1 + e2 + e3, e4);
}

proof fn lemma_known_fit(acc: Seq<DrawOp>, known: Seq<KnownTile>, origin: (i32, i32), s: int)
    requires
        1 <= s <= i32::MAX,
        all_fit(acc),
        forall|k: int| 0 <= k < known.len() ==> cell_fits((#[trigger] known[k]).x as int, known[k].y as int, origin, s),
    ensures
        all_fit(spec_known_marks(acc, known, origin.0 as int, origin.1 as int, s)),
    decreases known.len(),
{
    if known.len() > 0 {
        let d = known.drop_last();
        assert forall|k: int| 0 <= k < d.len() implies cell_fits((#[trigger] d[k]).x as int, d[k].y as int, origin, s) by {
            assert(d[k] == known[k]);
        }
        lemma_known_fit(acc, d, origin, s);
        assert(known.last() == known[known.len() - 1]);
        lemma_add_tile_fit(spec_known_marks(acc, d, origin.0 as int, origin.1 as int, s), known.last(), origin, s);
    }
}

proof fn lemma_automap_fit(size: (u16, u16), known: Seq<KnownTile>, party: (u16, u16, Facing), origin: (i32, i32), scale: i32)
    requires
        automap_fits(size, known, party, origin, scale),
        fits_i32(origin.0 + size.0 * spec_scale_of(scale) + 1),
        fits_i32(origin.1 + size.1 * spec_scale_of(scale) + 1),
    ensures
        all_fit(spec_automap(size, known, party, origin, scale)),
{
    let s = spec_scale_of(scale);
    lemma_cell_product(size.0 as int, s);
    lemma_cell_product(size.1 as int, s);
    lemma_cell_product(party.0 as int, s);
    lemma_cell_product(party.1 as int, s);
    let border = seq![spec_fill_op((20u8, 20u8, 28u8), origin.0 - 1, origin.1 - 1, size.0 * s + 2, size.1 * s + 2)];
    assert(all_fit(border)) by {
        assert(op_fits(border[0]));
    }
    lemma_known_fit(border, known, origin, s);
    let p = spec_party_marks(party, origin.0 as int, origin.1 as int, s);
    assert(all_fit(p)) by {
        assert(op_fits(p[0]));
        assert(op_fits(p[1]));
    }
    lemma_concat_fit(spec_known_marks(border, known, origin.0 as int, origin.1 as int, s), p);
}

/// The automap fitted into `rect` (x, y, width, height): centred when the map fits,
/// otherwise scrolled so the party is as central as the map's edges allow, and clipped to
/// the rect.
pub fn automap_window(
    size: (u16, u16),
    known: &[KnownTile],
    party: (u16, u16, Facing),
    rect: (i32, i32, u32, u32),
    scale: i32,
) -> (r: Vec<DrawOp>)
    requires
        window_fits(size, known@, party, rect, scale),
    ensures
        r@ == spec_automap_window(size, known@, party, rect, scale),
{
    let s: i32 = if scale < 1 {
        1
    } else {
        scale
    };
    proof {
        lemma_cell_product(size.0 as int, s as int);
        lemma_cell_product(size.1 as int, s as int);
    }
    let rw = wrap_to_i32(rect.2);
    let rh = wrap_to_i32(rect.3);
    let mw: i32 = size.0 as i32 * s;
    let mh: i32 = size.1 as i32 * s;
    let px = place(rw, mw, party.0, s);
    let py = place(rh, mh, party.1, s);
    let origin: (i32, i32) = (rect.0 + px, rect.1 + py);
    let ghost o = spec_window_origin(size, party, rect, scale);
    assert(origin.0 == o.0 && origin.1 == o.1);
    let all = automap(size, known, party, origin, s);
    assert(all@ == spec_automap(size, known@, party, origin, scale));
    proof {
        lemma_automap_fit(size, known@, party, origin, scale);
    }
    let mut ops: Vec<DrawOp> = Vec::new();
    ops.push(DrawOp::fill((20, 20, 28), rect.0, rect.1, rect.2, rect.3));
    let ghost first = ops@;
    let mut i: usize = 0;
    assert(all@.take(0) =~= Seq::<DrawOp>::empty());
    while i < all.len()
        invariant
            i <= all@.len(),
            all_fit(all@),
            fits_i32(rect.0 + rect.2) && fits_i32(rect.1 + rect.3),
            ops@ == spec_clipped(first, all@.take(i as int), rect),
        decreases all@.len() - i,
    {
        assert(op_fits(all@[i as int]));
        let op = clip(all[i].clone_op(), rect);
        proof {
            let t = all@.take(i + 1);
            assert(t.drop_last() =~= all@.take(i as int));
            assert(t.last() == all@[i as int]);
        }
        match op {
            Some(o) => ops.push(o),
            None => {},
        }
        i = i + 1;
    }
    assert(all@.take(all@.len() as int) =~= all@);
    ops
}

impl DrawOp {
    /// A copy of this op.
    pub(crate) fn clone_op(&self) -> (r: DrawOp)
        ensures
            r == *self,
    {
        match &self.paint {
            Paint::Sprite(p) => DrawOp { paint: Paint::Sprite(p.clone()), x: self.x, y: self.y },
            Paint::Fill { color, width, height } => DrawOp {
                paint: Paint::Fill { color: *color, width: *width, height: *height },
                x: self.x,
                y: self.y,
            },
        }
    }
}

/// Each shared wall plane is drawn once: in the wall pass a tile right of centre draws only
/// its right wall, a tile left of centre only its left wall.
pub proof fn lemma_shared_walls_once(t: TileView, depth: int, map: MapSurfaces, slots: Seq<Slot>)
    ensures
        t.offset > 0 ==> spec_tile_ops(t, 1, depth, map, slots) == (if t.right != EdgeView::Open {
            opt_seq(spec_slot(slots, map.wall_right@, depth, t.offset as int))
        } else {
            Seq::empty()
        }),
        t.offset < 0 ==> spec_tile_ops(t, 1, depth, map, slots) == (if t.left != EdgeView::Open {
            opt_seq(spec_slot(slots, map.wall_left@, depth, t.offset as int))
        } else {
            Seq::empty()
        }),
{
    let none = Seq::<(Seq<char>, int, int)>::empty();
    let l = opt_seq(spec_slot(slots, map.wall_left@, depth, t.offset as int));
    let r = opt_seq(spec_slot(slots, map.wall_right@, depth, t.offset as int));
    assert(none + r =~= r);
    assert(l + none =~= l);
    assert(none + none =~= none);
}

/// A map that fits its window is centred in it, to the pixel; a larger one always covers
/// the window from edge to edge, wherever the party stands.
pub proof fn lemma_place_centres_or_covers(room: int, size: int, party: int, s: int)
    requires
        0 <= room,
        0 <= size,
    ensures
        size <= room ==> {
            let at = spec_place(room, size, party, s);
            &&& 0 <= at
            &&& at + size <= room
            &&& (room - size - 2 * at == 0 || room - size - 2 * at == 1)
        },
        size > room ==> {
            let at = spec_place(room, size, party, s);
            &&& at <= 0
            &&& at + size >= room
        },
{
}

/// The last mark of the automap is the party's red facing pixel, on the edge of its cell it
/// faces, where that edge's wall line is drawn: facing north on the cell's top row, south
/// on its bottom row, west on its left column, east on its right column, midway along.
pub open spec fn facing_mark_placed(
    ops: Seq<DrawOp>,
    party: (u16, u16, Facing),
    origin: (i32, i32),
    scale: i32,
) -> bool {
    let s = spec_scale_of(scale);
    let cx = origin.0 + party.0 * s;
    let cy = origin.1 + party.1 * s;
    let red = (255u8, 80u8, 80u8);
    &&& ops.len() >= 2
    &&& party.2 == Facing::North ==> ops.last() == spec_fill_op(red, cx + s / 2, cy, 1, 1)
    &&& party.2 == Facing::South ==> ops.last() == spec_fill_op(red, cx + s / 2, cy + s - 1, 1, 1)
    &&& party.2 == Facing::West ==> ops.last() == spec_fill_op(red, cx, cy + s / 2, 1, 1)
    &&& party.2 == Facing::East ==> ops.last() == spec_fill_op(red, cx + s - 1, cy + s / 2, 1, 1)
}

/// The party's facing mark sits on the edge of its cell it faces (see `facing_mark_placed`),
/// and that pixel lies on the one-pixel line a wall on that edge of a known tile at the
/// party's cell is drawn as.
pub proof fn lemma_facing_mark_on_the_faced_edge(
    size: (u16, u16),
    known: Seq<KnownTile>,
    party: (u16, u16, Facing),
    origin: (i32, i32),
    scale: i32,
    t: KnownTile,
)
    requires
        t.x == party.0 && t.y == party.1,
    ensures
        facing_mark_placed(spec_automap(size, known, party, origin, scale), party, origin, scale),
        ({
            let s = spec_scale_of(scale);
            let px = origin.0 + t.x * s;
            let py = origin.1 + t.y * s;
            let mark = spec_automap(size, known, party, origin, scale).last();
            let (mx, my) = (
                origin.0 + party.0 * s + spec_along(spec_delta(party.2).0, s),
                origin.1 + party.1 * s + spec_along(spec_delta(party.2).1, s),
            );
            &&& party.2 == Facing::North ==> my == py && px <= mx < px + s
            &&& party.2 == Facing::South ==> my == py + s - 1 && px <= mx < px + s
            &&& party.2 == Facing::West ==> mx == px && py <= my < py + s
            &&& party.2 == Facing::East ==> mx == px + s - 1 && py <= my < py + s
            &&& mark == spec_fill_op((255u8, 80u8, 80u8), mx, my, 1, 1)
        }),
{
    let s = spec_scale_of(scale);
    let border = seq![spec_fill_op((20u8, 20u8, 28u8), origin.0 - 1, origin.1 - 1, size.0 * s + 2, size.1 * s + 2)];
    let k = spec_known_marks(border, known, origin.0 as int, origin.1 as int, s);
    let p = spec_party_marks(party, origin.0 as int, origin.1 as int, s);
    assert((k + p).last() == p[1]);
    assert((k + p).len() >= 2);
}

/// A tile's far edge shows its front wall, its shut door, or its open door's frame where the
/// map draws one, and nothing when open; a block shows only in the last pass of its row.
pub proof fn lemma_front_edges(t: TileView, depth: int, map: MapSurfaces, slots: Seq<Slot>)
    ensures
        ({
            let at = |surface: Seq<char>| opt_seq(spec_slot(slots, surface, depth, t.offset as int));
            &&& t.front is Wall ==> spec_tile_ops(t, 2, depth, map, slots) == at(map.wall_front@)
            &&& t.front == (EdgeView::Door { open: false }) ==> spec_tile_ops(t, 2, depth, map, slots) == at(map.door@)
            &&& t.front == (EdgeView::Door { open: true }) ==> spec_tile_ops(t, 2, depth, map, slots) == match map.door_open {
                Some(frame) => at(frame@),
                None => Seq::empty(),
            }
            &&& t.front is Open ==> spec_tile_ops(t, 2, depth, map, slots).len() == 0
        }),
{
}

/// A known tile's marks follow what came before: first its cell in the terrain's colour, at
/// half strength unless visited, then its north edge as a one-pixel line along the top, black
/// for a wall and amber for a door.
pub proof fn lemma_tile_marks(acc: Seq<DrawOp>, t: KnownTile, ox: int, oy: int, s: int)
    ensures
        ({
            let r = spec_add_tile(acc, t, ox, oy, s);
            let px = ox + t.x * s;
            let py = oy + t.y * s;
            let color = if t.visited { t.color } else { ((t.color.0 / 2) as u8, (t.color.1 / 2) as u8, (t.color.2 / 2) as u8) };
            &&& r.len() > acc.len()
            &&& r.subrange(0, acc.len() as int) == acc
            &&& r[acc.len() as int] == spec_fill_op(color, px, py, s, s)
            &&& t.walls.north ==> r[acc.len() as int + 1] == spec_fill_op((0u8, 0u8, 0u8), px, py, s, 1)
            &&& !t.walls.north && t.doors.north ==> r[acc.len() as int + 1] == spec_fill_op((200u8, 140u8, 40u8), px, py, s, 1)
        }),
{
    let r = spec_add_tile(acc, t, ox, oy, s);
    let px = ox + t.x * s;
    let py = oy + t.y * s;
    let first = acc.push(spec_fill_op(if t.visited { t.color } else { spec_dim(t.color) }, px, py, s, s));
    let e1 = spec_edge(t.walls.north, t.doors.north, px, py, s, 1);
    let e2 = spec_edge(t.walls.south, t.doors.south, px, py + s - 1, s, 1);
    let e3 = spec_edge(t.walls.west, t.doors.west, px, py, 1, s);
    let e4 = spec_edge(t.walls.east, t.doors.east, px + s - 1, py, 1, s);
    let r1 = first + e1;
    let r2 = r1 + e2;
    let r3 = r2 + e3;
    assert(r == r3 + e4);
    let k = acc.len() as int;
    assert(r1[k] == first[k]);
    assert(r2[k] == r1[k]);
    assert(r3[k] == r2[k]);
    assert(r[k] == r3[k]);
    if t.walls.north || t.doors.north {
        assert(r1[k + 1] == e1[0]);
        assert(r2[k + 1] == r1[k + 1]);
        assert(r3[k + 1] == r2[k + 1]);
        assert(r[k + 1] == r3[k + 1]);
    }
    assert forall|i: int| 0 <= i < k implies r.subrange(0, k)[i] == acc[i] by {
        assert(r1[i] == first[i]);
        assert(r2[i] == r1[i]);
        assert(r3[i] == r2[i]);
        assert(r[i] == r3[i]);
    }
    assert(r.subrange(0, k) =~= acc);
}

proof fn lemma_pick_aside(tiles: Seq<TileView>, depth: int, aside: int)
    ensures
        forall|k: int| 0 <= k < spec_pick(tiles, depth, aside).len() ==> spec_abs(
            (#[trigger] spec_pick(tiles, depth, aside)[k]).offset as int,
        ) == aside,
    decreases tiles.len(),
{
    if tiles.len() > 0 {
        lemma_pick_aside(tiles.drop_last(), depth, aside);
    }
}

proof fn lemma_row_outer_first(tiles: Seq<TileView>, depth: int, aside: int)
    ensures
        forall|k: int| 0 <= k < spec_row_down_to(tiles, depth, aside).len() ==> spec_abs(
            (#[trigger] spec_row_down_to(tiles, depth, aside)[k]).offset as int,
        ) >= aside,
        forall|j: int, k: int|
            0 <= j < k < spec_row_down_to(tiles, depth, aside).len() ==> spec_abs(
                (#[trigger] spec_row_down_to(tiles, depth, aside)[j]).offset as int,
            ) >= spec_abs((#[trigger] spec_row_down_to(tiles, depth, aside)[k]).offset as int),
    decreases 129 - aside,
{
    if aside <= 128 {
        lemma_row_outer_first(tiles, depth, aside + 1);
        lemma_pick_aside(tiles, depth, aside);
        let a = spec_row_down_to(tiles, depth, aside + 1);
        let b = spec_pick(tiles, depth, aside);
        let r = a + b;
        assert forall|k: int| 0 <= k < r.len() implies spec_abs((#[trigger] r[k]).offset as int) >= aside by {
            if k < a.len() {
                assert(r[k] == a[k]);
            } else {
                assert(r[k] == b[k - a.len()]);
            }
        }
        assert forall|j: int, k: int| 0 <= j < k < r.len() implies spec_abs((#[trigger] r[j]).offset as int)
            >= spec_abs((#[trigger] r[k]).offset as int) by {
            if k < a.len() {
                assert(r[j] == a[j] && r[k] == a[k]);
            } else if j < a.len() {
                assert(r[j] == a[j] && r[k] == b[k - a.len()]);
            } else {
                assert(r[j] == b[j - a.len()] && r[k] == b[k - a.len()]);
            }
        }
    } else {
        assert(spec_row_down_to(tiles, depth, aside).len() == 0);
    }
}

/// A row holds the tiles at its depth, and no tile nearer the centre comes before one
/// further aside: outer offsets are drawn first.
pub proof fn lemma_rows_go_outer_offsets_first(tiles: Seq<TileView>, depth: int)
    ensures
        forall|k: int| 0 <= k < spec_row(tiles, depth).len() ==> (#[trigger] spec_row(tiles, depth)[k]).depth == depth,
        forall|j: int, k: int|
            0 <= j < k < spec_row(tiles, depth).len() ==> spec_abs((#[trigger] spec_row(tiles, depth)[j]).offset as int)
                >= spec_abs((#[trigger] spec_row(tiles, depth)[k]).offset as int),
{
    lemma_row_depth(tiles, depth, 0);
    lemma_row_outer_first(tiles, depth, 0);
}

/// A clipped fill keeps its colour, lies inside both the fill and the rectangle, and is not
/// empty; a sprite passes through.
pub proof fn lemma_clip_inside(op: DrawOp, rect: (i32, i32, u32, u32))
    requires
        op.paint matches Paint::Fill { width, height, .. } ==> fits_i32(op.x + width) && fits_i32(op.y + height),
        fits_i32(rect.0 + rect.2),
        fits_i32(rect.1 + rect.3),
    ensures
        spec_clip(op, rect) matches Some(c) ==> (op.paint matches Paint::Fill { width, height, color } ==> (c.paint
            matches Paint::Fill { width: w, height: h, color: k } && k == color && w > 0 && h > 0 && c.x >= op.x && c.x
            >= rect.0 && c.y >= op.y && c.y >= rect.1 && c.x + w <= op.x + width && c.x + w <= rect.0 + rect.2 && c.y
            + h <= op.y + height && c.y + h <= rect.1 + rect.3)),
        op.paint is Sprite ==> spec_clip(op, rect) == Some(op),
{
}

} // verus!
