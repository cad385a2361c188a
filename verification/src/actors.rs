//! Monster silhouettes in the viewport: the plain shapes that stand in for art, as draw ops
//! for the sprite layer. Where each silhouette stands comes from the viewport's camera;
//! here are the parts of one and the fills that draw it.

use vstd::prelude::*;
use crate::layout::{Rect, spec_viewport, viewport};
use crate::plan::{DrawOp, Paint, spec_fill_op};
use crate::raster::Rgb;

verus! {

/// How big a creature is.
#[derive(Debug, Clone, Copy, PartialEq, Eq, Structural)]
pub enum Size {
    /// A rat.
    Tiny,
    /// A goblin.
    Small,
    /// A human.
    Medium,
    /// An ogre.
    Large,
    /// A giant.
    Huge,
    /// A dragon.
    Gargantuan,
}

/// The front silhouettes' colour.
pub const FRONT_COLOR: Rgb = (20, 14, 24);
/// The back silhouettes' colour, a shade lighter for depth.
pub const BACK_COLOR: Rgb = (36, 30, 44);
/// The one-pixel rim around a front silhouette, so a dark shape reads against a dark wall.
pub const RIM_FRONT: Rgb = (128, 120, 140);
/// The rim around a back silhouette.
pub const RIM_BACK: Rgb = (88, 82, 100);

/// A living stack as the silhouettes need it.
#[derive(Debug, Clone, Copy, PartialEq, Eq, Structural)]
pub struct Actor {
    /// Its index in the encounter.
    pub index: u8,
    /// The monster's size.
    pub size: Size,
    /// Whether it stands in front.
    pub front: bool,
}

/// Where a silhouette stands on the canvas.
#[derive(Debug, Clone, Copy, PartialEq, Eq, Structural)]
pub struct Silhouette {
    /// The stack.
    pub index: u8,
    /// Its bounding box, feet on the bottom edge.
    pub rect: Rect,
    /// Whether it stands in front.
    pub front: bool,
}

/// A part of a silhouette: `(x, y, width, height)`.
pub type Part = (i32, i32, u32, u32);

/// Whether a silhouette's parts can be computed: a box at least a pixel wide, whose edges
/// and rims stay canvas coordinates.
pub open spec fn drawable(s: Silhouette) -> bool {
    &&& 1 <= s.rect.w <= 0x100_0000
    &&& s.rect.h <= 0x100_0000
    &&& -0x1000_0000 <= s.rect.x <= 0x1000_0000
    &&& -0x1000_0000 <= s.rect.y <= 0x1000_0000
}

/// A silhouette's parts: head, body, left leg, right leg. The head is a quarter of the
/// height and half the width (at least a pixel), centred; the body half the height, full
/// width; the legs the rest of the height, 35% of the width (at least a pixel), at the
/// corners.
pub open spec fn spec_parts(s: Silhouette) -> Seq<(int, int, int, int)> {
    let (w, h) = (s.rect.w as int, s.rect.h as int);
    let head_h = h / 4;
    let body_h = h / 2;
    let leg_h = h - head_h - body_h;
    let leg_w = if w * 35 / 100 < 1 { 1 } else { w * 35 / 100 };
    let head_w = if w / 2 < 1 { 1 } else { w / 2 };
    seq![
        (s.rect.x + (w - head_w) / 2, s.rect.y as int, head_w, head_h),
        (s.rect.x as int, s.rect.y + head_h, w, body_h),
        (s.rect.x as int, s.rect.y + h - leg_h, leg_w, leg_h),
        (s.rect.x + w - leg_w, s.rect.y + h - leg_h, leg_w, leg_h),
    ]
}

/// A silhouette's parts.
fn parts(s: &Silhouette) -> (r: [Part; 4])
    requires
        drawable(*s),
    ensures
        forall|i: int|
            0 <= i < 4 ==> (r[i].0 as int, r[i].1 as int, r[i].2 as int, r[i].3 as int) == #[trigger] spec_parts(
                *s,
            )[i],
{
    let (w, h) = (s.rect.w, s.rect.h);
    let (head_h, body_h) = (h / 4, h / 2);
    let leg_h = h - head_h - body_h;
    let leg_w = if w * 35 / 100 < 1 {
        1
    } else {
        w * 35 / 100
    };
    let head_w = if w / 2 < 1 {
        1
    } else {
        w / 2
    };
    let bottom = s.rect.y + h as i32;
    let right = s.rect.x + w as i32;
    [
        (s.rect.x + (w - head_w) as i32 / 2, s.rect.y, head_w, head_h),
        (s.rect.x, s.rect.y + head_h as i32, w, body_h),
        (s.rect.x, bottom - leg_h as i32, leg_w, leg_h),
        (right - leg_w as i32, bottom - leg_h as i32, leg_w, leg_h),
    ]
}

/// A fill of a part.
fn fill(color: Rgb, part: Part) -> (r: DrawOp)
    ensures
        r == spec_fill_op(color, part.0 as int, part.1 as int, part.2 as int, part.3 as int),
{
    let (x, y, width, height) = part;
    DrawOp { paint: Paint::Fill { color, width, height }, x, y }
}

/// One silhouette's ops: the four parts widened by a pixel in the rim colour, then the four
/// parts in the dark colour over them.
pub open spec fn spec_silhouette_ops(s: Silhouette) -> Seq<DrawOp> {
    let (rim, color) = if s.front {
        (RIM_FRONT, FRONT_COLOR)
    } else {
        (RIM_BACK, BACK_COLOR)
    };
    let p = spec_parts(s);
    Seq::new(4, |i: int| spec_fill_op(rim, p[i].0 - 1, p[i].1 - 1, p[i].2 + 2, p[i].3 + 2))
        + Seq::new(4, |i: int| spec_fill_op(color, p[i].0, p[i].1, p[i].2, p[i].3))
}

/// The ops of the first `n` silhouettes, in order.
pub open spec fn spec_ops(ss: Seq<Silhouette>, n: int) -> Seq<DrawOp>
    decreases n,
{
    if n <= 0 {
        Seq::empty()
    } else {
        spec_ops(ss, n - 1) + spec_silhouette_ops(ss[n - 1])
    }
}

/// The draw ops per silhouette: the four parts widened by a pixel in the rim colour, then the
/// head, body, and two legs as dark fills over them, so a one-pixel light edge outlines the
/// union of the parts.
pub fn ops(silhouettes: &[Silhouette]) -> (r: Vec<DrawOp>)
    requires
        forall|i: int| 0 <= i < silhouettes@.len() ==> drawable(#[trigger] silhouettes@[i]),
    ensures
        r@ == spec_ops(silhouettes@, silhouettes@.len() as int),
{
    let mut out: Vec<DrawOp> = Vec::new();
    let mut i: usize = 0;
    while i < silhouettes.len()
        invariant
            i <= silhouettes@.len(),
            forall|k: int| 0 <= k < silhouettes@.len() ==> drawable(#[trigger] silhouettes@[k]),
            out@ == spec_ops(silhouettes@, i as int),
        decreases silhouettes@.len() - i,
    {
        let s = &silhouettes[i];
        assert(drawable(*s));
        let (rim, color) = if s.front {
            (RIM_FRONT, FRONT_COLOR)
        } else {
            (RIM_BACK, BACK_COLOR)
        };
        let p = parts(s);
        let ghost start = out@;
        let ghost sp = spec_parts(*s);
        let mut k: usize = 0;
        while k < 4
            invariant
                k <= 4,
                drawable(*s),
                sp == spec_parts(*s),
                forall|j: int| 0 <= j < 4 ==> (p[j].0 as int, p[j].1 as int, p[j].2 as int, p[j].3 as int) == #[trigger] sp[j],
                out@ == start + Seq::new(k as nat, |j: int| spec_fill_op(rim, sp[j].0 - 1, sp[j].1 - 1, sp[j].2 + 2, sp[j].3 + 2)),
            decreases 4 - k,
        {
            let (x, y, w, h) = p[k];
            proof {
                assert((p[k as int].0 as int, p[k as int].1 as int, p[k as int].2 as int, p[k as int].3 as int) == sp[k as int]);
                assert(sp[k as int].2 <= 0x100_0000 && sp[k as int].3 <= 0x100_0000);
                assert(-0x2000_0000 <= sp[k as int].0 <= 0x2000_0000);
                assert(-0x2000_0000 <= sp[k as int].1 <= 0x2000_0000);
            }
            out.push(fill(rim, (x - 1, y - 1, w + 2, h + 2)));
            proof {
                assert(out@ =~= start + Seq::new((k + 1) as nat, |j: int| spec_fill_op(rim, sp[j].0 - 1, sp[j].1 - 1, sp[j].2 + 2, sp[j].3 + 2)));
            }
            k = k + 1;
        }
        let ghost mid = out@;
        let mut k: usize = 0;
        while k < 4
            invariant
                k <= 4,
                forall|j: int| 0 <= j < 4 ==> (p[j].0 as int, p[j].1 as int, p[j].2 as int, p[j].3 as int) == #[trigger] sp[j],
                out@ == mid + Seq::new(k as nat, |j: int| spec_fill_op(color, sp[j].0, sp[j].1, sp[j].2, sp[j].3)),
            decreases 4 - k,
        {
            out.push(fill(color, p[k]));
            proof {
                assert((p[k as int].0 as int, p[k as int].1 as int, p[k as int].2 as int, p[k as int].3 as int) == sp[k as int]);
                assert(out@ =~= mid + Seq::new((k + 1) as nat, |j: int| spec_fill_op(color, sp[j].0, sp[j].1, sp[j].2, sp[j].3)));
            }
            k = k + 1;
        }
        proof {
            assert(out@ =~= spec_ops(silhouettes@, i as int) + spec_silhouette_ops(*s));
        }
        i = i + 1;
    }
    out
}

/// Whether a draw op lies inside the viewport: a fill wholly, a sprite by its corner.
pub open spec fn spec_inside_viewport(op: DrawOp) -> bool {
    match op.paint {
        Paint::Fill { width, height, .. } => spec_viewport().spec_encloses(
            Rect { x: op.x, y: op.y, w: width, h: height },
        ),
        Paint::Sprite(_) => spec_viewport().spec_contains(op.x as int, op.y as int),
    }
}

/// Whether a draw op lies inside the viewport.
pub fn inside_viewport(op: &DrawOp) -> (r: bool)
    ensures
        r == spec_inside_viewport(*op),
{
    match op.paint {
        Paint::Fill { width, height, .. } => viewport().encloses(Rect::new(op.x, op.y, width, height)),
        Paint::Sprite(_) => viewport().contains(op.x, op.y),
    }
}

} // verus!
