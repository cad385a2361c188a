use omnis_app::actors::{inside_viewport, ops, Silhouette, BACK_COLOR, FRONT_COLOR, RIM_BACK, RIM_FRONT};
use omnis_app::hash::fnv1a64;
use omnis_app::layout::Rect;
use omnis_app::plan::{clip, dim, shade, DrawOp, Paint};

#[test]
fn fills_clip_to_the_rect_and_sprites_pass() {
    let op = DrawOp::fill((1, 2, 3), -5, 10, 20, 20);
    assert_eq!(
        clip(op, (0, 0, 10, 15)),
        Some(DrawOp::fill((1, 2, 3), 0, 10, 10, 5))
    );
    assert_eq!(clip(DrawOp::fill((1, 2, 3), 20, 20, 4, 4), (0, 0, 10, 10)), None);
    let sprite = DrawOp::sprite("a.png", -3, 4);
    assert_eq!(sprite.x, -3);
    assert_eq!(
        clip(DrawOp::sprite("a.png", -3, 4), (0, 0, 1, 1)),
        Some(sprite)
    );
}

#[test]
fn shading_halves_at_the_visibility_limit() {
    assert_eq!(shade((200, 100, 50), 2, 2, 6), (200, 100, 50));
    assert_eq!(shade((200, 100, 50), 6, 2, 6), (100, 50, 25));
    assert_eq!(shade((200, 100, 50), 9, 2, 6), (100, 50, 25));
    assert_eq!(shade((200, 100, 50), 4, 2, 6), (150, 75, 37));
    assert_eq!(shade((200, 100, 50), 5, 3, 3), (100, 50, 25));
    assert_eq!(dim((201, 3, 0)), (100, 1, 0));
}

#[test]
fn a_silhouette_is_four_rims_then_four_fills() {
    let s = Silhouette { index: 0, rect: Rect::new(100, 200, 20, 40), front: true };
    let out = ops(&[s]);
    assert_eq!(out.len(), 8);
    let fill = |op: &DrawOp| match op.paint {
        Paint::Fill { color, width, height } => (color, op.x, op.y, width, height),
        Paint::Sprite(_) => panic!("a fill"),
    };
    assert_eq!(fill(&out[4]), (FRONT_COLOR, 105, 200, 10, 10), "the head is on top");
    assert_eq!(fill(&out[5]), (FRONT_COLOR, 100, 210, 20, 20));
    assert_eq!(fill(&out[6]), (FRONT_COLOR, 100, 230, 7, 10));
    assert_eq!(fill(&out[7]), (FRONT_COLOR, 113, 230, 7, 10), "the legs stand apart");
    assert_eq!(fill(&out[0]), (RIM_FRONT, 104, 199, 12, 12));
    let back = Silhouette { index: 1, rect: Rect::new(0, 0, 1, 4), front: false };
    let out = ops(&[s, back]);
    assert_eq!(out.len(), 16);
    assert_eq!(fill(&out[8]).0, RIM_BACK);
    assert_eq!(fill(&out[12]).0, BACK_COLOR);
    assert_eq!(fill(&out[12]), (BACK_COLOR, 0, 0, 1, 1));
}

#[test]
fn inside_the_viewport_means_wholly_for_fills() {
    assert!(inside_viewport(&DrawOp::fill((0, 0, 0), 0, 0, 960, 540)));
    assert!(!inside_viewport(&DrawOp::fill((0, 0, 0), 1, 0, 960, 540)));
    assert!(inside_viewport(&DrawOp::sprite("x", 959, 539)));
    assert!(!inside_viewport(&DrawOp::sprite("x", 960, 0)));
}

#[test]
fn fnv1a_matches_the_reference_vectors() {
    assert_eq!(fnv1a64(b""), 0xcbf2_9ce4_8422_2325);
    assert_eq!(fnv1a64(b"a"), 0xaf63_dc4c_8601_ec8c);
    assert_eq!(fnv1a64(b"foobar"), 0x8594_4171_f739_67e8);
}
