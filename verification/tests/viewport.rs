use omnis_app::debug_menu::Facing;
use omnis_app::plan::EdgeView::{Door, Open, Wall};
use omnis_app::plan::{
    automap, automap_window, detail_ops, DrawOp, EdgeView, KnownTile, MapSurfaces, Paint, Sides,
    Slot, TerrainSurfaces, TileView,
};

const DEPTHS: u8 = 4;

/// Every surface of the test dungeon at every depth and offset the cone reaches.
fn slots() -> Vec<Slot> {
    let mut slots = Vec::new();
    for surface in [
        "floor",
        "ceiling",
        "wall.left",
        "wall.right",
        "wall.front",
        "door",
        "door.open",
        "rock",
    ] {
        for depth in 0..DEPTHS {
            for offset in -3i8..=3 {
                let (x, y) = if surface == "door" && depth == 0 && offset == 0 {
                    (59, 7)
                } else {
                    (i16::from(offset) * 10, i16::from(depth))
                };
                slots.push(Slot {
                    surface: surface.to_owned(),
                    depth,
                    offset,
                    path: format!("assets/tilesets/dungeon/{surface}_d{depth}_o{offset}.png"),
                    x,
                    y,
                });
            }
        }
    }
    slots
}

/// Corridor floor (0) and a rock pillar (1).
fn dungeon() -> MapSurfaces {
    MapSurfaces {
        terrains: vec![
            TerrainSurfaces {
                floor: "floor".to_owned(),
                ceiling: Some("ceiling".to_owned()),
                block: None,
            },
            TerrainSurfaces {
                floor: "floor".to_owned(),
                ceiling: None,
                block: Some("rock".to_owned()),
            },
        ],
        wall_left: "wall.left".to_owned(),
        wall_right: "wall.right".to_owned(),
        wall_front: "wall.front".to_owned(),
        door: "door".to_owned(),
        door_open: Some("door.open".to_owned()),
    }
}

fn tile(depth: u8, offset: i8, terrain: u16, left: EdgeView, right: EdgeView, front: EdgeView) -> TileView {
    TileView {
        depth,
        offset,
        terrain,
        left,
        right,
        front,
    }
}

fn sprites(ops: &[DrawOp]) -> Vec<&str> {
    ops.iter()
        .filter_map(|o| match &o.paint {
            Paint::Sprite(p) => Some(p.as_str()),
            Paint::Fill { .. } => None,
        })
        .collect()
}

#[test]
fn dungeon_corridor_draws_each_wall_plane_once() {
    // A corridor one tile wide running east; the tiles either side are rock walls' faces.
    let tiles = vec![
        tile(0, -1, 0, Wall, Wall, Wall),
        tile(0, 0, 0, Wall, Wall, Door { open: false }),
        tile(0, 1, 0, Wall, Wall, Wall),
        tile(1, 0, 0, Wall, Wall, Open),
    ];
    let ops = detail_ops(&tiles, 2, &dungeon(), &slots());
    let paths = sprites(&ops);
    assert_eq!(
        paths.last().copied(),
        Some("assets/tilesets/dungeon/door_d0_o0.png"),
        "the closed door ahead is drawn last: {paths:?}"
    );
    assert!(paths.contains(&"assets/tilesets/dungeon/floor_d0_o0.png"));
    assert!(paths.contains(&"assets/tilesets/dungeon/ceiling_d0_o0.png"));
    assert!(
        !paths
            .iter()
            .any(|p| p.contains("wall.left_d0_o1") || p.contains("wall.right_d0_o-1")),
        "no plane twice"
    );
    let placed = ops
        .iter()
        .find(|o| matches!(&o.paint, Paint::Sprite(p) if p.ends_with("door_d0_o0.png")))
        .unwrap();
    assert_eq!(
        (placed.x, placed.y),
        (59, 7),
        "slot position comes from the tileset"
    );
    let d1 = paths.iter().position(|p| p.contains("_d1_")).unwrap();
    let d0 = paths.iter().position(|p| p.contains("_d0_")).unwrap();
    assert!(d1 < d0, "far rows before near rows");
}

#[test]
fn a_pillar_is_a_block_drawn_after_its_row() {
    // The pillar two tiles ahead; the room's north wall is in the same row.
    let tiles = vec![
        tile(0, 0, 0, Open, Open, Open),
        tile(1, 0, 0, Open, Open, Open),
        tile(2, -2, 0, Wall, Open, Open),
        tile(2, 0, 1, Open, Open, Open),
    ];
    let ops = detail_ops(&tiles, 3, &dungeon(), &slots());
    let paths = sprites(&ops);
    let block = paths
        .iter()
        .position(|p| p.ends_with("rock_d2_o0.png"))
        .expect("the pillar ahead is a block");
    let last_wall_d2 = paths
        .iter()
        .rposition(|p| p.contains("wall") && p.contains("_d2_"))
        .expect("wall.left_d2_o-2 along the north wall");
    let floor_d2 = paths
        .iter()
        .position(|p| p.ends_with("floor_d2_o0.png"))
        .unwrap();
    assert!(floor_d2 < last_wall_d2 && last_wall_d2 < block);
    assert!(
        paths.iter().position(|p| p.contains("_d0_")).unwrap() > block,
        "nearer rows paint over the block"
    );
}

#[test]
fn rows_go_outer_offsets_first_and_open_doors_show_their_frame() {
    let tiles = vec![
        tile(0, 0, 0, Open, Open, Door { open: true }),
        tile(0, 1, 0, Open, Open, Open),
        tile(0, -2, 0, Open, Open, Open),
        tile(0, 2, 0, Open, Open, Open),
        tile(3, 0, 0, Open, Open, Open),
    ];
    let ops = detail_ops(&tiles, 1, &dungeon(), &slots());
    let paths = sprites(&ops);
    assert_eq!(
        paths,
        vec![
            "assets/tilesets/dungeon/floor_d0_o-2.png",
            "assets/tilesets/dungeon/ceiling_d0_o-2.png",
            "assets/tilesets/dungeon/floor_d0_o2.png",
            "assets/tilesets/dungeon/ceiling_d0_o2.png",
            "assets/tilesets/dungeon/floor_d0_o1.png",
            "assets/tilesets/dungeon/ceiling_d0_o1.png",
            "assets/tilesets/dungeon/floor_d0_o0.png",
            "assets/tilesets/dungeon/ceiling_d0_o0.png",
            "assets/tilesets/dungeon/door.open_d0_o0.png",
        ],
        "the row beyond detail depth draws nothing here"
    );
    let mut shut = dungeon();
    shut.door_open = None;
    let ops = detail_ops(&tiles[..1], 1, &shut, &slots());
    assert_eq!(ops.len(), 2, "no frame when the map draws none");
    assert!(detail_ops(&tiles, 1, &dungeon(), &[]).is_empty(), "no slots, no sprites");
}

fn no_sides() -> Sides {
    Sides {
        north: false,
        south: false,
        west: false,
        east: false,
    }
}

fn meadow_known() -> Vec<KnownTile> {
    let grass = (40, 160, 60);
    let mut known = Vec::new();
    for x in 4..8u16 {
        for y in 15..18u16 {
            known.push(KnownTile {
                x,
                y,
                color: grass,
                visited: x >= 5,
                walls: Sides {
                    west: x == 4,
                    ..no_sides()
                },
                doors: no_sides(),
            });
        }
    }
    known
}

#[test]
fn automap_marks_known_tiles_walls_and_the_party() {
    let known = meadow_known();
    let ops = automap((32, 32), &known, (5, 16, Facing::West), (10, 10), 4);
    assert!(ops.len() > 2);
    let party = &ops[ops.len() - 2];
    assert_eq!((party.x, party.y), (10 + 5 * 4 + 1, 10 + 16 * 4 + 1));
    let mark = &ops[ops.len() - 1];
    assert_eq!(
        (mark.x, mark.y),
        (10 + 5 * 4, 10 + 16 * 4 + 2),
        "facing west: mark on the west edge, mid-height"
    );
    let wall_edges = ops
        .iter()
        .filter(|o| {
            matches!(
                o.paint,
                Paint::Fill {
                    color: (0, 0, 0),
                    ..
                }
            )
        })
        .count();
    assert!(wall_edges > 0, "the hedge is in view to the west");
    assert_eq!(ops[0], DrawOp::fill((20, 20, 28), 9, 9, 130, 130), "the border");
    assert_eq!(
        ops[1],
        DrawOp::fill((20, 80, 30), 26, 70, 4, 4),
        "an unvisited tile is dimmed"
    );
    assert_eq!(ops[2], DrawOp::fill((0, 0, 0), 26, 70, 1, 4), "its west wall");
}

#[test]
fn automap_window_centres_small_maps_and_scrolls_large_ones() {
    let known = meadow_known();
    let party = (16, 16, Facing::North);
    let rect = (248, 8, 64, 64);
    let fitted = automap_window((32, 32), &known, party, rect, 2);
    let inside = |op: &DrawOp| match op.paint {
        Paint::Fill { width, height, .. } => {
            op.x >= rect.0
                && op.y >= rect.1
                && op.x + width as i32 <= rect.0 + 64
                && op.y + height as i32 <= rect.1 + 64
        }
        Paint::Sprite(_) => false,
    };
    assert!(
        fitted.iter().all(inside),
        "a 32x32 map at 2 px fits the sidebar"
    );
    assert_eq!(
        (fitted[1].x, fitted[1].y),
        (248, 8),
        "a 64 px map fills the sidebar; its border is clipped"
    );
    let scrolled = automap_window((32, 32), &known, party, rect, 4);
    assert!(
        scrolled.iter().all(inside),
        "a 128 px map is clipped to the 64 px sidebar"
    );
    let mark = &scrolled[scrolled.len() - 2];
    assert_eq!(
        (mark.x, mark.y),
        (248 + 32 - 2 + 1, 8 + 32 - 2 + 1),
        "party centred"
    );
    let cornered = automap_window((32, 32), &known, (0, 0, Facing::North), rect, 4);
    let mark = &cornered[cornered.len() - 2];
    assert_eq!(
        (mark.x, mark.y),
        (249, 9),
        "the map's edge stays at the rect's edge"
    );
    let small = automap_window((8, 8), &[], (0, 0, Facing::South), rect, 2);
    assert_eq!(
        (small[1].x, small[1].y),
        (248 + 24 - 1, 8 + 24 - 1),
        "a 16 px map is centred with its border"
    );
}
