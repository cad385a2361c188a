use omnis_app::layout::{
    band, canvas, cell, menu_cell, overlay_map_clip, pad, pad_buttons, right_column, viewport,
    Rect, BAND_COLUMNS, BAND_BACK_X, BAND_FRONT_X, BAND_HELP, BAND_MESSAGE, BAND_ROWS,
    BAND_ROW_COLUMNS, CANVAS_HEIGHT, CANVAS_WIDTH, CELL, COLUMNS, HUD_COLUMNS, HUD_LINES,
    MENU_COLUMNS, MENU_ROWS, ROWS, SIDEBAR_MAP,
};

#[test]
fn rectangles_test_points_and_overlaps() {
    let r = Rect::new(10, 20, 5, 4);
    assert!(r.contains(10, 20) && r.contains(14, 23));
    assert!(!r.contains(15, 23) && !r.contains(14, 24) && !r.contains(9, 20));
    assert!(r.overlaps(Rect::new(14, 23, 3, 3)));
    assert!(!r.overlaps(Rect::new(15, 20, 3, 3)));
    assert!(!r.overlaps(Rect::new(10, 24, 3, 3)));
    assert!(r.encloses(Rect::new(11, 21, 4, 3)));
    assert!(!r.encloses(Rect::new(11, 21, 5, 3)));
    assert_eq!(r.tuple(), (10, 20, 5, 4));
}

#[test]
fn regions_are_inside_the_canvas_and_disjoint() {
    let regions = [viewport(), right_column(), band()];
    for (i, a) in regions.iter().enumerate() {
        assert!(canvas().encloses(*a), "{a:?}");
        for b in &regions[i + 1..] {
            assert!(!a.overlaps(*b), "{a:?} overlaps {b:?}");
        }
    }
    assert!(viewport().encloses(overlay_map_clip()));
    let map = Rect::new(SIDEBAR_MAP.0, SIDEBAR_MAP.1, SIDEBAR_MAP.2, SIDEBAR_MAP.3);
    assert!(right_column().encloses(map) && right_column().encloses(pad()));
    let hud_width = HUD_COLUMNS as u32 * CELL.0 as u32;
    for (x, y) in HUD_LINES {
        let line = Rect::new(x, y, hud_width, CELL.1 as u32);
        assert!(right_column().encloses(line), "{line:?}");
        assert!(!line.overlaps(map) && !line.overlaps(pad()), "{line:?}");
    }
    let buttons: Vec<Rect> = (0..7).map(pad_buttons).collect();
    for (i, a) in buttons.iter().enumerate() {
        assert!(pad().encloses(*a), "{a:?}");
        for b in &buttons[i + 1..] {
            assert!(!a.overlaps(*b), "{a:?} overlaps {b:?}");
        }
    }
    let row_width = BAND_ROW_COLUMNS as u32 * CELL.0 as u32;
    for y in BAND_ROWS {
        let front = Rect::new(BAND_FRONT_X, y, row_width, CELL.1 as u32);
        let back = Rect::new(BAND_BACK_X, y, row_width, CELL.1 as u32);
        assert!(band().encloses(front) && band().encloses(back) && !front.overlaps(back));
    }
    let line_width = BAND_COLUMNS as u32 * CELL.0 as u32;
    let message = Rect::new(BAND_MESSAGE.0, BAND_MESSAGE.1, line_width, CELL.1 as u32);
    let help = Rect::new(BAND_HELP.0, BAND_HELP.1, line_width, CELL.1 as u32);
    assert!(band().encloses(message) && band().encloses(help));
    assert!(message.bottom() <= BAND_ROWS[0] && BAND_ROWS[2] + CELL.1 <= help.y);
    assert_eq!(cell(0, 0), (1, 0));
    assert_eq!(
        cell(MENU_COLUMNS, 0).0,
        viewport().right() + 1,
        "the column past the menu grid clears the viewport by a pixel"
    );
    assert!(cell(MENU_COLUMNS - 1, MENU_ROWS - 1).1 + CELL.1 <= viewport().bottom());
    let (w, h) = (CANVAS_WIDTH as i32, CANVAS_HEIGHT as i32);
    assert!(COLUMNS * CELL.0 <= w && (COLUMNS + 1) * CELL.0 > w);
    assert!(ROWS * CELL.1 <= h && (ROWS + 1) * CELL.1 > h);
    assert!(
        HUD_LINES[2].1 + CELL.1 <= pad().y,
        "the location lines end above the pad"
    );
}

#[test]
fn the_constants_are_the_expressions_of_the_inputs() {
    assert_eq!(COLUMNS, CANVAS_WIDTH as i32 / CELL.0);
    assert_eq!(ROWS, CANVAS_HEIGHT as i32 / CELL.1);
    assert_eq!(MENU_COLUMNS, viewport().w as i32 / CELL.0);
    assert_eq!(MENU_ROWS, viewport().h as i32 / CELL.1);
    assert_eq!(HUD_COLUMNS, ((right_column().w as i32 - 2) / CELL.0) as usize);
    assert_eq!(BAND_COLUMNS, ((CANVAS_WIDTH as i32 - 2 * 4) / CELL.0) as usize);
    assert_eq!(menu_cell(3, 4), cell(3, 4));
    assert_eq!(pad_buttons(6), Rect::new(968, 492, 304, 40));
    assert_eq!(pad_buttons(4), Rect::new(1072, 444, 96, 40));
    assert_eq!(overlay_map_clip(), Rect::new(8, 8, 944, 524));
}

#[test]
fn far_edges_and_wrapped_rectangles() {
    let r = Rect::new(-5, -5, 10, 10);
    assert_eq!((r.right(), r.bottom()), (5, 5));
    assert_eq!(r.shifted(3, -2), Rect::new(-2, -7, 10, 10));
    let wide = Rect::new(i32::MAX - 1, 0, 5, 1);
    assert!(wide.contains(i32::MAX, 0), "points past the last coordinate count");
    assert!(!Rect::new(0, 0, 0, 5).contains(0, 0), "an empty rectangle holds nothing");
    assert!(Rect::new(0, 0, 10, 10).encloses(Rect::new(3, 3, 0, 0)));
}
