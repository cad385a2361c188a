use omnis_app::canvas::{
    band_cell, Layout, BAND_COLUMNS, CAPTION_ROW, FIRST_MEMBER_ROW, LOG_CELLS, LOG_COLUMN,
    MEMBER_ROWS, MESSAGE_ROW, ROSTER_CELLS, ROWS_USED,
};
use omnis_app::layout::{
    band, overlay_map_clip, right_column, viewport, Rect, CANVAS_HEIGHT, CANVAS_WIDTH, CELL,
    SIDEBAR_MAP,
};

fn roster_rows(layout: &Layout) -> Vec<Rect> {
    (0..MEMBER_ROWS)
        .map(|slot| {
            let (x, y) = layout.slot_origin(slot).expect("a row per slot");
            Rect::new(x, y, ROSTER_CELLS as u32 * CELL.0 as u32, CELL.1 as u32)
        })
        .collect()
}

#[test]
fn the_narrow_layout_is_the_one_the_constants_describe() {
    let narrow = Layout::for_width(CANVAS_WIDTH);
    assert_eq!(narrow, omnis_app::canvas::narrow());
    assert_eq!(Layout::default(), narrow);
    assert_eq!(
        Layout::for_width(100),
        narrow,
        "narrower windows get the narrow canvas"
    );
    assert!(!narrow.is_wide());
    assert_eq!(narrow.core, (0, 0));
    assert_eq!(narrow.band, band());
    assert_eq!(
        narrow.canvas(),
        Rect::new(0, 0, CANVAS_WIDTH, CANVAS_HEIGHT)
    );
    assert_eq!(narrow.viewport(), viewport());
    assert_eq!(narrow.right_column(), right_column());
    assert_eq!(narrow.minimap(), SIDEBAR_MAP);
    assert_eq!(narrow.overlay_clip(), overlay_map_clip());
    for row in 0..ROWS_USED {
        for column in 0..=BAND_COLUMNS as i32 {
            assert_eq!(narrow.band_cell(column, row), band_cell(column, row));
        }
    }
    assert_eq!(narrow.band_columns(), BAND_COLUMNS);
    assert_eq!(narrow.log_column(), LOG_COLUMN);
    assert_eq!(narrow.log_cells(), LOG_CELLS);
    assert_eq!(narrow.roster_origin(), band_cell(0, CAPTION_ROW));
    for slot in 0..MEMBER_ROWS {
        assert_eq!(
            narrow.slot_origin(slot),
            Some(band_cell(0, FIRST_MEMBER_ROW + slot as i32))
        );
    }
    assert_eq!(narrow.slot_origin(MEMBER_ROWS), None);
    for row in roster_rows(&narrow) {
        assert!(band().encloses(row));
    }
}

#[test]
fn wide_layouts_centre_the_viewport_and_seat_the_roster_in_the_wing() {
    for width in [1716, 1720, 1920, 2560, 5120] {
        let layout = Layout::for_width(width);
        let wing = layout.wing.unwrap_or_else(|| panic!("{width} is wide"));
        let viewport = layout.viewport();
        let centred = viewport.x * 2 + viewport.w as i32;
        assert!(
            centred == width as i32 || centred + 1 == width as i32,
            "{width}"
        );
        let canvas = layout.canvas();
        let regions = [wing, viewport, layout.right_column(), layout.band];
        for (i, a) in regions.iter().enumerate() {
            assert!(canvas.encloses(*a), "{width}: {a:?}");
            for b in &regions[i + 1..] {
                assert!(!a.overlaps(*b), "{width}: {a:?} overlaps {b:?}");
            }
        }
        assert_eq!(wing.right(), viewport.x);
        assert_eq!(layout.band.x, wing.x);
        assert_eq!(layout.band.right(), layout.right_column().right());
        assert_eq!(layout.band.y, viewport.bottom());
        for row in roster_rows(&layout) {
            assert!(wing.encloses(row), "{width}: {row:?} leaves the wing");
            let marker = Rect::new(row.x - 5, row.y, 3, row.h);
            assert!(wing.encloses(marker), "{width}: the marker leaves the wing");
        }
        assert_eq!(layout.log_column(), 0);
        assert!(layout.log_cells() >= omnis_app::canvas::narrow().log_cells());
        let last = layout.band_cell(layout.band_columns() as i32, 0).0;
        assert!(
            last <= layout.band.right(),
            "{width}: the last column overflows"
        );
        assert!(layout.minimap().0 + layout.minimap().2 as i32 <= canvas.right());
    }
}

#[test]
fn widths_short_of_the_wing_centre_the_core_and_the_ultrawide_has_the_numbers() {
    let band = band();
    for width in [1281, 1666, 1715] {
        let layout = Layout::for_width(width);
        assert!(!layout.is_wide(), "{width}");
        assert_eq!(layout.core, ((width as i32 - CANVAS_WIDTH as i32) / 2, 0));
        assert_eq!(
            layout.band,
            Rect::new(layout.core.0, band.y, band.w, band.h)
        );
        assert_eq!(layout.log_cells(), LOG_CELLS);
        assert!(layout.canvas().encloses(layout.right_column()));
    }
    let ultrawide = Layout::for_width(2560);
    assert_eq!(ultrawide.core, (800, 0));
    assert_eq!(ultrawide.wing, Some(Rect::new(422, 0, 378, 540)));
    assert_eq!(ultrawide.viewport(), Rect::new(800, 0, 960, 540));
    assert_eq!(ultrawide.right_column(), Rect::new(1760, 0, 320, 540));
    assert_eq!(ultrawide.band, Rect::new(422, 540, 1658, 180));
    assert_eq!(ultrawide.minimap(), (1792, 8, 256, 256));
    assert_eq!(ultrawide.band_columns(), 275);
    assert_eq!(ultrawide.log_cells(), 275);
    assert_eq!(ultrawide.roster_origin(), (429, 8));
    assert_eq!(ultrawide.slot_origin(0), Some((429, 16)));
    assert_eq!(ultrawide.slot_origin(5), Some((429, 56)));
    assert_eq!(ultrawide.band_cell(0, MESSAGE_ROW), (429, 544));
}

#[test]
fn a_shift_moves_a_core_rectangle_by_the_core_corner() {
    let layout = Layout::for_width(2560);
    assert_eq!(layout.shift(Rect::new(1, 2, 3, 4)), Rect::new(801, 2, 3, 4));
    assert!(layout.is_wide());
}

#[test]
fn every_width_keeps_the_log_in_its_place() {
    for width in [0, CANVAS_WIDTH, 1715, 1716, 2560, i32::MAX as u32, i32::MAX as u32 + 961, u32::MAX] {
        let layout = Layout::for_width(width);
        if layout.is_wide() {
            assert_eq!(layout.log_column(), 0, "{width}");
            assert!(layout.log_cells() >= LOG_CELLS, "{width}");
        } else {
            assert_eq!(layout.log_column(), LOG_COLUMN, "{width}");
            assert_eq!(layout.log_cells(), LOG_CELLS, "{width}");
        }
    }
    let widest = Layout::for_width(u32::MAX);
    assert!(!widest.is_wide(), "past i32::MAX the offsets wrap as the cast wraps them");
    assert_eq!(widest.core, (-640, 0));
    assert!(Layout::for_width(i32::MAX as u32 + 1).is_wide());
}
