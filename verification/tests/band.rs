use omnis_app::band::{
    band, row_style, slot_origin, Band, MemberRow, BAND_COLUMNS, CAPTIONS, CAPTION_ROW,
    COLUMN_STARTS, FIRST_MEMBER_ROW, HELP_ROW, LOG_CELLS, LOG_COLUMN, LOG_ROWS, MEMBER_ROWS,
    MESSAGE_ROW, ROSTER_CELLS, band_cell,
};
use omnis_app::layout::{self, Rect, CELL};
use omnis_app::panels::Message;
use omnis_app::widget::{Frame, ALERT, DIM, FRAME, HI, TEXT};

fn member(name: &str) -> MemberRow {
    MemberRow {
        name: name.to_owned(),
        class: "Fighter".to_owned(),
        level: 1,
        hp: 12,
        hp_max: 12,
        sp: 0,
        ac: 16,
        condition: None,
    }
}

fn view<'a>(
    members: &'a [MemberRow],
    selected: Option<usize>,
    acting: Option<usize>,
    log: &'a [String],
    message: &'a Message,
) -> Band<'a> {
    Band {
        message,
        members,
        front_row: 3,
        selected,
        acting,
        log,
        help: "help",
    }
}

fn rgb(frame: &Frame, x: i32, y: i32) -> Option<(u8, u8, u8)> {
    frame.raster.get(x, y).map(|p| (p[0], p[1], p[2]))
}

fn row(column: i32, r: i32, cells: usize) -> Rect {
    let (x, y) = band_cell(column, r);
    Rect::new(x, y, cells as u32 * CELL.0 as u32, CELL.1 as u32)
}

#[test]
fn regions_fit_the_band_and_do_not_overlap() {
    let band_rect = layout::band();
    let message = row(0, MESSAGE_ROW, BAND_COLUMNS);
    let caption = row(0, CAPTION_ROW, ROSTER_CELLS);
    let help = row(0, HELP_ROW, BAND_COLUMNS);
    let log = Rect::new(
        band_cell(LOG_COLUMN, FIRST_MEMBER_ROW).0,
        band_cell(LOG_COLUMN, FIRST_MEMBER_ROW).1,
        LOG_CELLS as u32 * CELL.0 as u32,
        LOG_ROWS as u32 * CELL.1 as u32,
    );
    let rows: Vec<Rect> = (0..MEMBER_ROWS)
        .map(|slot| {
            let (x, y) = slot_origin(slot).unwrap();
            Rect::new(x, y, ROSTER_CELLS as u32 * CELL.0 as u32, CELL.1 as u32)
        })
        .collect();
    for r in [message, caption, help, log].iter().chain(&rows) {
        assert!(band_rect.encloses(*r), "{r:?}");
    }
    assert!(message.bottom() <= caption.y && caption.bottom() <= rows[0].y);
    assert!(rows[MEMBER_ROWS - 1].bottom() <= help.y && log.bottom() <= help.y);
    for r in &rows {
        assert!(!r.overlaps(log), "{r:?}");
    }
    assert!(slot_origin(MEMBER_ROWS).is_none());
    assert!(
        band_cell(0, 0).0 >= 5,
        "room for the marker before the roster"
    );
    assert!(band_cell(BAND_COLUMNS as i32, 0).0 <= band_rect.right());
}

#[test]
fn roster_rows_fit_sixty_one_cells_at_their_widest() {
    let wide = MemberRow {
        name: "Bartholomew Longname the Third".to_owned(),
        class: "Battle Chaplain of the Dawn".to_owned(),
        level: 200,
        hp: -999,
        hp_max: 9999,
        sp: 999,
        ac: -99,
        condition: Some("Unconscious and afraid".to_owned()),
    };
    let cells = wide.cells("front", row_style(false, false));
    assert_eq!(cells.len(), COLUMN_STARTS.len());
    for (i, (column, text, _)) in cells.iter().enumerate() {
        let end = column + text.chars().count() as i32;
        assert!(end <= ROSTER_CELLS as i32, "{text:?} ends at {end}");
        if let Some((next, _, _)) = cells.get(i + 1) {
            assert!(end < *next, "{text:?} runs into the next column");
        }
    }
    assert_eq!(cells[1].1, "Bartholomew Long");
    assert_eq!(cells[3].1, "99");
    assert_eq!(cells[4].1, "-99/999");
    assert_eq!(cells[7].1, "Unconsciou");
    let last = (COLUMN_STARTS[7], CAPTIONS[7]);
    assert!(last.0 + last.1.len() as i32 <= ROSTER_CELLS as i32);
}

#[test]
fn the_acting_row_differs_from_selected_and_plain_rows() {
    let members = [member("Brenna"), member("Durin"), member("Ilvara")];
    let message = Message::default();
    let mut frame = Frame::default();
    band(&mut frame, &view(&members, Some(1), Some(0), &[], &message));
    let bar = |frame: &Frame, slot: usize| {
        let (x, y) = slot_origin(slot).unwrap();
        rgb(frame, x + 5 * CELL.0 + 2, y + 3)
    };
    assert_eq!(bar(&frame, 0), Some(FRAME), "the acting row is barred");
    assert_eq!(bar(&frame, 1), Some((0, 0, 0)), "the selected row is not");
    assert_eq!(bar(&frame, 2), Some((0, 0, 0)));
    let name_ink = |frame: &Frame, slot: usize| {
        let (x, y) = slot_origin(slot).unwrap();
        (0..16 * CELL.0)
            .flat_map(|dx| (0..CELL.1).map(move |dy| (dx, dy)))
            .find_map(|(dx, dy)| {
                rgb(frame, x + 6 * CELL.0 + dx, y + dy).filter(|c| *c == HI || *c == TEXT)
            })
    };
    assert_eq!(name_ink(&frame, 1), Some(HI), "the selected name is highlighted");
    assert_eq!(name_ink(&frame, 2), Some(TEXT));
    let (x, y) = slot_origin(0).unwrap();
    assert_eq!(
        rgb(&frame, x - 4, y + 3),
        Some(HI),
        "the marker points at the acting row"
    );
    let (x, y) = slot_origin(1).unwrap();
    assert_ne!(rgb(&frame, x - 4, y + 3), Some(HI));
    assert_eq!(frame.widgets.len(), 3);
    let mut frame = Frame::default();
    band(&mut frame, &view(&members, Some(1), Some(1), &[], &message));
    let (x, y) = slot_origin(1).unwrap();
    assert_eq!(rgb(&frame, x + 5 * CELL.0 + 2, y + 3), Some(FRAME));
    assert_eq!(rgb(&frame, x - 4, y + 3), Some(HI));
    assert_eq!(name_ink(&frame, 1), Some(HI));
}

#[test]
fn the_log_anchors_its_newest_line_at_the_bottom() {
    let members = [member("Brenna")];
    let message = Message::default();
    let lines: Vec<String> = (0..3).map(|i| format!("Line {i} HHHH")).collect();
    let mut frame = Frame::default();
    band(&mut frame, &view(&members, None, None, &lines, &message));
    let last = FIRST_MEMBER_ROW + LOG_ROWS as i32 - 1;
    let ink = |frame: &Frame, row: i32| {
        let (x, y) = band_cell(LOG_COLUMN, row);
        (0..12 * CELL.0).find_map(|dx| rgb(frame, x + dx, y + 3).filter(|c| *c != (0, 0, 0)))
    };
    assert_eq!(ink(&frame, last), Some(TEXT), "the newest line is bright");
    assert_eq!(ink(&frame, last - 1), Some(DIM), "older lines are dim");
    assert_eq!(ink(&frame, last - 3), None, "nothing above the tail");
    assert_eq!(ink(&frame, FIRST_MEMBER_ROW), None);
    let long = vec!["H".repeat(LOG_CELLS + 20)];
    let mut frame = Frame::default();
    band(&mut frame, &view(&members, None, None, &long, &message));
    let (x, y) = band_cell(LOG_COLUMN, last);
    assert_eq!(
        rgb(&frame, x + (LOG_CELLS as i32 - 1) * CELL.0, y + 3),
        Some(TEXT)
    );
    assert_ne!(
        rgb(&frame, x + LOG_CELLS as i32 * CELL.0, y + 3),
        Some(TEXT)
    );
    let message = Message {
        text: "Hello".to_owned(),
        alert: true,
    };
    let mut frame = Frame::default();
    band(&mut frame, &view(&members, None, None, &[], &message));
    let (x, y) = band_cell(0, MESSAGE_ROW);
    assert!((0..30).any(|dx| rgb(&frame, x + dx, y + 3) == Some(ALERT)));
    let (x, y) = band_cell(0, HELP_ROW);
    assert!((0..24).any(|dx| rgb(&frame, x + dx, y + 3) == Some(DIM)));
}

#[test]
fn a_short_member_row_pads_and_tints_low_hit_points() {
    let mut m = member("Brenna");
    m.hp = 2;
    assert!(m.hp_low());
    let cells = m.cells("", row_style(true, true));
    assert_eq!(cells[0].1, "     ");
    assert_eq!(cells[1].1, "Brenna          ");
    assert_eq!(cells[1].2, HI);
    assert_eq!(cells[4].1, "  2/12 ");
    assert_eq!(cells[4].2, ALERT);
    assert_eq!(cells[6].1, "16");
    assert_eq!(cells[7].1, "");
    let style = row_style(true, false);
    assert_eq!(style.fill, Some(FRAME));
    assert!(style.marker);
    assert_eq!(style.name, TEXT);
}
