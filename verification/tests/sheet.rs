use omnis_app::layout::{menu_box, menu_cell, Rect, MENU_COLUMNS};
use omnis_app::menu::MenuKey;
use omnis_app::sheet_menu::{
    age_years, signed, slot_label, EquipSlot, SheetGear, SheetIntent, SheetMagic, SheetMenu, SheetPage,
    SheetView, SHEET_PAGES,
};
use omnis_app::sheet_screen::{columns, sheet, ROW_MEMBER};
use omnis_app::widget::{hit, Frame, Part, WidgetId, HI, TEXT};

fn assert_laid_out(frame: &Frame, area: Rect) {
    for (i, a) in frame.widgets.iter().enumerate() {
        assert!(area.encloses(a.rect), "{:?} leaves the menu area", a.id);
        for b in &frame.widgets[i + 1..] {
            assert!(!a.rect.overlaps(b.rect), "{:?} overlaps {:?}", a.id, b.id);
        }
    }
}

fn widest() -> SheetView {
    let long = "x".repeat(40);
    SheetView {
        name: long.clone(),
        race: long.clone(),
        class: long.clone(),
        level: 20,
        background: long.clone(),
        alignment: "Chaotic Neutral".to_owned(),
        age_years: 99_999,
        hp: (-999, 9999),
        sp: (999, 999),
        ac: 999,
        proficiency: 10,
        xp: 9_999_999,
        next_xp: Some(9_999_999),
        scores: [
            ("STR", 30, 10),
            ("DEX", 30, 10),
            ("CON", 30, 10),
            ("INT", 30, 10),
            ("WIS", 30, 10),
            ("CHA", 30, 10),
        ],
        saves: vec![("STR", 10), ("CON", 10)],
        skills: (0..18).map(|i| (format!("{long}{i}"), -10)).collect(),
        conditions: (0..8).map(|i| format!("{long}{i}")).collect(),
        magic: SheetMagic {
            casting: Some("Intelligence".to_owned()),
            points: (999, 999),
            spells: (0..20)
                .map(|i| (format!("{long}{i}"), "99 pt".to_owned()))
                .collect(),
            effects: (0..9)
                .map(|i| (format!("{long}{i}"), "999999 min".to_owned()))
                .collect(),
        },
        gear: SheetGear {
            slots: vec![
                ("Main hand".to_owned(), long.clone()),
                ("Off hand".to_owned(), long.clone()),
                ("Ranged".to_owned(), long.clone()),
                ("Body".to_owned(), long.clone()),
            ],
            carried: (0..20).map(|i| (format!("{long}{i}"), 65535)).collect(),
        },
    }
}

fn assert_no_text_past_the_grid(frame: &Frame) {
    let area = menu_box();
    let edge = menu_cell(MENU_COLUMNS, 0).0;
    for y in area.y..area.bottom() {
        for x in edge..area.right() {
            let lit = frame.raster.get(x, y).is_some_and(|p| p[3] != 0);
            assert!(!lit, "text past column {MENU_COLUMNS} at ({x}, {y})");
        }
    }
}

#[test]
fn every_page_fits_the_grid_at_its_widest() {
    let view = widest();
    for page in SHEET_PAGES {
        let menu = SheetMenu {
            member: 5,
            page,
            message: String::new(),
        };
        let mut frame = Frame::default();
        sheet(&mut frame, &menu, &view, 6);
        assert_laid_out(&frame, menu_box());
        assert_no_text_past_the_grid(&frame);
        assert_eq!(
            frame.widgets.len(),
            4,
            "{page:?}: three tabs and the member"
        );
        let member = frame.widget(WidgetId::Row(ROW_MEMBER)).unwrap();
        assert!(member.left.is_some() && member.right.is_some());
        let tab = frame.widget(WidgetId::Row(page.index())).unwrap();
        let h = hit(&frame.widgets, tab.rect.x, tab.rect.y).unwrap();
        assert_eq!((h.id, h.part), (WidgetId::Row(page.index()), Part::Body));
    }
    let mut frame = Frame::default();
    sheet(&mut frame, &SheetMenu::default(), &SheetView::default(), 1);
    assert_laid_out(&frame, menu_box());
    let mut blank = SheetView::default();
    blank.gear.slots = vec![("Main hand".to_owned(), "-".to_owned())];
    for page in SHEET_PAGES {
        let menu = SheetMenu {
            page,
            ..SheetMenu::default()
        };
        let mut frame = Frame::default();
        sheet(&mut frame, &menu, &blank, 1);
        assert_laid_out(&frame, menu_box());
    }
}

fn lit(frame: &Frame, column: i32, row: i32) -> bool {
    let (x, y) = menu_cell(column, row);
    (0..6).any(|dx| (0..8).any(|dy| frame.raster.get(x + dx, y + dy).is_some_and(|p| p[3] != 0)))
}

#[test]
fn columns_lay_entries_out_by_pitch_and_say_none_when_empty() {
    let mut frame = Frame::default();
    let entries: Vec<String> = (0..7).map(|i| format!("e{i}")).collect();
    columns(&mut frame, 2, 3, 26, 2, &entries, "none");
    assert!(
        lit(&frame, 1, 2) && lit(&frame, 27, 2) && lit(&frame, 53, 2),
        "three to a row"
    );
    assert!(lit(&frame, 1, 3) && lit(&frame, 53, 3), "the second row");
    assert!(!lit(&frame, 1, 4), "the seventh entry is past the rows");
    let mut frame = Frame::default();
    columns(&mut frame, 2, 3, 26, 2, &[], "none");
    assert!(lit(&frame, 1, 2), "says none");
}

#[test]
fn keys_move_the_member_and_the_page_and_close() {
    let mut menu = SheetMenu::default();
    menu.open(Some(5), 3);
    assert_eq!(menu.member, 2, "clamped to the party");
    assert_eq!(menu.key(MenuKey::Right, 3), None);
    assert_eq!(menu.member, 0, "wraps");
    menu.key(MenuKey::Left, 3);
    assert_eq!(menu.member, 2);
    assert_eq!(menu.page, SheetPage::Stats);
    menu.key(MenuKey::Char('\t'), 3);
    assert_eq!(menu.page, SheetPage::Magic);
    menu.key(MenuKey::Down, 3);
    assert_eq!(menu.page, SheetPage::Gear);
    menu.key(MenuKey::Down, 3);
    assert_eq!(menu.page, SheetPage::Stats, "wraps");
    menu.key(MenuKey::Up, 3);
    assert_eq!(menu.page, SheetPage::Gear);
    menu.click_row(1);
    assert_eq!(menu.page, SheetPage::Magic);
    menu.click_row(3);
    assert_eq!(menu.page, SheetPage::Magic, "the member row is not a tab");
    assert_eq!(menu.key(MenuKey::Enter, 3), None);
    assert_eq!(menu.key(MenuKey::Escape, 3), Some(SheetIntent::Close));
    assert_eq!(menu.key(MenuKey::Char('p'), 3), Some(SheetIntent::Close));
    menu.open(None, 0);
    assert_eq!(menu.member, 0);
    assert_eq!(menu.key(MenuKey::Right, 0), None, "an empty party is safe");
    assert_eq!(SheetPage::Gear.label(), "Gear");
    assert_eq!(slot_label(EquipSlot::OffHand), "Off hand");
}

#[test]
fn signs_and_the_selected_tab() {
    assert_eq!(signed(3), "+3");
    assert_eq!(signed(0), "+0");
    assert_eq!(signed(-2), "-2");
    let mut frame = Frame::default();
    let menu = SheetMenu { page: SheetPage::Magic, ..SheetMenu::default() };
    sheet(&mut frame, &menu, &widest(), 6);
    let tab = *frame.widget(WidgetId::Row(1)).unwrap();
    assert_eq!(
        frame.raster.get(tab.rect.x - 5, tab.rect.y + 1),
        Some([HI.0, HI.1, HI.2, 255])
    );
    let (x, y) = menu_cell(1, 3);
    assert!((0..8).any(|dy| (0..6).any(|dx| frame.raster.get(x + dx, y + dy) == Some([TEXT.0, TEXT.1, TEXT.2, 255]))));
}

#[test]
fn age_counts_whole_years_lived_since_creation() {
    let year = 1440 * 365;
    assert_eq!(age_years(24, 1000, 1000), 24);
    assert_eq!(age_years(24, 1000, 1000 + 2 * year + 5), 26, "two subjective years passed");
    assert_eq!(age_years(24, 1000, 1000 + year - 1), 24, "a year not yet full");
    assert_eq!(age_years(24, 1000, 0), 24, "a clock behind the creation adds nothing");
}
