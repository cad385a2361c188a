use omnis_app::creation_menu::{
    Alignment, Catalog, ClassSkills, CreationForm, Label, Skill, ALIGNMENTS, ROW_RACE, ROW_SCORES,
    ROW_SKILLS,
};
use omnis_app::layout::{menu_box, menu_cell, viewport, Rect, MENU_COLUMNS};
use omnis_app::menu::{NewGameForm, Pause, SaveRule, Settings, Title};
use omnis_app::screens::{
    creation, item, item_state, label_right, modal, new_game, pause, row_rect, title, ItemState,
};
use omnis_app::widget::{hit, Frame, Kind, Part, WidgetId, DIM, FRAME, HI, PANEL, TEXT};

fn assert_laid_out(frame: &Frame, area: Rect) {
    for (i, a) in frame.widgets.iter().enumerate() {
        assert!(area.encloses(a.rect), "{:?} leaves the menu area", a.id);
        for b in &frame.widgets[i + 1..] {
            assert!(!a.rect.overlaps(b.rect), "{:?} overlaps {:?}", a.id, b.id);
        }
    }
}

#[test]
fn a_disabled_item_is_dim_and_inert_and_a_modal_boxes_its_buttons() {
    let mut frame = Frame::default();
    item_state(
        &mut frame,
        WidgetId::Row(0),
        Kind::Button,
        (1, 1),
        "Off",
        3,
        ItemState::Disabled,
    );
    let w = frame.widget(WidgetId::Row(0)).unwrap();
    assert!(!w.enabled);
    assert_eq!(hit(&frame.widgets, w.rect.x, w.rect.y), None);
    let (x, y) = menu_cell(1, 1);
    assert_eq!(frame.raster.get(x, y + 1), Some([DIM.0, DIM.1, DIM.2, 255]));
    let mut frame = Frame::default();
    let rect = Rect::new(48, 32, 144, 64);
    let inside = (rect.x + 2, rect.y + rect.h as i32 / 2);
    let outside = (rect.x - 10, rect.y - 10);
    modal(
        &mut frame,
        rect,
        "The party has fallen",
        &["Every member is down."],
        &["Load last save", "Quit to title"],
        1,
    );
    assert_laid_out(&frame, rect);
    assert_eq!(frame.widgets.len(), 2);
    for w in &frame.widgets {
        assert!(rect.encloses(w.rect), "{:?}", w.id);
    }
    assert_eq!(
        frame.raster.get(rect.x, rect.y),
        Some([FRAME.0, FRAME.1, FRAME.2, 255])
    );
    assert_eq!(
        frame.raster.get(inside.0, inside.1),
        Some([PANEL.0, PANEL.1, PANEL.2, 255]),
        "the margin inside the frame is panel"
    );
    assert_eq!(
        frame.raster.get(outside.0, outside.1),
        Some([0, 0, 0, 0]),
        "outside is untouched"
    );
    let quit = frame.widget(WidgetId::Row(1)).unwrap();
    assert_eq!(
        frame.raster.get(quit.rect.x - 5, quit.rect.y + 1),
        Some([HI.0, HI.1, HI.2, 255]),
        "the marker sits before the cursor's button"
    );
}

#[test]
fn the_title_paints_three_buttons_and_marks_the_cursor() {
    let mut frame = Frame::default();
    title(&mut frame, &Title { cursor: 1 });
    assert_eq!(frame.widgets.len(), 3);
    let painted = frame.raster.rgba.chunks(4).filter(|p| p[3] != 0).count();
    assert!(painted > 100, "the title paints glyphs and a marker");
    let load = frame.widget(WidgetId::Row(1)).unwrap();
    assert_eq!(load.rect, row_rect(73, 8, 15));
    assert_eq!(
        frame.raster.get(load.rect.x - 5, load.rect.y + 1),
        Some([HI.0, HI.1, HI.2, 255])
    );
    let new = frame.widget(WidgetId::Row(0)).unwrap();
    assert_ne!(
        frame.raster.get(new.rect.x - 5, new.rect.y + 1),
        Some([HI.0, HI.1, HI.2, 255])
    );
}

#[test]
fn a_choice_row_finds_its_arrows() {
    let mut frame = Frame::default();
    item(
        &mut frame,
        WidgetId::Row(2),
        Kind::Choice,
        (1, 6),
        "Saving     < Anywhere >",
        39,
        false,
    );
    let w = *frame.widget(WidgetId::Row(2)).unwrap();
    let (x, y) = menu_cell(1, 6);
    assert_eq!(w.left, Some(Rect::new(x + 11 * 6, y, 6, 8)));
    assert_eq!(w.right, Some(Rect::new(x + 22 * 6, y, 6, 8)));
    assert_eq!(hit(&frame.widgets, x + 11 * 6 + 1, y + 1).map(|h| h.part), Some(Part::Left));
    let mut plain = Frame::default();
    item(&mut plain, WidgetId::Row(0), Kind::Button, (1, 1), "a < b >", 7, true);
    assert_eq!(plain.widgets[0].left, None);
}

#[test]
fn right_aligned_text_ends_at_the_last_column() {
    let mut frame = Frame::default();
    label_right(&mut frame, 0, "HH", TEXT);
    let (x, _) = menu_cell(158, 0);
    assert!((0..8).any(|y| frame.raster.get(x, y) == Some([TEXT.0, TEXT.1, TEXT.2, 255])));
    assert!((0..8).all(|y| frame.raster.get(x - 2, y) == Some([0, 0, 0, 0])));
}

/// The base pack's races and classes, with the rogue's eleven skills.
fn catalog() -> Catalog {
    let ids = |kind: &str, names: &[&str]| -> Vec<String> {
        names.iter().map(|n| format!("base:{kind}:{n}")).collect()
    };
    let classes = ids("class", &["cleric", "fighter", "rogue", "wizard"]);
    let rogue = vec![
        Skill::Acrobatics,
        Skill::Athletics,
        Skill::Deception,
        Skill::Insight,
        Skill::Intimidation,
        Skill::Investigation,
        Skill::Perception,
        Skill::Performance,
        Skill::Persuasion,
        Skill::SleightOfHand,
        Skill::Stealth,
    ];
    Catalog {
        races: ids("race", &["dwarf", "elf", "halfling", "human"]),
        classes: classes.clone(),
        backgrounds: ids("background", &["acolyte", "soldier"]),
        class_skills: vec![
            ClassSkills { class: classes[0].clone(), choose: 2, from: vec![Skill::History, Skill::Insight] },
            ClassSkills { class: classes[2].clone(), choose: 4, from: rogue },
        ],
        labels: vec![
            Label { id: "base:race:halfling".to_owned(), name: "Halfling (lightfoot)".to_owned() },
            Label { id: "base:class:rogue".to_owned(), name: "Rogue".to_owned() },
        ],
        budget: 27,
        min: 8,
        max: 15,
        costs: vec![0, 1, 2, 3, 4, 5, 7, 9],
        slots: 6,
    }
}

fn widest_creation(catalog: &Catalog) -> CreationForm {
    let mut form = CreationForm::new(catalog);
    form.name = "Bartholomew Longname Jr".into();
    form.race = catalog.races.iter().position(|r| r == "base:race:halfling").unwrap();
    form.class = catalog.classes.iter().position(|c| c == "base:class:rogue").unwrap();
    form.alignment = ALIGNMENTS.iter().position(|a| *a == Alignment::ChaoticNeutral).unwrap();
    form.scores = [15; 6];
    form
}

#[test]
fn every_screen_fits_the_menu_area_at_its_widest() {
    let mut frame = Frame::default();
    title(&mut frame, &Title::default());
    assert_laid_out(&frame, menu_box());
    assert_eq!(frame.widgets.len(), 3);
    let mut frame = Frame::default();
    let form = NewGameForm {
        seed_text: "a".repeat(32),
        settings: Settings { save_rule: SaveRule::Relief, ..Settings::default() },
        ..NewGameForm::default()
    };
    new_game(&mut frame, &form);
    assert_laid_out(&frame, menu_box());
    assert!(frame.widget(WidgetId::Row(1)).unwrap().right.unwrap().right() <= menu_cell(MENU_COLUMNS, 0).0);
    let mut frame = Frame::default();
    let catalog = catalog();
    creation(&mut frame, &widest_creation(&catalog), &catalog, 6);
    assert_laid_out(&frame, menu_box());
    assert!(frame.widget(WidgetId::Skill(10)).is_some(), "the rogue's 11 skills");
    for row in (0..14).filter(|r| *r != ROW_SKILLS) {
        assert!(frame.widget(WidgetId::Row(row)).is_some(), "row {row}");
    }
    let mut frame = Frame::default();
    pause(&mut frame, &Pause::default(), Settings::default(), u64::MAX);
    assert_laid_out(&frame, menu_box());
    // One button for each of the seven items the pause menu's keys move through.
    assert_eq!(frame.widgets.len(), 7);
}

#[test]
fn hits_land_on_rows_arrows_and_skills() {
    let catalog = catalog();
    let mut frame = Frame::default();
    creation(&mut frame, &CreationForm::new(&catalog), &catalog, 0);
    let race = *frame.widget(WidgetId::Row(ROW_RACE)).unwrap();
    let left = race.left.unwrap();
    assert_eq!(left.x, menu_cell(13, 2).0, "the < sits after the 12-cell label");
    let h = hit(&frame.widgets, left.x + 2, left.y + 3).unwrap();
    assert_eq!((h.id, h.part), (WidgetId::Row(ROW_RACE), Part::Left));
    let right = race.right.unwrap();
    let h = hit(&frame.widgets, right.x, right.y).unwrap();
    assert_eq!((h.id, h.part), (WidgetId::Row(ROW_RACE), Part::Right));
    let mid = race.rect.x + race.rect.w as i32 / 2;
    let h = hit(&frame.widgets, mid, race.rect.y).unwrap();
    assert_eq!((h.id, h.part), (WidgetId::Row(ROW_RACE), Part::Body));
    let str_row = *frame.widget(WidgetId::Row(ROW_SCORES)).unwrap();
    assert_eq!(str_row.left.unwrap().x, menu_cell(5, 6).0);
    let dex_row = *frame.widget(WidgetId::Row(ROW_SCORES + 1)).unwrap();
    assert_eq!(dex_row.rect.x, menu_cell(14, 6).0);
    let skill = *frame.widget(WidgetId::Skill(1)).unwrap();
    assert_eq!(skill.rect.x, menu_cell(21, 9).0);
    assert_eq!(hit(&frame.widgets, skill.rect.x, skill.rect.y).unwrap().kind, Kind::Toggle);
    assert_eq!(hit(&frame.widgets, 0, 0), None);
    assert_eq!(hit(&frame.widgets, viewport().right() + 60, 100), None);
}

#[test]
fn the_title_frame_is_stable() {
    let mut frame = Frame::default();
    title(&mut frame, &Title::default());
    let painted = frame.raster.rgba.chunks(4).filter(|p| p[3] != 0).count();
    assert!(painted > 100, "the title paints glyphs and a marker");
    assert_eq!(frame.raster.fingerprint(), frame.raster.clone().fingerprint());
}

#[test]
fn the_creation_screen_marks_its_cursor_and_picks() {
    let catalog = catalog();
    let mut form = widest_creation(&catalog);
    form.cursor = ROW_SKILLS;
    form.skill_cursor = 3;
    form.toggle_skill(Skill::Stealth, &catalog);
    let mut frame = Frame::default();
    creation(&mut frame, &form, &catalog, 2);
    let insight = *frame.widget(WidgetId::Skill(3)).unwrap();
    let (x, y) = (insight.rect.x, insight.rect.y);
    assert_eq!(frame.raster.get(x - 5, y + 1), Some([HI.0, HI.1, HI.2, 255]), "the marker sits before the skill cursor");
    assert!(frame.widget(WidgetId::Skill(11)).is_none());
    let mut frame = Frame::default();
    pause(&mut frame, &Pause { cursor: 6 }, Settings::default(), 42);
    let quit = *frame.widget(WidgetId::Row(6)).unwrap();
    assert_eq!(frame.raster.get(quit.rect.x - 5, quit.rect.y + 1), Some([HI.0, HI.1, HI.2, 255]));
}
