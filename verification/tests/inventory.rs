use omnis_app::inventory_menu::{
    InventoryAction, InventoryIntent, InventoryMenu, InventoryView, ItemCommand, ItemRow, Pane,
};
use omnis_app::inventory_screen::{inventory, row_text, ROWS};
use omnis_app::layout::{menu_box, menu_cell, Rect, MENU_COLUMNS};
use omnis_app::menu::MenuKey;
use omnis_app::widget::{hit, Frame, Part, WidgetId};
use omnis_app::sheet_menu::EquipSlot;

fn row(name: &str, slot: Option<EquipSlot>, equipped: bool, usable: bool) -> ItemRow {
    ItemRow {
        name: name.to_owned(),
        count: 1,
        slot,
        equipped,
        usable,
    }
}

fn sample() -> InventoryView {
    InventoryView {
        panes: vec![
            Pane {
                title: "Brenna".to_owned(),
                summary: "wearing Longsword, Shield, Light crossbow, Chain mail".to_owned(),
                rows: vec![
                    row("Chain mail", Some(EquipSlot::Body), true, false),
                    row("Longsword", Some(EquipSlot::MainHand), true, false),
                    row("Shield", Some(EquipSlot::OffHand), true, false),
                    row("Light crossbow", Some(EquipSlot::Ranged), true, false),
                    ItemRow {
                        count: 20,
                        ..row("Crossbow bolt", None, false, false)
                    },
                    row("Holy symbol", None, false, false),
                    row("Potion of healing", None, false, true),
                    row("Leather", Some(EquipSlot::Body), false, false),
                ],
            },
            Pane {
                title: "Durin".to_owned(),
                summary: "wearing Mace, Shield, Scale mail".to_owned(),
                rows: vec![row("Mace", Some(EquipSlot::MainHand), true, false)],
            },
            Pane {
                title: "STORES".to_owned(),
                summary: "gold 90  food 60".to_owned(),
                rows: vec![
                    ItemRow {
                        count: 3,
                        ..row("Potion of healing", None, false, true)
                    },
                    row("Spyglass", None, false, true),
                ],
            },
        ],
    }
}

#[test]
fn keys_move_between_panes_and_rows_and_act_on_the_row() {
    let view = sample();
    assert_eq!(view.members(), 2);
    let mut menu = InventoryMenu::default();
    menu.open(Some(1), 2);
    assert_eq!(menu.pane, 1);
    menu.sync(&view);
    assert_eq!(menu.panes, 3);
    assert_eq!(menu.key(MenuKey::Left, &view, None), None);
    assert_eq!(menu.pane, 0);
    menu.key(MenuKey::Up, &view, None);
    assert_eq!(menu.cursor, 7, "up from the top wraps");
    assert_eq!(
        menu.key(MenuKey::Enter, &view, None),
        Some(InventoryIntent::Command(ItemCommand::Equip { member: 0, item: 7 }))
    );
    menu.cursor = 0;
    assert_eq!(
        menu.key(MenuKey::Char('e'), &view, None),
        Some(InventoryIntent::Command(ItemCommand::Unequip {
            member: 0,
            slot: EquipSlot::Body
        })),
        "a worn row comes off"
    );
    menu.cursor = 6;
    assert_eq!(
        menu.key(MenuKey::Enter, &view, Some(1)),
        Some(InventoryIntent::Command(ItemCommand::Use {
            member: 0,
            item: 6,
            target: Some(1)
        })),
        "a potion's Enter uses it on the selected member"
    );
    assert_eq!(
        menu.key(MenuKey::Char('g'), &view, Some(1)),
        Some(InventoryIntent::Command(ItemCommand::Give {
            from: 0,
            to: 1,
            item: 6,
            count: 1
        }))
    );
    assert_eq!(menu.key(MenuKey::Char('g'), &view, Some(0)), None);
    assert!(menu.message.starts_with("Click another member"));
    assert_eq!(menu.key(MenuKey::Char('t'), &view, None), None);
    assert!(menu.message.starts_with("Take is for the stores"));
    menu.cursor = 5;
    assert_eq!(menu.key(MenuKey::Char('e'), &view, None), None);
    assert_eq!(menu.message, "Holy symbol cannot be worn or wielded");
    assert_eq!(menu.key(MenuKey::Char('u'), &view, None), None);
    assert_eq!(menu.message, "Holy symbol does nothing when used");
    assert_eq!(
        menu.key(MenuKey::Enter, &view, None),
        Some(InventoryIntent::Command(ItemCommand::Stow {
            member: 0,
            item: 5,
            count: 1
        })),
        "Enter on plain gear stows it"
    );
    assert_eq!(menu.key(MenuKey::Char('\t'), &view, None), None);
    assert_eq!((menu.pane, menu.cursor), (1, 0));
    menu.key(MenuKey::Char('\t'), &view, None);
    assert!(menu.stores(&view));
    assert_eq!(
        menu.key(MenuKey::Enter, &view, Some(1)),
        Some(InventoryIntent::Command(ItemCommand::Take {
            member: 1,
            item: 0,
            count: 1
        }))
    );
    assert_eq!(menu.key(MenuKey::Char('u'), &view, None), None);
    assert_eq!(menu.message, "Take it to a member first");
    assert_eq!(
        menu.key(MenuKey::Escape, &view, None),
        Some(InventoryIntent::Close)
    );
    assert_eq!(
        menu.key(MenuKey::Char('i'), &view, None),
        Some(InventoryIntent::Close)
    );
    assert_eq!(menu.key(MenuKey::Char('x'), &view, None), None);
}

#[test]
fn clicks_pick_tabs_then_rows_and_an_empty_pane_says_so() {
    let view = sample();
    let mut menu = InventoryMenu::default();
    menu.sync(&view);
    menu.click_row(2);
    assert_eq!((menu.pane, menu.cursor), (2, 0));
    menu.click_row(4);
    assert_eq!((menu.pane, menu.cursor), (2, 1));
    menu.click_row(2);
    assert_eq!(menu.cursor, 1, "the same tab keeps the cursor");
    let empty = InventoryView {
        panes: vec![Pane {
            title: "STORES".to_owned(),
            summary: String::new(),
            rows: Vec::new(),
        }],
    };
    menu.sync(&empty);
    assert_eq!((menu.pane, menu.cursor), (0, 0));
    assert_eq!(menu.key(MenuKey::Enter, &empty, None), None);
    assert_eq!(menu.message, "Nothing here");
    assert!(!InventoryAction::Take.applies(true, None));
    assert!(InventoryAction::Take.applies(true, Some(&view.panes[2].rows[0])));
    assert!(!InventoryAction::Give.applies(true, Some(&view.panes[2].rows[0])));
    assert_eq!(InventoryAction::Stow.label(), "S stow");
    assert_eq!(InventoryAction::Give.key(), 'g');
}

#[test]
fn the_stores_alone_have_nobody_to_take() {
    let view = InventoryView {
        panes: vec![Pane {
            title: "STORES".to_owned(),
            summary: String::new(),
            rows: vec![row("Spyglass", None, false, true)],
        }],
    };
    let mut menu = InventoryMenu::default();
    menu.sync(&view);
    assert_eq!(menu.key(MenuKey::Enter, &view, None), None);
    assert_eq!(menu.message, "Nobody to take it");
}

fn assert_laid_out(frame: &Frame, area: Rect) {
    for (i, a) in frame.widgets.iter().enumerate() {
        assert!(area.encloses(a.rect), "{:?} leaves the menu area", a.id);
        for b in &frame.widgets[i + 1..] {
            assert!(!a.rect.overlaps(b.rect), "{:?} overlaps {:?}", a.id, b.id);
        }
    }
}

#[test]
fn the_overlay_lays_out_tabs_rows_and_actions_inside_the_box() {
    let view = sample();
    let mut menu = InventoryMenu::default();
    menu.sync(&view);
    let mut frame = Frame::default();
    inventory(&mut frame, &menu, &view);
    assert_laid_out(&frame, menu_box());
    assert_eq!(frame.widgets.len(), 3 + 8 + 5, "tabs, rows, actions");
    let tab = *frame.widget(WidgetId::Row(2)).unwrap();
    let h = hit(&frame.widgets, tab.rect.x, tab.rect.y).unwrap();
    assert_eq!((h.id, h.part), (WidgetId::Row(2), Part::Body));
    let first = *frame.widget(WidgetId::Row(3)).unwrap();
    assert_eq!((first.rect.x, first.rect.y), menu_cell(1, 3));
    let equip = *frame.widget(WidgetId::Action(0)).unwrap();
    let take = *frame.widget(WidgetId::Action(3)).unwrap();
    assert!(equip.enabled && !take.enabled, "chain mail: equip yes, take no");
    // The stores: take on, the rest off; an empty cursor pane says nothing.
    menu.click_row(2);
    let mut frame = Frame::default();
    inventory(&mut frame, &menu, &view);
    assert_laid_out(&frame, menu_box());
    assert!(frame.widget(WidgetId::Action(3)).unwrap().enabled);
    assert!(!frame.widget(WidgetId::Action(0)).unwrap().enabled);
    assert!(!frame.widget(WidgetId::Action(4)).unwrap().enabled);
}

#[test]
fn long_panes_scroll_to_the_cursor_and_wide_names_stay_in_the_grid() {
    let long = "x".repeat(60);
    let rows: Vec<ItemRow> = (0..25)
        .map(|i| ItemRow {
            name: format!("{long}{i}"),
            count: 65535,
            slot: Some(EquipSlot::MainHand),
            equipped: true,
            usable: true,
        })
        .collect();
    let view = InventoryView {
        panes: (0..7)
            .map(|i| Pane { title: format!("{long}{i}"), summary: long.clone(), rows: rows.clone() })
            .collect(),
    };
    let mut menu = InventoryMenu { pane: 6, cursor: 24, ..InventoryMenu::default() };
    menu.sync(&view);
    let mut frame = Frame::default();
    inventory(&mut frame, &menu, &view);
    assert_laid_out(&frame, menu_box());
    assert_eq!(frame.widgets.len(), 7 + ROWS + 5);
    let last = *frame.widget(WidgetId::Row(7 + 24)).unwrap();
    assert_eq!(last.rect.y, menu_cell(1, 3 + ROWS as i32 - 1).1);
    assert!(frame.widget(WidgetId::Row(7)).is_none(), "scrolled off");
    let edge = menu_cell(MENU_COLUMNS, 0).0;
    let area = menu_box();
    for y in area.y..area.bottom() {
        for x in edge..area.right() {
            assert!(
                !frame.raster.get(x, y).is_some_and(|p| p[3] != 0),
                "text past column {MENU_COLUMNS} at ({x}, {y})"
            );
        }
    }
    assert_eq!(row_text(&rows[0]).len(), 34 + 1 + 4 + 3 + 10 + 1 + 4, "{}", row_text(&rows[0]));
}

#[test]
fn a_row_reads_name_count_slot_and_marks() {
    let worn = ItemRow {
        name: "Longsword".to_owned(),
        count: 1,
        slot: Some(EquipSlot::MainHand),
        equipped: true,
        usable: false,
    };
    assert_eq!(
        row_text(&worn),
        format!("{:<34} x  1   Main hand  worn", "Longsword")
    );
    let potion = ItemRow { name: "Potion".to_owned(), count: 3, slot: None, equipped: false, usable: true };
    assert_eq!(row_text(&potion), format!("{:<34} x  3              use", "Potion"));
}
