use omnis_app::debug_menu::{
    DebugMenu, DebugView, Facing, MemberDebug, StackDebug, ROWS, ROW_CONDITION, ROW_GOLD,
    ROW_ITEM, ROW_MAP, ROW_STACK,
};
use omnis_app::debug_screen::{debug, field, row_text};
use omnis_app::layout::{menu_box, Rect};
use omnis_app::widget::{Frame, WidgetId};

fn assert_laid_out(frame: &Frame, area: Rect) {
    for (i, a) in frame.widgets.iter().enumerate() {
        assert!(area.encloses(a.rect), "{:?} leaves the menu area", a.id);
        for b in &frame.widgets[i + 1..] {
            assert!(!a.rect.overlaps(b.rect), "{:?} overlaps {:?}", a.id, b.id);
        }
    }
}

fn view(fighting: bool) -> DebugView {
    DebugView {
        fighting,
        devtools: true,
        members: vec![MemberDebug {
            name: "Bartholomew Longname Jr".to_owned(),
            hp: (999, 999),
            sp: (99, 99),
            xp: 355_000,
            scores: [30; 6],
            conditions: vec!["base:condition:poisoned".to_owned()],
        }],
        gold: 999_999,
        food: 9999,
        items: vec![("base:item:x".to_owned(), "Potion of healing".to_owned())],
        conditions: vec![("base:condition:poisoned".to_owned(), "Poisoned".to_owned())],
        flags: vec![],
        maps: vec![("test:map:dungeon".to_owned(), 24, 24)],
        position: (0, 3, 8, Facing::South),
        stacks: if fighting {
            vec![StackDebug {
                index: 0,
                name: "Ancient Red Dragon".to_owned(),
                count: (99, 99),
                lead_hp: 999,
            }]
        } else {
            vec![]
        },
    }
}

#[test]
fn every_row_fits_the_box_and_the_inert_rows_follow_the_mode() {
    for fighting in [false, true] {
        let mut frame = Frame::default();
        let mut menu = DebugMenu::default();
        let v = view(fighting);
        menu.open(&v);
        menu.row = ROW_ITEM;
        menu.field = 1;
        debug(&mut frame, &menu, &v);
        assert_laid_out(&frame, menu_box());
        assert_eq!(frame.widgets.len(), ROWS);
        let map = frame.widget(WidgetId::Row(ROW_MAP)).unwrap();
        let stack = frame.widget(WidgetId::Row(ROW_STACK)).unwrap();
        assert_eq!(map.enabled, !fighting);
        assert_eq!(stack.enabled, fighting);
        let item = frame.widget(WidgetId::Row(ROW_ITEM)).unwrap();
        assert!(
            item.left.is_some() && item.right.is_some(),
            "arrows on the field"
        );
        assert!(
            row_text(&menu, &v, ROW_ITEM).contains("<1>"),
            "the count is the chosen field"
        );
        assert!(
            row_text(&menu, &v, ROW_GOLD).contains("<999999>"),
            "another row brackets its first field for the mouse"
        );
        assert!(row_text(&menu, &v, ROW_CONDITION).ends_with("on   Enter toggles"));
    }
}

#[test]
fn rows_read_the_view_and_mark_the_field() {
    let v = view(true);
    let mut menu = DebugMenu::default();
    menu.open(&v);
    assert_eq!(field("x", true), "<x>");
    assert_eq!(field("x", false), " x ");
    assert_eq!(row_text(&menu, &v, 0), "Member   <Bartholomew Longname Jr>");
    assert_eq!(row_text(&menu, &v, 1), "HP       <999> / 999");
    assert_eq!(row_text(&menu, &v, 4), "Score    <STR>   30    (hp max unchanged)");
    assert_eq!(row_text(&menu, &v, 9), "Flag     <(no flags)>   Enter sets 1");
    assert_eq!(
        row_text(&menu, &v, ROW_MAP),
        "Map      <test:map:dungeon>  x 3  y 8    south    Enter teleports"
    );
    assert_eq!(
        row_text(&menu, &v, ROW_STACK),
        "Stack    <0 Ancient Red Dragon 99/99>  hp  999    K kills"
    );
    assert_eq!(row_text(&menu, &view(false), ROW_STACK), "Stack    (no fight)");
    assert_eq!(row_text(&menu, &v, 12), "");
}
