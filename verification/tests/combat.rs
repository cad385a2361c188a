use omnis_app::actors::Size;
use omnis_app::combat_menu::{
    CombatCommand, CombatIntent, CombatMenu, DefeatAction, DefeatMenu, EncounterChoice,
    EncounterIntent, EncounterMenu, FightPhase, FightView, StackRow, DEFEAT_ITEMS,
};
use omnis_app::combat_screen::{
    bottom_panel, defeat, defeat_rect, panels, top_panel, vp_label_right, vp_rect,
    DEFEAT_LINE_CELLS, DEFEAT_LOG_ROWS,
};
use omnis_app::layout::{cell, viewport, Rect, CELL};
use omnis_app::menu::MenuKey;
use omnis_app::screens::{MODAL_BOTTOM_PAD, MODAL_BUTTON_PITCH, MODAL_LINES_Y, MODAL_TEXT_X};
use omnis_app::widget::{Frame, WidgetId, PANEL, TEXT};

fn stack(index: u8, name: &str, alive: bool, blocked: Option<&str>) -> StackRow {
    StackRow {
        index,
        name: name.to_owned(),
        count: if alive { 2 } else { 0 },
        initial: 2,
        size: Size::Small,
        front: index == 0,
        alive,
        blocked: blocked.map(|b| b.to_owned()),
    }
}

/// Stacks named by their index, the living counting one, the first two living in front.
fn view_with(stacks: &[(u8, bool, Option<&str>)], own: Option<usize>) -> FightView {
    FightView {
        phase: FightPhase::Combat,
        round: 1,
        own,
        stacks: stacks
            .iter()
            .map(|(index, alive, blocked)| StackRow {
                index: *index,
                name: format!("Stack {index}"),
                count: u8::from(*alive),
                initial: 1,
                size: Size::Medium,
                front: *alive && *index < 2,
                alive: *alive,
                blocked: blocked.map(str::to_owned),
            })
            .collect(),
        bribe: None,
        gold: 0,
    }
}

#[test]
fn combat_keys_choose_actions_and_living_targets() {
    let view = view_with(&[(0, false, None), (1, true, None), (2, true, Some("no"))], Some(0));
    let mut menu = CombatMenu::default();
    menu.sync(&view);
    assert_eq!(menu.target, 1, "the first living stack");
    assert_eq!(menu.key(MenuKey::Right, &view, None), None);
    assert_eq!(menu.target, 2);
    menu.key(MenuKey::Right, &view, None);
    assert_eq!(menu.target, 1, "wraps over the living only");
    menu.key(MenuKey::Left, &view, None);
    assert_eq!(menu.target, 2);
    assert_eq!(menu.key(MenuKey::Enter, &view, None), None);
    assert_eq!(menu.message, "no", "the view's reason, before the sim rejects");
    menu.key(MenuKey::Left, &view, None);
    assert_eq!(
        menu.key(MenuKey::Enter, &view, None),
        Some(CombatIntent::Command(CombatCommand::Attack { stack: 1 }))
    );
    assert!(menu.message.is_empty());
    menu.key(MenuKey::Down, &view, None);
    assert_eq!(menu.cursor, 1);
    assert_eq!(menu.key(MenuKey::Enter, &view, None), Some(CombatIntent::Command(CombatCommand::Dodge)));
    menu.key(MenuKey::Up, &view, None);
    menu.key(MenuKey::Up, &view, None);
    assert_eq!(menu.cursor, 3, "wraps");
    assert_eq!(menu.key(MenuKey::Char('r'), &view, None), Some(CombatIntent::Command(CombatCommand::Run)));
    assert_eq!(menu.key(MenuKey::Escape, &view, None), Some(CombatIntent::Pause));
    assert_eq!(menu.key(MenuKey::Char('x'), &view, None), None);
}

#[test]
fn exchange_needs_another_selected_member() {
    let view = view_with(&[(0, true, None)], Some(0));
    let mut menu = CombatMenu::default();
    assert_eq!(menu.key(MenuKey::Char('e'), &view, None), None);
    assert_eq!(menu.message, "Select a member to exchange with");
    assert_eq!(menu.key(MenuKey::Char('e'), &view, Some(0)), None);
    assert_eq!(menu.message, "Select another member to exchange with");
    assert_eq!(
        menu.key(MenuKey::Char('e'), &view, Some(3)),
        Some(CombatIntent::Command(CombatCommand::Exchange { with: 3 }))
    );
    let none = view_with(&[(0, false, None)], Some(0));
    menu.sync(&none);
    assert_eq!(menu.key(MenuKey::Char('a'), &none, None), None);
    assert_eq!(menu.message, "Stack 0 are slain");
}

#[test]
fn encounter_keys_cycle_and_gate_the_bribe() {
    let mut view = view_with(&[(0, true, None)], None);
    view.phase = FightPhase::Encounter;
    view.bribe = Some(12);
    view.gold = 5;
    let mut menu = EncounterMenu::default();
    assert_eq!(menu.key(MenuKey::Right, &view), None);
    assert_eq!(menu.cursor, 1);
    assert_eq!(menu.key(MenuKey::Enter, &view), None);
    assert_eq!(menu.message, "Not enough gold: 12 needed, 5 carried");
    assert_eq!(view.bribe_label(), "Bribe 12g");
    view.gold = 12;
    assert_eq!(menu.key(MenuKey::Enter, &view), Some(EncounterIntent::Choice(EncounterChoice::Bribe)));
    assert!(menu.message.is_empty());
    view.bribe = Some(0);
    assert_eq!(view.bribe_label(), "Bribe free");
    assert!(view.bribe_allowed());
    view.bribe = None;
    assert_eq!(menu.key(MenuKey::Enter, &view), None);
    assert_eq!(menu.message, "They cannot be bribed");
    menu.key(MenuKey::Up, &view);
    assert_eq!(menu.cursor, 0);
    menu.key(MenuKey::Left, &view);
    assert_eq!(menu.cursor, 3, "wraps");
    assert_eq!(menu.key(MenuKey::Char('h'), &view), Some(EncounterIntent::Choice(EncounterChoice::Hide)));
    assert_eq!(menu.key(MenuKey::Char('r'), &view), Some(EncounterIntent::Choice(EncounterChoice::Run)));
    assert_eq!(menu.key(MenuKey::Char('a'), &view), Some(EncounterIntent::Choice(EncounterChoice::Attack)));
    assert_eq!(menu.key(MenuKey::Escape, &view), Some(EncounterIntent::Pause));
}

fn view(stacks: Vec<StackRow>) -> FightView {
    FightView {
        phase: FightPhase::Combat,
        round: 1,
        own: Some(0),
        stacks,
        bribe: None,
        gold: 5,
    }
}

#[test]
fn the_defeat_menu_loads_or_quits() {
    let mut menu = DefeatMenu::default();
    assert_eq!(menu.key(MenuKey::Escape), None, "no way out but the two");
    assert_eq!(menu.key(MenuKey::Enter), Some(DefeatAction::Load));
    menu.key(MenuKey::Down);
    assert_eq!(menu.key(MenuKey::Enter), Some(DefeatAction::QuitToTitle));
    menu.key(MenuKey::Down);
    assert_eq!(menu.cursor, 0, "wraps");
}

#[test]
fn attacks_are_refused_on_slain_missing_and_blocked_stacks() {
    let v = view(vec![
        stack(0, "Goblin", false, None),
        stack(1, "Giant Rat", true, None),
        stack(2, "Wolf", true, Some("stack 2 is behind the front")),
    ]);
    let mut menu = CombatMenu::default();
    menu.sync(&v);
    assert_eq!(menu.target, 1, "the first living stack");
    menu.key(MenuKey::Right, &v, None);
    assert_eq!(menu.target, 2);
    menu.key(MenuKey::Right, &v, None);
    assert_eq!(menu.target, 1, "wraps over the living only");
    assert_eq!(
        menu.key(MenuKey::Enter, &v, None),
        Some(CombatIntent::Command(CombatCommand::Attack { stack: 1 }))
    );
    assert_eq!(menu.message, "");
    menu.key(MenuKey::Left, &v, None);
    assert_eq!(menu.key(MenuKey::Char('a'), &v, None), None);
    assert_eq!(menu.message, "stack 2 is behind the front");
    menu.target = 0;
    assert_eq!(menu.key(MenuKey::Enter, &v, None), None);
    assert_eq!(menu.message, "Goblin are slain");
    menu.target = 9;
    assert_eq!(menu.key(MenuKey::Enter, &v, None), None);
    assert_eq!(menu.message, "Nothing to attack");
    assert_eq!(
        menu.key(MenuKey::Char('d'), &v, None),
        Some(CombatIntent::Command(CombatCommand::Dodge))
    );
    assert_eq!(menu.cursor, 1);
    assert_eq!(menu.message, "");
    menu.key(MenuKey::Up, &v, None);
    menu.key(MenuKey::Up, &v, None);
    assert_eq!(menu.cursor, 3, "wraps");
    assert_eq!(
        menu.key(MenuKey::Enter, &v, None),
        Some(CombatIntent::Command(CombatCommand::Run))
    );
    assert_eq!(menu.key(MenuKey::Escape, &v, None), Some(CombatIntent::Pause));
    assert_eq!(menu.key(MenuKey::Char('z'), &v, None), None);
}

#[test]
fn exchange_names_the_selected_member() {
    let v = view(vec![stack(0, "Goblin", true, None)]);
    let mut menu = CombatMenu::default();
    assert_eq!(menu.key(MenuKey::Char('e'), &v, None), None);
    assert_eq!(menu.message, "Select a member to exchange with");
    assert_eq!(menu.key(MenuKey::Char('e'), &v, Some(0)), None);
    assert_eq!(menu.message, "Select another member to exchange with");
    assert_eq!(
        menu.key(MenuKey::Char('e'), &v, Some(3)),
        Some(CombatIntent::Command(CombatCommand::Exchange { with: 3 }))
    );
}

#[test]
fn the_bribe_hotkey_and_the_labels_follow_the_price() {
    let mut v = view(vec![stack(0, "Goblin", true, None)]);
    v.phase = FightPhase::Encounter;
    v.bribe = Some(12);
    v.gold = 5;
    assert_eq!(v.bribe_label(), "Bribe 12g");
    assert!(!v.bribe_allowed());
    let mut menu = EncounterMenu::default();
    assert_eq!(menu.key(MenuKey::Char('b'), &v), None);
    assert_eq!(menu.message, "Not enough gold: 12 needed, 5 carried");
    v.gold = 12;
    assert_eq!(
        menu.key(MenuKey::Enter, &v),
        Some(EncounterIntent::Choice(EncounterChoice::Bribe))
    );
    assert_eq!(menu.message, "");
    v.bribe = None;
    assert_eq!(menu.key(MenuKey::Enter, &v), None);
    assert_eq!(menu.message, "They cannot be bribed");
    assert_eq!(v.bribe_label(), "Bribe");
    v.bribe = Some(0);
    assert_eq!(v.bribe_label(), "Bribe free");
    menu.key(MenuKey::Left, &v);
    menu.key(MenuKey::Left, &v);
    assert_eq!(menu.cursor, 3, "wraps");
    assert_eq!(
        menu.key(MenuKey::Enter, &v),
        Some(EncounterIntent::Choice(EncounterChoice::Run))
    );
    assert_eq!(menu.key(MenuKey::Escape, &v), Some(EncounterIntent::Pause));
}

#[test]
fn rows_say_their_state_and_the_living_are_actors() {
    let v = view(vec![
        stack(0, "Goblin", true, None),
        stack(1, "Rat", false, None),
        stack(2, "Wolf", true, None),
    ]);
    assert_eq!(v.stacks[0].state(), "front");
    assert_eq!(v.stacks[1].state(), "slain");
    assert_eq!(v.stacks[2].state(), "back");
    assert!(v.stacks[0].reachable() && !v.stacks[1].reachable());
    let actors = v.actors();
    assert_eq!(actors.iter().map(|a| a.index).collect::<Vec<_>>(), vec![0, 2]);
}

fn rgb(frame: &Frame, x: i32, y: i32) -> Option<(u8, u8, u8)> {
    frame.raster.get(x, y).map(|p| (p[0], p[1], p[2]))
}

#[test]
fn the_defeat_modal_sits_in_the_window_and_tells_how_it_ended() {
    let rect = defeat_rect();
    assert!(viewport().encloses(rect));
    let mut frame = Frame::default();
    defeat(&mut frame, &DefeatMenu { cursor: 1 }, &[]);
    let empty = frame.raster.fingerprint();
    let mut frame = Frame::default();
    let log: Vec<String> = (0..5)
        .map(|i| format!("Line {i} {}", "x".repeat(120)))
        .collect();
    defeat(&mut frame, &DefeatMenu { cursor: 1 }, &log);
    assert_ne!(
        frame.raster.fingerprint(),
        empty,
        "the log's tail is painted"
    );
    let right = rect.x + MODAL_TEXT_X + CELL.0 * DEFEAT_LINE_CELLS as i32;
    assert!(right < rect.right(), "{right}");
    let first_line = rect.y + MODAL_LINES_Y;
    assert_eq!(
        frame.raster.get(right + 2, first_line + 1),
        Some([PANEL.0, PANEL.1, PANEL.2, 255]),
        "nothing past the clipped line"
    );
    assert_eq!(frame.widgets.len(), 2);
    for w in &frame.widgets {
        assert!(rect.encloses(w.rect));
    }
    assert_eq!(
        frame.raster.get(rect.x - 10, rect.y - 10),
        Some([0, 0, 0, 0]),
        "the world shows"
    );
    assert_eq!(rgb(&frame, rect.right() - 3, first_line + 4), Some(PANEL));
    let mid = rect.x + rect.w as i32 / 2;
    assert_eq!(rgb(&frame, mid, first_line - 2), Some(PANEL));
    let last_line_bottom = first_line + CELL.1 * DEFEAT_LOG_ROWS as i32;
    let first_button =
        rect.bottom() - MODAL_BUTTON_PITCH * DEFEAT_ITEMS.len() as i32 - MODAL_BOTTOM_PAD;
    assert!(
        last_line_bottom < first_button,
        "{last_line_bottom} vs {first_button}"
    );
    let load = frame.widget(WidgetId::Row(0)).unwrap();
    assert_eq!(load.rect.y, first_button);
    for y in last_line_bottom..first_button {
        assert!(
            (rect.x + 1..rect.right() - 1).all(|x| rgb(&frame, x, y) == Some(PANEL)),
            "a blank row {y} between the lines and the buttons"
        );
    }
}

#[test]
fn the_panels_leave_the_window_clear_between_them() {
    let mut frame = Frame::default();
    panels(&mut frame);
    assert_eq!(top_panel(), Rect::new(0, 0, 960, 72));
    assert_eq!(bottom_panel(), Rect::new(0, 480, 960, 60));
    assert_eq!(rgb(&frame, 10, 10), Some(PANEL));
    assert_eq!(rgb(&frame, 10, 500), Some(PANEL));
    assert_eq!(frame.raster.get(10, 300), Some([0, 0, 0, 0]));
    assert!(viewport().encloses(top_panel()) && viewport().encloses(bottom_panel()));
    assert!(!top_panel().overlaps(bottom_panel()));
    assert_eq!(vp_rect(2, 3, 4), Rect::new(13, 24, 24, 8));
    let mut frame = Frame::default();
    vp_label_right(&mut frame, 1, "H", TEXT);
    let (x, y) = cell(158, 1);
    assert!((0..8).any(|dy| rgb(&frame, x, y + dy) == Some(TEXT)));
}
