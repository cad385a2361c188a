use omnis_app::combat_menu::{CombatMenu, DefeatMenu, EncounterMenu};
use omnis_app::creation_menu::{Catalog, ClassSkills, CreationForm, Skill, ROW_BEGIN, ROW_RACE, ROW_SKILLS};
use omnis_app::debug_menu::DebugMenu;
use omnis_app::menu::{MenuKey, NewGameForm, Pause, Title};
use omnis_app::screen::{click, Menu, Target};
use omnis_app::widget::{Hit, Kind, PadButton, Part, WidgetId};

#[test]
fn clicks_move_the_cursor_and_press_the_matching_key() {
    let mut title = Title::default();
    let button = Hit { id: WidgetId::Row(2), part: Part::Body, kind: Kind::Button };
    assert_eq!(click(Target::Title(&mut title), button), vec![MenuKey::Enter]);
    assert_eq!(title.cursor, 2);
    let mut form = NewGameForm::default();
    let arrow = Hit { id: WidgetId::Row(1), part: Part::Right, kind: Kind::Choice };
    assert_eq!(click(Target::NewGame(&mut form), arrow), vec![MenuKey::Right]);
    assert_eq!(form.cursor, 1);
    let body = Hit { part: Part::Body, ..arrow };
    assert_eq!(click(Target::NewGame(&mut form), body), vec![]);
    let field = Hit { id: WidgetId::Row(0), part: Part::Body, kind: Kind::TextField };
    let mut creation = CreationForm { cursor: 5, ..CreationForm::default() };
    assert_eq!(click(Target::Creation(&mut creation), field), vec![]);
    assert_eq!(creation.cursor, 0);
    let skill = Hit { id: WidgetId::Skill(3), part: Part::Body, kind: Kind::Toggle };
    assert_eq!(click(Target::Creation(&mut creation), skill), vec![MenuKey::Enter]);
    assert_eq!((creation.cursor, creation.skill_cursor), (ROW_SKILLS, 3));
    let mut pause = Pause::default();
    assert_eq!(click(Target::Pause(&mut pause), skill), vec![]);
    let pad = Hit { id: WidgetId::Pad(PadButton::Use), part: Part::Body, kind: Kind::Button };
    assert_eq!(click(Target::Pause(&mut pause), pad), vec![]);
    assert_eq!(pause.cursor, 0);
}

#[test]
fn fight_clicks_pick_targets_press_actions_and_defeat_rows() {
    let stack = Hit { id: WidgetId::Stack(2), part: Part::Body, kind: Kind::Choice };
    let action = Hit { id: WidgetId::Action(3), part: Part::Body, kind: Kind::Button };
    let mut combat = CombatMenu::default();
    assert_eq!(click(Target::Combat(&mut combat), stack), vec![]);
    assert_eq!(combat.target, 2, "a stack click only picks the target");
    assert_eq!(click(Target::Combat(&mut combat), action), vec![MenuKey::Enter]);
    assert_eq!(combat.cursor, 3);
    let mut encounter = EncounterMenu::default();
    assert_eq!(click(Target::Encounter(&mut encounter), stack), vec![]);
    assert_eq!(click(Target::Encounter(&mut encounter), action), vec![MenuKey::Enter]);
    assert_eq!(encounter.cursor, 3);
    let row = Hit { id: WidgetId::Row(1), part: Part::Body, kind: Kind::Button };
    assert_eq!(click(Target::Encounter(&mut encounter), row), vec![]);
    let mut defeat = DefeatMenu::default();
    assert_eq!(click(Target::Defeat(&mut defeat), row), vec![MenuKey::Enter]);
    assert_eq!(defeat.cursor, 1);
    assert_eq!(click(Target::Defeat(&mut defeat), action), vec![]);
    let mut pause = Pause::default();
    assert_eq!(click(Target::Pause(&mut pause), stack), vec![]);
    assert_eq!(click(Target::Pause(&mut pause), action), vec![]);
    assert_eq!(pause.cursor, 0);
}

#[test]
fn a_debug_row_click_resets_the_field_only_on_another_row() {
    let mut menu = DebugMenu { row: 3, field: 1, ..DebugMenu::default() };
    let same = Hit { id: WidgetId::Row(3), part: Part::Left, kind: Kind::Choice };
    assert_eq!(click(Target::Debug(&mut menu), same), vec![MenuKey::Left]);
    assert_eq!((menu.row, menu.field), (3, 1));
    let other = Hit { id: WidgetId::Row(5), ..same };
    click(Target::Debug(&mut menu), other);
    assert_eq!((menu.row, menu.field), (5, 0));
    let mut combat = CombatMenu::default();
    let far = Hit { id: WidgetId::Stack(300), part: Part::Body, kind: Kind::Choice };
    click(Target::Combat(&mut combat), far);
    assert_eq!(combat.target, 255, "a stack past the target's range is held at its end");
}

#[test]
fn the_menus_over_the_scene_leave_it_visible() {
    let title = Title::default();
    assert!(Menu::Title(&title).covers_viewport());
    assert!(!Menu::Clear.covers_viewport());
    let defeat = DefeatMenu::default();
    assert!(!Menu::Defeat { menu: &defeat, log: &[] }.covers_viewport());
}

fn catalog() -> Catalog {
    let races: Vec<String> = ["dwarf", "elf", "halfling", "human"].iter().map(|r| format!("base:race:{r}")).collect();
    let classes: Vec<String> = ["cleric", "fighter", "rogue", "wizard"].iter().map(|c| format!("base:class:{c}")).collect();
    Catalog {
        races,
        classes: classes.clone(),
        backgrounds: vec!["base:background:acolyte".to_owned()],
        class_skills: vec![ClassSkills {
            class: classes[0].clone(),
            choose: 2,
            from: vec![Skill::History, Skill::Insight, Skill::Medicine, Skill::Persuasion, Skill::Religion],
        }],
        labels: vec![],
        budget: 27,
        min: 8,
        max: 15,
        costs: vec![0, 1, 2, 3, 4, 5, 7, 9],
        slots: 6,
    }
}

fn press(form: &mut CreationForm, catalog: &Catalog, keys: Vec<MenuKey>) {
    for key in keys {
        form.key(key, catalog, 0);
    }
}

#[test]
fn clicks_reproduce_the_key_paths() {
    let catalog = catalog();
    let mut by_keys = CreationForm::new(&catalog);
    by_keys.key(MenuKey::Down, &catalog, 0);
    by_keys.key(MenuKey::Right, &catalog, 0);
    let mut by_mouse = CreationForm::new(&catalog);
    let hit = Hit { id: WidgetId::Row(ROW_RACE), part: Part::Right, kind: Kind::Choice };
    let keys = click(Target::Creation(&mut by_mouse), hit);
    press(&mut by_mouse, &catalog, keys);
    assert_eq!(by_mouse, by_keys);
    let toggle = Hit { id: WidgetId::Skill(2), part: Part::Body, kind: Kind::Toggle };
    let keys = click(Target::Creation(&mut by_mouse), toggle);
    press(&mut by_mouse, &catalog, keys);
    assert_eq!(by_mouse.skills.len(), 1);
    let keys = click(Target::Creation(&mut by_mouse), toggle);
    press(&mut by_mouse, &catalog, keys);
    assert!(by_mouse.skills.is_empty());
    let begin = Hit { id: WidgetId::Row(ROW_BEGIN), part: Part::Body, kind: Kind::Button };
    let keys = click(Target::Creation(&mut by_mouse), begin);
    press(&mut by_mouse, &catalog, keys);
    assert_eq!(by_mouse.message, "Add at least one member");
}
