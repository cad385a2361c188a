use omnis_app::debug_menu::{
    bump, describe, fields, Ability, DebugIntent, DebugMenu, DebugView, DevCommand, Facing, MemberDebug,
    StackDebug, ROW_CONDITION, ROW_FOOD, ROW_GOLD, ROW_HP, ROW_ITEM, ROW_MAP, ROW_MEMBER,
    ROW_SCORE, ROW_STACK, ROW_XP,
};
use omnis_app::menu::MenuKey;

fn view(fighting: bool) -> DebugView {
    DebugView {
        fighting,
        devtools: true,
        members: vec![MemberDebug {
            name: "Brenna".to_owned(),
            hp: (12, 12),
            sp: (0, 0),
            xp: 0,
            scores: [15, 15, 13, 12, 10, 8],
            conditions: vec!["base:condition:poisoned".to_owned()],
        }],
        gold: 30,
        food: 20,
        items: vec![
            ("base:item:arrows".to_owned(), "Arrows".to_owned()),
            ("base:item:spyglass".to_owned(), "Spyglass".to_owned()),
        ],
        conditions: vec![
            ("base:condition:blinded".to_owned(), "Blinded".to_owned()),
            ("base:condition:poisoned".to_owned(), "Poisoned".to_owned()),
        ],
        flags: vec!["door_open".to_owned()],
        maps: vec![("test:map:dungeon".to_owned(), 16, 16), ("test:map:meadow".to_owned(), 32, 24)],
        position: (1, 16, 4, Facing::South),
        stacks: if fighting {
            vec![StackDebug { index: 0, name: "Goblin".to_owned(), count: (2, 3), lead_hp: 7 }]
        } else {
            Vec::new()
        },
    }
}

#[test]
fn numbers_move_at_once_and_choices_wait_for_enter() {
    let view = view(false);
    let mut menu = DebugMenu::default();
    menu.open(&view);
    assert_eq!(menu.map, view.position.0);
    assert_eq!(menu.tile, (view.position.1, view.position.2));
    assert_eq!(menu.facing, 2);
    menu.key(MenuKey::Down, &view);
    assert_eq!(menu.row, ROW_HP);
    let max = view.members[0].hp.1;
    assert_eq!(
        menu.key(MenuKey::Left, &view),
        Some(DebugIntent::Command(DevCommand::SetHp { member: 0, hp: max - 1 }))
    );
    assert_eq!(
        menu.key(MenuKey::Char('['), &view),
        Some(DebugIntent::Command(DevCommand::SetHp { member: 0, hp: 0 })),
        "clamped at zero"
    );
    assert_eq!(
        menu.key(MenuKey::Char(']'), &view),
        Some(DebugIntent::Command(DevCommand::SetHp { member: 0, hp: 12 })),
        "clamped at the maximum"
    );
    menu.row = ROW_GOLD;
    assert_eq!(
        menu.key(MenuKey::Char('+'), &view),
        Some(DebugIntent::Command(DevCommand::SetGold { gold: view.gold + 10 }))
    );
    menu.row = ROW_FOOD;
    assert_eq!(
        menu.key(MenuKey::Char('-'), &view),
        Some(DebugIntent::Command(DevCommand::SetFood { food: 10 }))
    );
    menu.row = ROW_ITEM;
    menu.key(MenuKey::Right, &view);
    assert_eq!(menu.item, 1);
    menu.key(MenuKey::Char('\t'), &view);
    assert_eq!(menu.field, 1);
    menu.key(MenuKey::Right, &view);
    assert_eq!(menu.count, 2);
    assert_eq!(
        menu.key(MenuKey::Enter, &view),
        Some(DebugIntent::Command(DevCommand::GiveItem {
            member: Some(0),
            item: view.items[1].0.clone(),
            count: 2
        }))
    );
    assert_eq!(
        menu.key(MenuKey::Char('s'), &view),
        Some(DebugIntent::Command(DevCommand::GiveItem {
            member: None,
            item: view.items[1].0.clone(),
            count: 2
        }))
    );
    menu.row = ROW_CONDITION;
    menu.field = 0;
    assert_eq!(
        menu.key(MenuKey::Enter, &view),
        Some(DebugIntent::Command(DevCommand::SetCondition {
            member: 0,
            condition: view.conditions[0].0.clone(),
            applied: true
        }))
    );
    menu.key(MenuKey::Right, &view);
    assert_eq!(
        menu.key(MenuKey::Enter, &view),
        Some(DebugIntent::Command(DevCommand::SetCondition {
            member: 0,
            condition: view.conditions[1].0.clone(),
            applied: false
        })),
        "a condition in effect comes off"
    );
    menu.row = ROW_SCORE;
    menu.field = 0;
    menu.key(MenuKey::Right, &view);
    assert_eq!(menu.ability, 1, "Dexterity");
    menu.key(MenuKey::Char('\t'), &view);
    assert_eq!(
        menu.key(MenuKey::Right, &view),
        Some(DebugIntent::Command(DevCommand::SetScore {
            member: 0,
            ability: Ability::Dexterity,
            score: 16
        }))
    );
    menu.row = ROW_MAP;
    menu.field = 1;
    menu.key(MenuKey::Left, &view);
    assert_eq!(menu.tile.0, view.position.1 - 1);
    menu.field = 3;
    menu.key(MenuKey::Right, &view);
    assert_eq!(
        menu.key(MenuKey::Enter, &view),
        Some(DebugIntent::Command(DevCommand::Teleport {
            map: view.maps[view.position.0].0.clone(),
            x: view.position.1 - 1,
            y: view.position.2,
            facing: Facing::West
        }))
    );
    menu.row = ROW_STACK;
    assert_eq!(menu.key(MenuKey::Char('k'), &view), None);
    assert_eq!(menu.message, "No fight is on");
    assert_eq!(menu.key(MenuKey::Escape, &view), Some(DebugIntent::Close));
    assert_eq!(menu.message, "");
    assert_eq!(describe(&DevCommand::SetHp { member: 0, hp: 5 }), "dev: member 0 hp 5");
}

#[test]
fn every_dev_command_reads_as_one_log_line() {
    let cases = [
        (DevCommand::GiveItem { member: Some(1), item: "base:item:x".to_owned(), count: 3 }, "dev: 3 x base:item:x to member 1"),
        (DevCommand::GiveItem { member: None, item: "gold".to_owned(), count: 1 }, "dev: 1 x gold to the stores"),
        (DevCommand::SetSpellPoints { member: 2, points: 7 }, "dev: member 2 sp 7"),
        (DevCommand::SetGold { gold: 999_999 }, "dev: gold 999999"),
        (DevCommand::SetFood { food: 0 }, "dev: food 0"),
        (DevCommand::SetXp { member: 0, xp: 355_000 }, "dev: member 0 xp 355000"),
        (DevCommand::SetScore { member: 0, ability: Ability::Wisdom, score: 18 }, "dev: member 0 WIS 18"),
        (DevCommand::SetCondition { member: 1, condition: "base:condition:poisoned".to_owned(), applied: false }, "dev: member 1 base:condition:poisoned off"),
        (DevCommand::SetFlag { flag: "door".to_owned(), value: -1 }, "dev: door = -1"),
        (DevCommand::Teleport { map: "test:map:dungeon".to_owned(), x: 3, y: 8, facing: Facing::South }, "dev: teleport to test:map:dungeon (3, 8) facing south"),
        (DevCommand::SetMonsterHp { stack: 0, index: 0, hp: 4 }, "dev: stack 0 #1 hp 4"),
        (DevCommand::KillStack { stack: 2 }, "dev: stack 2 slain"),
    ];
    for (command, line) in cases {
        assert_eq!(describe(&command), line);
    }
}

#[test]
fn a_fight_edits_stacks_and_refuses_the_teleport() {
    let view = view(true);
    let mut menu = DebugMenu::default();
    menu.open(&view);
    menu.row = ROW_STACK;
    menu.field = 1;
    assert_eq!(
        menu.key(MenuKey::Char('['), &view),
        Some(DebugIntent::Command(DevCommand::SetMonsterHp { stack: 0, index: 0, hp: 0 }))
    );
    assert_eq!(
        menu.key(MenuKey::Char('k'), &view),
        Some(DebugIntent::Command(DevCommand::KillStack { stack: 0 }))
    );
    menu.row = ROW_MAP;
    assert_eq!(menu.key(MenuKey::Enter, &view), None);
    assert_eq!(menu.message, "No teleport in a fight");
    menu.row = ROW_MEMBER;
    menu.key(MenuKey::Right, &view);
    assert_eq!(menu.member, 0, "one member wraps to itself");
    menu.row = ROW_XP;
    assert_eq!(
        menu.key(MenuKey::Char(']'), &view),
        Some(DebugIntent::Command(DevCommand::SetXp { member: 0, xp: 100 }))
    );
}

#[test]
fn tab_cycles_the_fields_and_bumps_clamp() {
    assert_eq!(fields(ROW_MAP), 4);
    assert_eq!(fields(ROW_HP), 1);
    assert_eq!(fields(ROW_ITEM), 2);
    let view = view(false);
    let mut menu = DebugMenu::default();
    menu.row = ROW_MAP;
    for expected in [1, 2, 3, 0] {
        menu.key(MenuKey::Char('\t'), &view);
        assert_eq!(menu.field, expected);
    }
    assert_eq!(bump(5, -10, 30), 0);
    assert_eq!(bump(25, 10, 30), 30);
    assert_eq!(bump(25, 1, 30), 26);
    menu.item = 9;
    menu.count = 0;
    menu.sync(&view);
    assert_eq!((menu.item, menu.count), (1, 1));
}

#[test]
fn the_menu_and_its_view_clone_whole() {
    let v = view(true);
    assert_eq!(v.clone(), v);
    let mut menu = DebugMenu::default();
    menu.row = ROW_MAP;
    menu.tile = (3, 4);
    menu.message = "No teleport in a fight".to_owned();
    assert_eq!(menu.clone(), menu);
}

#[test]
fn keys_that_read_no_list_need_no_cursor_inside_one() {
    let v = view(false);
    let mut menu = DebugMenu::default();
    menu.ability = 9;
    menu.row = ROW_SCORE;
    assert_eq!(menu.key(MenuKey::Down, &v), None);
    assert_eq!(menu.row, ROW_SCORE + 1);
    menu.row = ROW_SCORE;
    assert_eq!(menu.key(MenuKey::Right, &v), None, "field 0 steps the ability");
    assert_eq!(menu.ability, 4, "a step from past the list wraps into it");
}
