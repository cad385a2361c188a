use omnis_app::menu::{
    cycle, mark, on_off, rule_label, words, MenuKey, Pause, PauseAction, SaveRule, Settings,
    Title, TitleAction, PAUSE_DEBUG, PAUSE_ITEMS,
};

#[test]
fn the_title_cycles_and_chooses() {
    let mut title = Title::default();
    assert_eq!(title.key(MenuKey::Up), None);
    assert_eq!(title.cursor, 2, "wraps");
    assert_eq!(title.key(MenuKey::Enter), Some(TitleAction::Quit));
    title.key(MenuKey::Down);
    assert_eq!(title.key(MenuKey::Enter), Some(TitleAction::NewGame));
    assert!(title.lines()[2].starts_with("> New game"));
    assert!(title.lines()[3].starts_with("  Load"));
}

#[test]
fn every_pause_item_answers_and_the_cursor_wraps() {
    let mut pause = Pause::default();
    assert_eq!(pause.key(MenuKey::Escape), Some(PauseAction::Resume));
    let expected = [
        PauseAction::Resume,
        PauseAction::Save,
        PauseAction::Load,
        PauseAction::Sheet,
        PauseAction::Debug,
        PauseAction::QuitToTitle,
        PauseAction::Quit,
    ];
    assert_eq!(PAUSE_ITEMS[PAUSE_DEBUG], "Debug menu");
    for (i, action) in expected.iter().enumerate() {
        assert_eq!(pause.cursor, i);
        assert_eq!(pause.key(MenuKey::Enter), Some(*action), "item {i}");
        pause.key(MenuKey::Down);
    }
    assert_eq!(pause.cursor, 0, "wraps after the last item");
    assert_eq!(pause.key(MenuKey::Left), None);
}

#[test]
fn words_split_camel_case() {
    assert_eq!(words("LawfulGood"), "Lawful Good");
    assert_eq!(words("SleightOfHand"), "Sleight Of Hand");
    assert_eq!(words(""), "");
}

#[test]
fn cycle_wraps_both_ways_and_ignores_other_keys() {
    assert_eq!(cycle(0, 3, MenuKey::Up), 2);
    assert_eq!(cycle(2, 3, MenuKey::Down), 0);
    assert_eq!(cycle(1, 3, MenuKey::Down), 2);
    assert_eq!(cycle(1, 3, MenuKey::Enter), 1);
    assert_eq!(cycle(0, 0, MenuKey::Down), 0);
}

#[test]
fn marks_and_labels() {
    assert_eq!(mark(1, 1, "Go".to_owned()), "> Go");
    assert_eq!(mark(0, 1, "Go".to_owned()), "  Go");
    assert_eq!(on_off(true), "on");
    assert_eq!(on_off(false), "off");
    assert_eq!(rule_label(SaveRule::Relief), "Inns, items, and spells");
    assert_eq!(Settings::default().save_rule, SaveRule::Anywhere);
}

use omnis_app::hash::fnv1a64;
use omnis_app::menu::{NewGameAction, NewGameForm};

#[test]
fn the_new_game_form_makes_a_seed_and_settings() {
    let mut form = NewGameForm::default();
    assert_eq!(form.seed(99), 99, "blank is entropy");
    for c in "42".chars() {
        form.key(MenuKey::Char(c));
    }
    assert_eq!(form.seed(99), 42);
    form.key(MenuKey::Backspace);
    form.key(MenuKey::Backspace);
    for c in "toel".chars() {
        form.key(MenuKey::Char(c));
    }
    assert_eq!(form.seed(99), fnv1a64(b"toel"), "words are hashed");
    form.key(MenuKey::Down);
    form.key(MenuKey::Right);
    assert_eq!(form.settings.save_rule, SaveRule::Relief);
    form.key(MenuKey::Right);
    form.key(MenuKey::Right);
    assert_eq!(form.settings.save_rule, SaveRule::Anywhere, "cycles");
    form.key(MenuKey::Left);
    assert_eq!(form.settings.save_rule, SaveRule::InnOnly);
    form.key(MenuKey::Down);
    form.key(MenuKey::Left);
    assert!(form.settings.permadeath);
    form.key(MenuKey::Down);
    assert_eq!(form.key(MenuKey::Enter), Some(NewGameAction::Start));
    form.key(MenuKey::Down);
    assert_eq!(form.key(MenuKey::Enter), Some(NewGameAction::Back));
    assert_eq!(form.key(MenuKey::Escape), Some(NewGameAction::Back));
    assert!(form.lines()[3].contains("Inns only"), "{:?}", form.lines());
    assert!(form.lines()[4].contains("On"));
}

#[test]
fn seeds_trim_and_refuse_what_does_not_fit() {
    let form = |text: &str| NewGameForm { seed_text: text.to_owned(), ..NewGameForm::default() };
    assert_eq!(form("  17 \t").seed(5), 17);
    assert_eq!(form("   ").seed(5), 5);
    assert_eq!(form("+8").seed(5), 8);
    assert_eq!(form("18446744073709551615").seed(5), u64::MAX);
    assert_eq!(form("18446744073709551616").seed(5), fnv1a64(b"18446744073709551616"));
    assert_eq!(form("+").seed(5), fnv1a64(b"+"));
    assert_eq!(form("-1").seed(5), fnv1a64(b"-1"));
    assert_eq!(form("é").seed(5), fnv1a64("é".as_bytes()));
    let mut typed = NewGameForm::default();
    for _ in 0..40 {
        typed.key(MenuKey::Char('a'));
    }
    assert_eq!(typed.seed_text.len(), 32, "the seed stops at 32 bytes");
    assert_eq!(typed.lines()[2], format!("> Seed: {}_   (blank for random; words are hashed)", "a".repeat(32)));
}

#[test]
fn the_pause_overlay_shows_the_settings_and_every_item_answers() {
    let mut pause = Pause::default();
    let settings = Settings {
        save_rule: SaveRule::InnOnly,
        permadeath: true,
        devtools: true,
    };
    let lines = pause.lines(settings, 7);
    assert_eq!(lines[1], "Seed 7");
    assert_eq!(lines[2], "Saving: InnOnly   Permadeath: on   Devtools: on");
    assert_eq!(
        &lines[4..11],
        [
            "> Resume",
            "  Save",
            "  Load",
            "  Character sheet",
            "  Debug menu",
            "  Quit to title",
            "  Quit"
        ]
    );
    assert_eq!(pause.key(MenuKey::Escape), Some(PauseAction::Resume));
    let expected = [
        PauseAction::Resume,
        PauseAction::Save,
        PauseAction::Load,
        PauseAction::Sheet,
        PauseAction::Debug,
        PauseAction::QuitToTitle,
        PauseAction::Quit,
    ];
    assert_eq!(PAUSE_ITEMS[PAUSE_DEBUG], "Debug menu");
    for (i, action) in expected.iter().enumerate() {
        assert_eq!(pause.cursor, i);
        assert_eq!(pause.key(MenuKey::Enter), Some(*action), "item {i}");
        assert!(pause.lines(settings, 7)[4 + i].starts_with("> "));
        pause.key(MenuKey::Down);
    }
    assert_eq!(pause.cursor, 0, "wraps after the last item");
    assert_eq!(words("LawfulGood"), "Lawful Good");
    assert_eq!(words("SleightOfHand"), "Sleight Of Hand");
}
