use omnis_app::creation_panel::{Choice, PanelId, CHOICES};
use omnis_app::layout::menu_cell;
use omnis_app::menu::MenuKey;
use omnis_app::sense_text::layer_word;
use omnis_app::spell_menu::{cast_screen, CastIntent, CastMenu, CastRow, SpellRow, Target};
use omnis_app::widget::{Frame, WidgetId, DIM, HI};
use omnis_app::AppConfig;

fn spell(auto: Option<bool>, active: bool, blocked: Option<&str>) -> SpellRow {
    SpellRow {
        index: 0,
        name: "Shield".to_owned(),
        cost: 1,
        targets_members: false,
        auto,
        active,
        blocked: blocked.map(|b| b.to_owned()),
    }
}

fn cast_row(caster: u8, name: &str, targets_members: bool, blocked: Option<&str>) -> CastRow {
    CastRow {
        caster,
        caster_name: "Wren".to_owned(),
        spell: 2,
        name: name.to_owned(),
        cost: 1,
        targets_members,
        blocked: blocked.map(|b| b.to_owned()),
    }
}

#[test]
fn the_note_says_auto_then_why_then_in_force() {
    assert_eq!(spell(Some(false), true, Some("need 1 pt")).note(), "auto: off");
    assert_eq!(spell(Some(true), false, None).note(), "auto: on");
    assert_eq!(spell(None, true, Some("need 1 pt")).note(), "need 1 pt");
    assert_eq!(spell(None, true, None).note(), "in force");
    assert_eq!(spell(None, false, None).note(), "");
}

#[test]
fn the_cast_menu_casts_at_the_selection_or_the_caster() {
    let rows = vec![
        cast_row(2, "Light", false, None),
        cast_row(1, "Cure Wounds", true, None),
        cast_row(2, "Bless", false, Some("need 1 pt")),
    ];
    let mut menu = CastMenu::default();
    assert_eq!(
        menu.key(MenuKey::Enter, &rows, None),
        Some(CastIntent::Cast { caster: 2, spell: 2, target: Target::Member(2) }),
        "light needs no target"
    );
    menu.key(MenuKey::Down, &rows, None);
    assert_eq!(menu.key(MenuKey::Enter, &rows, None), None);
    assert_eq!(menu.message, "Select a member to cast Cure Wounds on");
    assert_eq!(
        menu.key(MenuKey::Enter, &rows, Some(0)),
        Some(CastIntent::Cast { caster: 1, spell: 2, target: Target::Member(0) })
    );
    assert_eq!(menu.message, "");
    menu.key(MenuKey::Down, &rows, None);
    assert_eq!(menu.key(MenuKey::Enter, &rows, None), None);
    assert_eq!(menu.message, "Bless: need 1 pt");
    menu.key(MenuKey::Down, &rows, None);
    assert_eq!(menu.cursor, 0, "wraps");
    assert_eq!(menu.key(MenuKey::Char('c'), &rows, None), Some(CastIntent::Close));
    assert_eq!(menu.key(MenuKey::Escape, &rows, None), Some(CastIntent::Close));
    menu.cursor = 7;
    menu.sync(&rows);
    assert_eq!(menu.cursor, 2);
    let mut empty = CastMenu::default();
    assert_eq!(empty.key(MenuKey::Enter, &[], None), None);
    assert_eq!(empty.message, "Nobody can cast anything here");
}

#[test]
fn the_cast_screen_lists_rows_and_dims_the_blocked() {
    let rows = vec![
        cast_row(2, "Light", false, None),
        cast_row(2, "Bless", false, Some("need 1 pt")),
    ];
    let mut frame = Frame::default();
    cast_screen(&mut frame, &CastMenu::default(), &rows);
    assert_eq!(frame.widgets.len(), 2);
    assert!(frame.widgets[0].enabled && !frame.widgets[1].enabled);
    let first = frame.widget(WidgetId::Row(0)).unwrap();
    assert_eq!(first.rect.y, menu_cell(1, 3).1);
    assert_eq!(frame.raster.get(first.rect.x - 5, first.rect.y + 1), Some([HI.0, HI.1, HI.2, 255]));
    let mut frame = Frame::default();
    cast_screen(&mut frame, &CastMenu::default(), &[]);
    assert!(frame.widgets.is_empty());
    let (x, y) = menu_cell(1, 3);
    assert!((0..8).any(|dy| (0..6).any(|dx| frame.raster.get(x + dx, y + dy) == Some([DIM.0, DIM.1, DIM.2, 255]))));
}

#[test]
fn labels_words_and_defaults() {
    assert_eq!(CHOICES.map(|c| c.label()), ["Race", "Class", "Background", "Alignment"]);
    assert_eq!(PanelId::default(), PanelId::Name);
    assert!(PanelId::Menu(Choice::Race) < PanelId::Menu(Choice::Class));
    assert_eq!(layer_word(1), "terrain");
    assert_eq!(layer_word(4), "creatures");
    assert_eq!(layer_word(9), "layer 9");
    let config = AppConfig::default();
    assert_eq!(config.packs, vec!["packs/test".to_owned()]);
    assert_eq!(config.seed, 1);
    assert_eq!(config.save_path, ".omnis/quick.ron");
}
