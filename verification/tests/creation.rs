use omnis_app::creation_menu::{
    Alignment, Catalog, ClassSkills, CreationAction, CreationForm, Label, Skill, ALIGNMENTS,
    NAME_LIMIT, ROWS, ROW_ADD, ROW_ALIGNMENT, ROW_BEGIN, ROW_CLASS, ROW_NAME, ROW_SCORES,
    ROW_SKILLS,
};
use omnis_app::creation_panel::{apply, shape, text, Choice, PanelAction, PanelId, Payload, Slide};
use omnis_app::menu::MenuKey;

fn ids(kind: &str, names: &[&str]) -> Vec<String> {
    names.iter().map(|n| format!("base:{kind}:{n}")).collect()
}

fn label(id: &str, name: &str) -> Label {
    Label { id: id.to_owned(), name: name.to_owned() }
}

/// The base pack's creation choices, as its data files give them.
fn catalog() -> Catalog {
    let classes = ids("class", &["cleric", "fighter", "rogue", "wizard"]);
    let class_skills = vec![
        ClassSkills {
            class: classes[0].clone(),
            choose: 2,
            from: vec![
                Skill::History,
                Skill::Insight,
                Skill::Medicine,
                Skill::Persuasion,
                Skill::Religion,
            ],
        },
        ClassSkills {
            class: classes[1].clone(),
            choose: 2,
            from: vec![
                Skill::Acrobatics,
                Skill::AnimalHandling,
                Skill::Athletics,
                Skill::History,
                Skill::Insight,
                Skill::Intimidation,
                Skill::Perception,
                Skill::Survival,
            ],
        },
        ClassSkills {
            class: classes[2].clone(),
            choose: 4,
            from: vec![
                Skill::Acrobatics,
                Skill::Athletics,
                Skill::Deception,
                Skill::Insight,
                Skill::Intimidation,
                Skill::Investigation,
                Skill::Perception,
                Skill::Performance,
                Skill::Persuasion,
                Skill::SleightOfHand,
                Skill::Stealth,
            ],
        },
        ClassSkills {
            class: classes[3].clone(),
            choose: 2,
            from: vec![
                Skill::Arcana,
                Skill::History,
                Skill::Insight,
                Skill::Investigation,
                Skill::Medicine,
                Skill::Religion,
            ],
        },
    ];
    Catalog {
        races: ids("race", &["dwarf", "elf", "halfling", "human"]),
        classes,
        backgrounds: ids("background", &["acolyte", "soldier"]),
        class_skills,
        labels: vec![
            label("base:race:dwarf", "Dwarf (hill dwarf)"),
            label("base:race:human", "Human"),
            label("base:class:fighter", "Fighter"),
            label("base:class:wizard", "Wizard"),
            label("base:background:acolyte", "Acolyte"),
        ],
        budget: 27,
        min: 8,
        max: 15,
        costs: vec![0, 1, 2, 3, 4, 5, 7, 9],
        slots: 6,
    }
}

fn press(form: &mut CreationForm, catalog: &Catalog, keys: &[MenuKey]) -> Option<CreationAction> {
    let mut action = None;
    for key in keys {
        action = form.key(*key, catalog, 0);
    }
    action
}

fn type_text(form: &mut CreationForm, catalog: &Catalog, text: &str) {
    for c in text.chars() {
        form.key(MenuKey::Char(c), catalog, 0);
    }
}

#[test]
fn a_fighter_is_drafted_by_point_buy() {
    let catalog = catalog();
    let mut form = CreationForm::new(&catalog);
    assert_eq!(form.spent(&catalog), 0);
    type_text(&mut form, &catalog, "Brenna");
    // Race row: dwarf, elf, halfling, human; Left from dwarf wraps to human.
    press(&mut form, &catalog, &[MenuKey::Down, MenuKey::Left]);
    assert_eq!(form.race, 3);
    // Class row: cleric, fighter, rogue, wizard.
    press(&mut form, &catalog, &[MenuKey::Down, MenuKey::Right]);
    assert_eq!(catalog.classes[form.class], "base:class:fighter");
    // Scores: STR 15, DEX 14, CON 13, INT 12, WIS 10, CHA 8.
    press(&mut form, &catalog, &[MenuKey::Down, MenuKey::Down, MenuKey::Down]);
    assert_eq!(form.cursor, ROW_SCORES);
    for (i, target) in [15u8, 14, 13, 12, 10, 8].iter().enumerate() {
        for _ in catalog.min..*target {
            form.key(MenuKey::Right, &catalog, 0);
        }
        assert_eq!(form.scores[i], *target);
        form.key(MenuKey::Down, &catalog, 0);
    }
    assert_eq!(form.spent(&catalog), 27);
    assert_eq!(form.cursor, ROW_SKILLS);
    // Fighter list: Acrobatics, AnimalHandling, Athletics, ...; pick Athletics and Perception.
    press(&mut form, &catalog, &[MenuKey::Right, MenuKey::Right, MenuKey::Enter]);
    assert_eq!(form.skills, [Skill::Athletics]);
    for _ in 0..4 {
        form.key(MenuKey::Right, &catalog, 0);
    }
    form.key(MenuKey::Enter, &catalog, 0);
    assert_eq!(form.skills, [Skill::Athletics, Skill::Perception]);
    form.key(MenuKey::Left, &catalog, 0);
    form.key(MenuKey::Enter, &catalog, 0);
    assert!(form.message.contains("picks 2"), "a third pick is refused: {}", form.message);
    form.key(MenuKey::Down, &catalog, 0);
    let Some(CreationAction::Add(draft)) = form.key(MenuKey::Enter, &catalog, 0) else {
        panic!("Add answers with the draft: {}", form.message);
    };
    assert_eq!(draft.name, "Brenna");
    assert_eq!(draft.race, "base:race:human");
    assert_eq!(draft.scores, [15, 14, 13, 12, 10, 8]);
    assert_eq!(draft.skills, [Skill::Athletics, Skill::Perception]);
    form.next_member(&catalog);
    assert_eq!(form.cursor, ROW_ADD);
    assert!(form.name.is_empty() && form.skills.is_empty());
}

#[test]
fn the_form_refuses_what_the_rules_would() {
    let catalog = catalog();
    let mut form = CreationForm::new(&catalog);
    form.cursor = ROW_ADD;
    assert_eq!(form.key(MenuKey::Enter, &catalog, 0), None);
    assert!(form.message.contains("name"));
    form.name = "x".to_owned();
    form.scores = [15; 6];
    assert_eq!(form.key(MenuKey::Enter, &catalog, 0), None);
    assert!(form.message.contains("54 points"), "{}", form.message);
    form.scores = [8; 6];
    assert_eq!(form.key(MenuKey::Enter, &catalog, 0), None);
    assert!(form.message.contains("Pick 2"), "{}", form.message);
    assert_eq!(form.key(MenuKey::Enter, &catalog, 6), None);
    assert!(form.message.contains("full"));
    form.cursor = ROW_SCORES;
    form.key(MenuKey::Left, &catalog, 0);
    assert_eq!(form.scores[0], 8, "never below the minimum");
    form.scores[0] = 15;
    form.key(MenuKey::Right, &catalog, 0);
    assert_eq!(form.scores[0], 15, "never above the maximum");
    form.cursor = ROW_BEGIN;
    assert_eq!(form.key(MenuKey::Enter, &catalog, 0), None);
    assert_eq!(form.key(MenuKey::Enter, &catalog, 1), Some(CreationAction::Begin));
    assert_eq!(form.key(MenuKey::Escape, &catalog, 1), Some(CreationAction::Back));
    form.cursor = ROW_CLASS;
    form.skills = vec![Skill::Athletics];
    form.key(MenuKey::Right, &catalog, 0);
    assert!(form.skills.is_empty(), "a class change drops the picks");
    let lines = form.lines(&catalog, &["Brenna".to_owned()]);
    assert!(lines[0].contains("1 of 6"));
    assert_eq!(lines[1], "Brenna");
    assert!(lines.iter().any(|l| l.contains("Points left: 18 of 27")), "{lines:?}");
}

#[test]
fn the_refusals_read_in_full() {
    let catalog = catalog();
    let mut form = CreationForm::new(&catalog);
    assert_eq!(form.add(&catalog, 6), None);
    assert_eq!(form.message, "The party is full");
    assert_eq!(form.add(&catalog, 0), None);
    assert_eq!(form.message, "Give the character a name");
    form.set_name("  Brenna ");
    form.scores = [15, 15, 15, 15, 8, 8];
    assert_eq!(form.add(&catalog, 0), None);
    assert_eq!(form.message, "36 points spent of 27");
    form.scores = [8; 6];
    assert_eq!(form.add(&catalog, 0), None);
    assert_eq!(form.message, "Pick 2 skills");
    form.toggle_skill(Skill::History, &catalog);
    form.toggle_skill(Skill::Insight, &catalog);
    form.toggle_skill(Skill::Religion, &catalog);
    assert_eq!(form.message, "This class picks 2 skills");
    assert_eq!(form.skills, [Skill::History, Skill::Insight]);
    let Some(CreationAction::Add(draft)) = form.add(&catalog, 0) else {
        panic!("a cleric with two picks is accepted: {}", form.message);
    };
    assert_eq!(form.message, "", "success clears the message");
    assert_eq!(draft.name, "Brenna", "the name is trimmed");
    assert_eq!(draft.class, "base:class:cleric");
    assert_eq!(draft.background, "base:background:acolyte");
    assert_eq!(draft.alignment, Alignment::LawfulGood);
    assert_eq!(form.begin(0), None);
    assert_eq!(form.message, "Add at least one member");
}

#[test]
fn a_skill_toggles_off_and_one_off_the_list_is_ignored() {
    let catalog = catalog();
    let mut form = CreationForm::new(&catalog);
    form.toggle_skill(Skill::Stealth, &catalog);
    assert!(form.skills.is_empty(), "Stealth is not a cleric skill");
    form.toggle_skill(Skill::Medicine, &catalog);
    form.toggle_skill(Skill::Religion, &catalog);
    form.toggle_skill(Skill::Medicine, &catalog);
    assert_eq!(form.skills, [Skill::Religion]);
    form.set_class(0, &catalog);
    assert_eq!(form.skills, [Skill::Religion], "the same class keeps the picks");
    form.set_class(9, &catalog);
    assert_eq!(form.class, 0, "no tenth class");
}

#[test]
fn the_name_is_cut_at_the_byte_limit_on_a_character_boundary() {
    let catalog = catalog();
    let mut form = CreationForm::new(&catalog);
    form.set_name(&"a".repeat(30));
    assert_eq!(form.name.len(), NAME_LIMIT);
    form.set_name(&"é".repeat(13));
    assert_eq!(form.name, "é".repeat(12), "a two-byte letter past the limit is dropped whole");
    form.cursor = ROW_NAME;
    form.name = "ab".to_owned();
    form.key(MenuKey::Backspace, &catalog, 0);
    assert_eq!(form.name, "a");
    form.key(MenuKey::Backspace, &catalog, 0);
    form.key(MenuKey::Backspace, &catalog, 0);
    assert_eq!(form.name, "");
    form.cursor = ROW_CLASS;
    form.key(MenuKey::Char('z'), &catalog, 0);
    assert_eq!(form.name, "", "letters go to the name row only");
}

#[test]
fn the_choice_rows_wrap_and_the_cursor_cycles() {
    let catalog = catalog();
    let mut form = CreationForm::new(&catalog);
    form.key(MenuKey::Up, &catalog, 0);
    assert_eq!(form.cursor, ROWS - 1);
    form.cursor = ROW_ALIGNMENT;
    form.key(MenuKey::Left, &catalog, 0);
    assert_eq!(form.alignment, 8);
    assert_eq!(ALIGNMENTS[form.alignment], Alignment::ChaoticEvil);
    form.set_alignment(9);
    assert_eq!(form.alignment, 8, "no tenth alignment");
    form.set_race(4, &catalog);
    assert_eq!(form.race, 0);
    form.set_background(1, &catalog);
    assert_eq!(form.background, 1);
    form.set_score(6, 12, &catalog);
    assert_eq!(form.scores, [8; 6], "no seventh ability");
    form.set_score(2, 40, &catalog);
    assert_eq!(form.scores[2], 15);
}

#[test]
fn the_screen_reads_line_by_line() {
    let catalog = catalog();
    let mut form = CreationForm::new(&catalog);
    form.set_name("Brenna");
    form.set_race(3, &catalog);
    form.set_class(1, &catalog);
    form.cursor = ROW_SKILLS;
    form.skill_cursor = 2;
    form.toggle_skill(Skill::Athletics, &catalog);
    let lines = form.lines(&catalog, &[]);
    assert_eq!(lines.len(), 20);
    assert_eq!(lines[0], "CREATE YOUR PARTY   0 of 6 members");
    assert_eq!(lines[1], "(no members yet)");
    assert_eq!(lines[3], "  Name: Brenna_");
    assert_eq!(lines[4], "  Race: < Human >");
    assert_eq!(lines[5], "  Class: < Fighter >");
    assert_eq!(lines[6], "  Background: < Acolyte >");
    assert_eq!(lines[7], "  Alignment: < Lawful Good >");
    assert_eq!(lines[8], "  STR: <  8 >   cost 0");
    assert_eq!(lines[14], "    Points left: 27 of 27");
    assert!(
        lines[15].starts_with("> Skills (pick 2): [ ] Acrobatics  [ ] Animal Handling  [x] <Athletics>  [ ] History"),
        "{}",
        lines[15]
    );
    assert_eq!(lines[16], "  Add member");
    assert_eq!(lines[17], "  Begin");
    assert_eq!(lines[18], "");
    assert!(lines[19].starts_with("Up/Down select"));
    let two = form.lines(&catalog, &["Brenna".to_owned(), "Gorm".to_owned()]);
    assert_eq!(two[1], "Brenna, Gorm");
    assert_eq!(catalog.label("base:race:elf"), "base:race:elf", "an id without a label reads as itself");
}

fn act(id: PanelId, payload: Payload, form: &mut CreationForm, catalog: &Catalog) {
    assert_eq!(apply(id, &payload, form, catalog, 0), None, "{id:?}");
}

/// A slider's report: its value rounded, and ten times it rounded.
fn slide(units: i64, tenths: i64) -> Payload {
    Payload::Slide(Slide { units: Some(units), tenths: Some(tenths) })
}

/// What a slider reports for not a number.
fn not_a_number() -> Payload {
    Payload::Slide(Slide { units: None, tenths: None })
}

/// The fighter of the key-driven test, drafted through the controls.
fn fighter(form: &mut CreationForm, catalog: &Catalog) {
    act(PanelId::Name, Payload::Text("Brenna".into()), form, catalog);
    act(PanelId::Pick(Choice::Race, 3), Payload::Activate, form, catalog);
    let class = catalog.classes.iter().position(|c| c == "base:class:fighter").expect("a fighter");
    act(PanelId::Pick(Choice::Class, class), Payload::Activate, form, catalog);
    for (ability, score) in [15, 13, 14, 8, 12, 10].into_iter().enumerate() {
        act(PanelId::Score(ability), Payload::Number(score), form, catalog);
    }
    act(PanelId::Skill(0), Payload::Flag(true), form, catalog);
    act(PanelId::Skill(1), Payload::Flag(true), form, catalog);
}

#[test]
fn the_controls_draft_what_the_keys_draft() {
    let catalog = catalog();
    let mut form = CreationForm::new(&catalog);
    fighter(&mut form, &catalog);
    assert_eq!(form.spent(&catalog), 27);
    let action = apply(PanelId::Add, &Payload::Activate, &mut form, &catalog, 0);
    let Some(PanelAction::Creation(CreationAction::Add(draft))) = action else {
        panic!("no draft: {action:?} ({})", form.message);
    };
    assert_eq!(draft.name, "Brenna");
    assert_eq!(draft.race, "base:race:human");
    assert_eq!(draft.class, "base:class:fighter");
    assert_eq!(draft.scores, [15, 13, 14, 8, 12, 10]);
    assert_eq!(draft.skills.len(), 2);
    assert_eq!(draft, form.draft(&catalog));
}

#[test]
fn a_slider_and_a_number_input_buy_the_same_score_and_stay_inside_point_buy() {
    let catalog = catalog();
    let mut form = CreationForm::new(&catalog);
    // The slider at 12.4.
    act(PanelId::ScoreSlider(0), slide(12, 124), &mut form, &catalog);
    assert_eq!(form.scores[0], 12);
    act(PanelId::Score(0), Payload::Number(99), &mut form, &catalog);
    assert_eq!(form.scores[0], catalog.max);
    act(PanelId::Score(0), Payload::Number(-4), &mut form, &catalog);
    assert_eq!(form.scores[0], catalog.min);
    act(PanelId::ScoreSlider(0), not_a_number(), &mut form, &catalog);
    assert_eq!(form.scores[0], catalog.min, "not a number is refused");
    act(PanelId::Score(6), Payload::Number(12), &mut form, &catalog);
    assert_eq!(form.scores, [catalog.min; 6], "there is no seventh ability");
}

#[test]
fn the_panel_refuses_what_the_canvas_screen_refuses() {
    let catalog = catalog();
    let mut form = CreationForm::new(&catalog);
    let add = |form: &mut CreationForm, members| apply(PanelId::Add, &Payload::Activate, form, &catalog, members);
    assert_eq!(add(&mut form, 0), None);
    assert_eq!(form.message, "Give the character a name");
    fighter(&mut form, &catalog);
    assert_eq!(add(&mut form, catalog.slots), None);
    assert_eq!(form.message, "The party is full");
    act(PanelId::Skill(2), Payload::Flag(true), &mut form, &catalog);
    assert_eq!(form.skills.len(), 2, "a third pick is refused");
    assert_eq!(form.message, "This class picks 2 skills");
    act(PanelId::Skill(0), Payload::Flag(false), &mut form, &catalog);
    assert_eq!(add(&mut form, 0), None);
    assert_eq!(form.message, "Pick 2 skills");
    act(PanelId::Skill(0), Payload::Flag(true), &mut form, &catalog);
    act(PanelId::Score(3), Payload::Number(15), &mut form, &catalog);
    assert_eq!(add(&mut form, 0), None);
    assert_eq!(form.message, "36 points spent of 27");
    let begin = apply(PanelId::Begin, &Payload::Activate, &mut form, &catalog, 0);
    assert_eq!(begin, None);
    assert_eq!(form.message, "Add at least one member");
    let long = "x".repeat(40);
    act(PanelId::Name, Payload::Text(long), &mut form, &catalog);
    assert_eq!(form.name.len(), 24, "the 25th character is cut");
}

#[test]
fn a_report_that_changes_nothing_changes_nothing() {
    let catalog = catalog();
    let mut form = CreationForm::new(&catalog);
    fighter(&mut form, &catalog);
    form.message = "kept".to_owned();
    let before = form.clone();
    // What a text or number input sends when it loses focus, and a checkbox's echo.
    act(PanelId::Name, Payload::Text("Brenna".into()), &mut form, &catalog);
    act(PanelId::Score(0), Payload::Number(15), &mut form, &catalog);
    // The slider at 15.0.
    act(PanelId::ScoreSlider(0), slide(15, 150), &mut form, &catalog);
    act(PanelId::Skill(0), Payload::Flag(true), &mut form, &catalog);
    act(PanelId::Skill(40), Payload::Flag(true), &mut form, &catalog);
    act(PanelId::Pick(Choice::Class, 99), Payload::Activate, &mut form, &catalog);
    act(PanelId::Pick(Choice::Class, form.class), Payload::Activate, &mut form, &catalog);
    act(PanelId::Menu(Choice::Race), Payload::Activate, &mut form, &catalog);
    assert_eq!(form, before, "the skills survive choosing the same class");
}

#[test]
fn the_shell_controls_answer_without_touching_the_form() {
    let catalog = catalog();
    let mut form = CreationForm::new(&catalog);
    let before = form.clone();
    let mut ask = |id, payload| apply(id, &payload, &mut form, &catalog, 1);
    assert_eq!(ask(PanelId::FontPick(2), Payload::Activate), Some(PanelAction::Font(2)));
    // The scale slider at 1.54 and at 9.0.
    assert_eq!(ask(PanelId::UiScale, slide(2, 15)), Some(PanelAction::UiScale(15)));
    assert_eq!(ask(PanelId::UiScale, slide(9, 90)), Some(PanelAction::UiScale(30)));
    assert_eq!(ask(PanelId::UiScale, not_a_number()), None);
    assert_eq!(
        ask(PanelId::Back, Payload::Activate),
        Some(PanelAction::Creation(CreationAction::Back))
    );
    assert_eq!(
        ask(PanelId::Begin, Payload::Activate),
        Some(PanelAction::Creation(CreationAction::Begin))
    );
    assert_eq!(form, before);
}

#[test]
fn the_labels_and_the_shape_follow_the_form() {
    let catalog = catalog();
    let mut form = CreationForm::new(&catalog);
    let labels = text(&form, &catalog, 2);
    assert_eq!(labels.heading, "2 of 6 members");
    assert_eq!(labels.scores[0], ("STR".to_owned(), "cost 0".to_owned()));
    assert_eq!(labels.points, "Points left: 27 of 27");
    assert_eq!(Choice::Alignment.options(&catalog).len(), 9);
    assert_eq!(Choice::Race.options(&catalog)[0], "Dwarf (hill dwarf)");

    let roster = vec!["Brenna".to_owned()];
    let before = shape(&form, &catalog, &roster);
    act(PanelId::Score(0), Payload::Number(15), &mut form, &catalog);
    assert_eq!(shape(&form, &catalog, &roster), before, "a value is not a shape");
    assert_eq!(text(&form, &catalog, 2).scores[0].1, "cost 9");
    let other = (form.class + 1) % catalog.classes.len();
    act(PanelId::Pick(Choice::Class, other), Payload::Activate, &mut form, &catalog);
    assert_ne!(shape(&form, &catalog, &roster), before, "another skill list");
    assert_ne!(shape(&form, &catalog, &[]), shape(&form, &catalog, &roster));
}

#[test]
fn the_options_and_the_current_index_follow_the_catalog() {
    let catalog = catalog();
    let mut form = CreationForm::new(&catalog);
    assert_eq!(Choice::Alignment.options(&catalog)[4], "Neutral");
    assert_eq!(Choice::Class.options(&catalog)[1], "Fighter");
    assert_eq!(Choice::Class.options(&catalog)[0], "base:class:cleric");
    form.alignment = 12;
    assert_eq!(Choice::Alignment.current(&form), 3);
    form.set_background(1, &catalog);
    assert_eq!(Choice::Background.current(&form), 1);
    let labels = text(&form, &catalog, 0);
    assert_eq!(labels.skills, "Skills (pick 2)");
    assert_eq!(labels.message, "");
}
