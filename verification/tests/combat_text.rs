use omnis_app::combat_text::{
    batch_lines, roll_math, trace_math, wound_line, ActorRef, CheckKind, CombatEvent,
    CombatOutcome, DamageAdjust, DeathSaveResult, EffectEnd, EffectTarget, Names, Roll,
    RollMode, RollTrace, Surprise,
};
use omnis_app::spell_text::spell_line;
use omnis_app::text::{LONG_CELLS, SHORT_CELLS};

fn trace(dice: &str, modifier: i64, values: &[u32]) -> RollTrace {
    let sum: i64 = values.iter().map(|v| i64::from(*v)).sum();
    RollTrace {
        dice: dice.to_owned(),
        rolls: values.to_vec(),
        total: sum + modifier,
    }
}

fn d20(mode: RollMode, values: &[u32], face: u32, modifier: i32, proficiency: i32) -> Roll {
    let dice = if values.len() == 1 { "1d20" } else { "2d20" };
    Roll {
        trace: trace(dice, 0, values),
        mode,
        modifier,
        proficiency,
        total: i64::from(face) + i64::from(modifier) + i64::from(proficiency),
    }
}

/// Two members of the longest names the creation form allows and a stack of the longest
/// monster label the stack rows show, with no conditions known.
fn wide_names() -> Names {
    let mut names = Names::default();
    names
        .members
        .push((0, "Brennagh-of-the-Long-Hall".to_owned()));
    names.members.push((1, "Gormundsson-the-Younger".to_owned()));
    names.stacks.push(("Ancient Red Dragon Wy".to_owned(), 3));
    names.stacks.push(("Goblin".to_owned(), 1));
    names
}

/// A line fits its cell limit and starts with what matters.
fn clipped(text: &str, cells: usize, prefix: &str) {
    assert!(text.chars().count() <= cells, "{text}");
    assert!(text.starts_with(prefix), "{text}");
}

#[test]
fn a_line_past_the_budget_is_cut_at_it() {
    let names = wide_names();
    let order: Vec<(ActorRef, i64)> = (0..6)
        .map(|i| {
            let actor = if i % 2 == 0 {
                ActorRef::Member(0)
            } else {
                ActorRef::Stack(0)
            };
            (actor, 20 - i)
        })
        .collect();
    let lines = batch_lines(&[CombatEvent::Initiative { order }], &names);
    assert_eq!(
        lines[0].long.chars().count(),
        LONG_CELLS,
        "{}",
        lines[0].long
    );
    assert_eq!(lines[0].short.chars().count(), SHORT_CELLS);
    assert!(lines[0]
        .long
        .starts_with("Initiative: Brennagh-of-the-Long-Hall"));
}

#[test]
fn names_follow_ids_and_stack_counts() {
    let names = wide_names();
    assert_eq!(names.member(1), "Gormundsson-the-Younger");
    assert_eq!(names.member(9), "?");
    assert_eq!(names.actor(&ActorRef::Stack(0)), "Ancient Red Dragon Wys");
    assert_eq!(names.actor(&ActorRef::Stack(1)), "Goblin");
    assert_eq!(names.actor(&ActorRef::Stack(2)), "Stack 2");
    assert_eq!(
        names.actor(&ActorRef::Monster { stack: 0, index: 2 }),
        "Ancient Red Dragon Wy 3"
    );
    assert_eq!(
        names.actor(&ActorRef::Monster { stack: 1, index: 0 }),
        "Goblin"
    );
}

fn attack_events() -> Vec<CombatEvent> {
    vec![
        CombatEvent::AttackResolved {
            attacker: ActorRef::Monster { stack: 1, index: 0 },
            target: ActorRef::Member(0),
            roll: d20(RollMode::Normal, &[17], 17, 4, 0),
            ac: 16,
            hit: true,
            crit: false,
        },
        CombatEvent::Damage {
            target: ActorRef::Member(0),
            kind: "Slashing".to_owned(),
            rolls: vec![trace("1d6+2", 2, &[3])],
            amount: 5,
            adjust: DamageAdjust::Full,
        },
        CombatEvent::AttackResolved {
            attacker: ActorRef::Member(1),
            target: ActorRef::Monster { stack: 0, index: 1 },
            roll: d20(RollMode::Disadvantage, &[19, 2], 2, 3, 2),
            ac: 19,
            hit: false,
            crit: false,
        },
        CombatEvent::AttackResolved {
            attacker: ActorRef::Member(0),
            target: ActorRef::Monster { stack: 1, index: 0 },
            roll: d20(RollMode::Advantage, &[20, 5], 20, 3, 2),
            ac: 15,
            hit: true,
            crit: true,
        },
        CombatEvent::Damage {
            target: ActorRef::Monster { stack: 1, index: 0 },
            kind: "Bludgeoning".to_owned(),
            rolls: vec![trace("1d8", 0, &[6]), trace("1d8", 0, &[2])],
            amount: 22,
            adjust: DamageAdjust::Vulnerable,
        },
    ]
}

#[test]
fn an_attack_and_its_damage_make_one_line_with_the_math() {
    let events = attack_events();
    let lines = batch_lines(&events, &wide_names());
    assert_eq!(lines.len(), 3, "damage folds into its attack");
    clipped(
        &lines[0].long,
        LONG_CELLS,
        "Goblin hits Brennagh-of-the-Long-Hall for 5 (1d20+4",
    );
    clipped(
        &lines[0].short,
        SHORT_CELLS,
        "Goblin hits Brennagh-of-the-Long-Hall",
    );
    clipped(
        &lines[1].long,
        LONG_CELLS,
        "Gormundsson-the-Younger misses Ancient Red Dragon Wy",
    );
    clipped(
        &lines[2].short,
        SHORT_CELLS,
        "Brennagh-of-the-Long-Hall crits Goblin",
    );
}

#[test]
fn short_names_show_the_whole_math() {
    let events = attack_events();
    let mut names = Names::default();
    names.members.push((0, "Brenna".to_owned()));
    names.members.push((1, "Gorm".to_owned()));
    names.stacks.push(("Wyrm".to_owned(), 2));
    names.stacks.push(("Goblin".to_owned(), 1));
    let lines = batch_lines(&events, &names);
    assert_eq!(
        lines[0].long,
        "Goblin hits Brenna for 5 (1d20+4 [17]=21 vs AC 16)"
    );
    assert_eq!(lines[0].short, "Goblin hits Brenna for 5");
    assert_eq!(
        lines[1].long,
        "Gorm misses Wyrm 2 (2d20 dis+5 [19, 2]=7 vs AC 19)"
    );
    assert_eq!(lines[1].short, "Gorm misses Wyrm 2");
    clipped(
        &lines[2].long,
        LONG_CELLS,
        "Brenna crits Goblin for 22 (doubled) (2d20 adv+5 [20",
    );
    assert_eq!(lines[2].short, "Brenna crits Goblin for 22 (doubled)");
    let alone = batch_lines(&events[4..], &names);
    clipped(
        &alone[0].long,
        LONG_CELLS,
        "Goblin takes 22 bludgeoning (doubled) (1d8 [6]=6 +",
    );
    assert_eq!(alone[0].short, "Goblin takes 22 bludgeoning (doubled)");
    let miss_then_damage = [events[2].clone(), events[4].clone()];
    assert_eq!(
        batch_lines(&miss_then_damage, &names).len(),
        2,
        "damage after a miss is not the miss's damage"
    );
}

/// Every event of the encounter phase, then of the fight, with the silent ones among them.
fn arm_events() -> Vec<CombatEvent> {
    [encounter_arm_events(), fight_arm_events()].concat()
}

fn encounter_arm_events() -> Vec<CombatEvent> {
    vec![
        CombatEvent::EncounterStarted {
            stacks: vec![3, 1],
            disposition: "Wary".to_owned(),
            stealth: Some(d20(RollMode::Normal, &[14], 14, 2, 0)),
            perception: 13,
            noticed: false,
        },
        CombatEvent::Check {
            actor: ActorRef::Member(0),
            kind: CheckKind::Hide,
            roll: Some(d20(RollMode::Normal, &[12], 12, 3, 2)),
            dc: 14,
            success: true,
        },
        CombatEvent::Check {
            actor: ActorRef::Member(0),
            kind: CheckKind::Run,
            roll: None,
            dc: 0,
            success: true,
        },
        CombatEvent::Bribed { cost: 9999 },
    ]
}

fn fight_arm_events() -> Vec<CombatEvent> {
    let me = 0;
    let dragon = ActorRef::Monster { stack: 0, index: 2 };
    vec![
        CombatEvent::CombatStarted {
            surprised: Surprise::Party,
        },
        CombatEvent::Initiative {
            order: vec![
                (ActorRef::Member(me), 18),
                (ActorRef::Stack(0), 15),
                (ActorRef::Member(1), 12),
            ],
        },
        CombatEvent::RoundStarted { round: 999 },
        // The two turns and the encounter check.
        CombatEvent::Other,
        CombatEvent::Other,
        CombatEvent::Other,
        CombatEvent::Waited {
            actor: ActorRef::Stack(0),
        },
        CombatEvent::Dodging {
            actor: ActorRef::Member(me),
        },
        CombatEvent::Exchanged { a: 0, b: 3 },
        CombatEvent::Down { target: me },
        CombatEvent::Wounded {
            member: me,
            failures: 2,
        },
        CombatEvent::DeathSave {
            member: me,
            roll: trace("1d20", 0, &[1]),
            result: DeathSaveResult::Failure,
            successes: 0,
            failures: 2,
        },
        CombatEvent::DeathSave {
            member: me,
            roll: trace("1d20", 0, &[20]),
            result: DeathSaveResult::Revived,
            successes: 0,
            failures: 0,
        },
        CombatEvent::Condition {
            target: ActorRef::Member(me),
            condition: 0,
            applied: true,
        },
        CombatEvent::Death {
            target: dragon,
            gold: Some(trace("2d4", 0, &[4, 4])),
        },
        CombatEvent::Death {
            target: ActorRef::Member(me),
            gold: None,
        },
        CombatEvent::CombatEnded {
            outcome: CombatOutcome::Victory,
            xp: 99999,
            gold: 99999,
            fallen: vec![me, 1],
        },
        CombatEvent::CombatEnded {
            outcome: CombatOutcome::Defeat,
            xp: 0,
            gold: 0,
            fallen: vec![],
        },
        // The party changed.
        CombatEvent::Other,
    ]
}

#[test]
fn every_arm_renders_within_its_cells() {
    let events = arm_events();
    let lines = batch_lines(&events, &wide_names());
    assert_eq!(
        lines.len(),
        events.len() - 4,
        "the turns, the encounter check, and PartyChanged are silent"
    );
    for line in &lines {
        assert!(line.long.chars().count() <= LONG_CELLS, "{}", line.long);
        assert!(line.short.chars().count() <= SHORT_CELLS, "{}", line.short);
        assert!(!line.short.is_empty());
        assert!(!line.long.ends_with(" to act"), "the header shows the turn");
    }
    clipped(
        &lines[0].short,
        SHORT_CELLS,
        "Ambush! 3 Ancient Red Dragon Wy, 1 Gob",
    );
    clipped(
        &lines[0].long,
        LONG_CELLS,
        "3 Ancient Red Dragon Wy, 1 Goblin, wary (stealth 1d",
    );
    clipped(
        &lines[1].long,
        LONG_CELLS,
        "Brennagh-of-the-Long-Hall hides: success (1d20+5",
    );
    clipped(
        &lines[2].long,
        LONG_CELLS,
        "Brennagh-of-the-Long-Hall runs: success (no roll",
    );
    assert_eq!(lines[3].long, "The party pays 9999 gold; they leave");
    assert_eq!(lines[4].long, "Ambush! The party is surprised");
    clipped(
        &lines[5].short,
        SHORT_CELLS,
        "Initiative: Brennagh-of-the-Long-Hall",
    );
    assert_eq!(lines[6].long, "Round 999");
    assert_eq!(lines[7].long, "Ancient Red Dragon Wys wait");
    assert_eq!(lines[8].long, "Brennagh-of-the-Long-Hall dodges");
    assert_eq!(lines[9].long, "Slots 1 and 4 exchange");
    assert_eq!(lines[10].long, "Brennagh-of-the-Long-Hall falls");
    clipped(
        &lines[11].long,
        LONG_CELLS,
        "Brennagh-of-the-Long-Hall is wounded: 2 of 3 fail",
    );
    clipped(
        &lines[12].long,
        LONG_CELLS,
        "Brennagh-of-the-Long-Hall death save: failure 2/3",
    );
    clipped(
        &lines[13].short,
        SHORT_CELLS,
        "Brennagh-of-the-Long-Hall comes to at",
    );
    assert_eq!(lines[14].long, "Brennagh-of-the-Long-Hall is ?");
    clipped(
        &lines[15].long,
        LONG_CELLS,
        "Ancient Red Dragon Wy 3 dies, dropping 8 gold (2d4 [",
    );
    clipped(
        &lines[15].short,
        SHORT_CELLS,
        "Ancient Red Dragon Wy 3 dies, dropping",
    );
    assert_eq!(lines[16].long, "Brennagh-of-the-Long-Hall dies");
    clipped(
        &lines[17].long,
        LONG_CELLS,
        "Victory! 99999 XP each, 99999 gold; lost: Brennagh",
    );
    assert_eq!(lines[18].long, "The party has fallen");
}

fn spell_names() -> (Names, u32, u64) {
    let mut names = Names::default();
    names.members.push((7, "Durin".to_owned()));
    names.spells.push((3, "Bless".to_owned()));
    (names, 3, 7)
}

#[test]
fn spell_events_read_as_english() {
    let (names, bless, durin) = spell_names();
    let cast = CombatEvent::SpellCast {
        caster: durin,
        spell: bless,
        points: 1,
        components: 0,
    };
    assert_eq!(
        spell_line(&cast, &names).unwrap().long,
        "Durin casts Bless (1 pt)"
    );
    let settled = CombatEvent::EffectApplied {
        target: EffectTarget::Member(durin),
        spell: bless,
    };
    assert_eq!(
        spell_line(&settled, &names).unwrap().short,
        "Bless settles on Durin"
    );
    let faded = CombatEvent::EffectEnded {
        target: EffectTarget::Party,
        spell: bless,
        why: EffectEnd::Expired,
    };
    assert_eq!(
        spell_line(&faded, &names).unwrap().long,
        "Bless fades from the party"
    );
    let let_go = CombatEvent::Concentration {
        caster: durin,
        spell: bless,
    };
    assert_eq!(
        spell_line(&let_go, &names).unwrap().long,
        "Durin lets Bless go"
    );
    let auto = CombatEvent::AutoCast {
        member: durin,
        spell: bless,
        on: false,
    };
    assert_eq!(
        spell_line(&auto, &names).unwrap().long,
        "Durin will no longer cast Bless on their own"
    );
    let healed = CombatEvent::Healed {
        target: durin,
        rolls: vec![],
        amount: 7,
        hp: 12,
    };
    assert_eq!(
        spell_line(&healed, &names).unwrap().long,
        "Durin regains 7 hp, now 12"
    );
    assert!(spell_line(&CombatEvent::Other, &names).is_none());
    let lines = batch_lines(&[cast, settled], &names);
    assert_eq!(lines.len(), 2, "the batch renders spell events too");
}

#[test]
fn casts_count_points_and_components_and_healing_shows_its_dice() {
    let (names, bless, durin) = spell_names();
    let cast = CombatEvent::SpellCast {
        caster: durin,
        spell: bless,
        points: 3,
        components: 2,
    };
    assert_eq!(
        spell_line(&cast, &names).unwrap().long,
        "Durin casts Bless (3 pt, 2 component(s))"
    );
    let free = CombatEvent::SpellCast {
        caster: durin,
        spell: 9,
        points: 0,
        components: 0,
    };
    assert_eq!(spell_line(&free, &names).unwrap().long, "Durin casts ? (free)");
    let healed = CombatEvent::Healed {
        target: durin,
        rolls: vec![trace("1d8+3", 3, &[4]), trace("1d4", 0, &[2])],
        amount: 9,
        hp: 15,
    };
    let line = spell_line(&healed, &names).unwrap();
    assert_eq!(line.long, "Durin regains 9 hp, now 15 (1d8+3 [4]=7 1d4 [2]=2)");
    assert_eq!(line.short, "Durin regains 9 hp, now 15");
    let ends = [
        (EffectEnd::Consumed, "Bless is spent on Durin"),
        (EffectEnd::Concentration, "Bless leaves Durin"),
        (EffectEnd::TurnBegan, "Bless lapses on Durin"),
        (EffectEnd::FightOver, "Bless ends with the fight for Durin"),
    ];
    for (why, text) in ends {
        let ended = CombatEvent::EffectEnded {
            target: EffectTarget::Member(durin),
            spell: bless,
            why,
        };
        assert_eq!(spell_line(&ended, &names).unwrap().long, text);
    }
    let lit = CombatEvent::EffectApplied {
        target: EffectTarget::Party,
        spell: bless,
    };
    assert_eq!(
        spell_line(&lit, &names).unwrap().long,
        "Bless lights the party's way"
    );
}

#[test]
fn roll_and_trace_math_show_sign_faces_and_total() {
    assert_eq!(
        roll_math(&d20(RollMode::Normal, &[17], 17, 4, 0)),
        "1d20+4 [17]=21"
    );
    assert_eq!(
        roll_math(&d20(RollMode::Advantage, &[3, 17], 17, 0, 0)),
        "2d20 adv [3, 17]=17"
    );
    assert_eq!(
        roll_math(&d20(RollMode::Disadvantage, &[9, 4], 4, -2, 0)),
        "2d20 dis-2 [9, 4]=2"
    );
    assert_eq!(trace_math(&trace("1d6+2", 2, &[5])), "1d6+2 [5]=7");
    assert_eq!(trace_math(&trace("1d4", -3, &[1])), "1d4 [1]=-2");
}

#[test]
fn wounds_name_the_adjustment_and_the_end_names_the_fallen() {
    let names = wide_names();
    let resisted = CombatEvent::Damage {
        target: ActorRef::Stack(1),
        kind: "Fire".to_owned(),
        rolls: vec![trace("2d6", 0, &[3, 4])],
        amount: 3,
        adjust: DamageAdjust::Resisted,
    };
    let line = wound_line(&resisted, &names).unwrap();
    assert_eq!(line.long, "Goblin takes 3 fire (resisted) (2d6 [3, 4]=7)");
    assert_eq!(line.short, "Goblin takes 3 fire (resisted)");
    let fled = CombatEvent::CombatEnded {
        outcome: CombatOutcome::Fled,
        xp: 0,
        gold: 0,
        fallen: vec![1],
    };
    assert_eq!(
        wound_line(&fled, &names).unwrap().long,
        "The party gets away; lost: Gormundsson-the-Younger"
    );
    let stable = CombatEvent::DeathSave {
        member: 9,
        roll: trace("1d20", 0, &[15]),
        result: DeathSaveResult::Stable,
        successes: 3,
        failures: 1,
    };
    assert_eq!(
        wound_line(&stable, &names).unwrap().long,
        "? is stable (1d20 [15]=15)"
    );
    assert!(wound_line(&CombatEvent::Bribed { cost: 1 }, &names).is_none());
}

#[test]
fn members_are_remembered_after_they_leave_and_stacks_after_the_fight() {
    let members = vec![(0, "Brenna".to_owned()), (1, "Gorm".to_owned())];
    let stacks = vec![("Goblin".to_owned(), 2)];
    let conditions = vec![(0, "Poisoned".to_owned())];
    let mut names = Names::new(&members, Some(stacks.as_slice()), &conditions, &[]);
    assert_eq!(names.actor(&ActorRef::Monster { stack: 0, index: 1 }), "Goblin 2");
    let renamed = vec![(1, "Gormund".to_owned())];
    let other = vec![(0, "Sleeping".to_owned())];
    names.refresh(&renamed, None, &other, &[]);
    assert_eq!(names.member(0), "Brenna", "a member who left keeps a name");
    assert_eq!(names.member(1), "Gormund", "the latest name stands");
    assert_eq!(names.actor(&ActorRef::Stack(0)), "Goblins", "stacks outlive the fight");
    assert_eq!(names.condition(0), "Poisoned", "conditions are learned once");
    assert_eq!(names.spell(0), "?");
}
