//! The whole frame: how a click turns into the keys the menu models already understand.

use vstd::prelude::*;
use crate::combat_menu::{CombatMenu, DefeatMenu, EncounterMenu, FightView};
use crate::creation_menu::{Catalog, CreationForm, ROW_SKILLS};
use crate::debug_menu::{DebugMenu, DebugView};
use crate::menu::{MenuKey, NewGameForm, Pause, Settings, Title};
use crate::spell_menu::{CastMenu, CastRow};
use crate::widget::{Hit, Kind, Part, WidgetId};

verus! {

/// The menu model a click lands on.
pub enum Target<'a> {
    /// The title screen.
    Title(&'a mut Title),
    /// The new game form.
    NewGame(&'a mut NewGameForm),
    /// The creation form.
    Creation(&'a mut CreationForm),
    /// The pause overlay.
    Pause(&'a mut Pause),
    /// The choice before a fight.
    Encounter(&'a mut EncounterMenu),
    /// The fight.
    Combat(&'a mut CombatMenu),
    /// The modal after a wipe.
    Defeat(&'a mut DefeatMenu),
    /// The debug menu.
    Debug(&'a mut DebugMenu),
    /// The cast menu while exploring.
    Cast(&'a mut CastMenu),
}

/// The key a part of a row stands for: an arrow of a choice steps it, a button or a toggle
/// confirms, a choice's body and a text field only take the focus.
pub open spec fn spec_part_keys(hit: Hit) -> Seq<MenuKey> {
    match (hit.kind, hit.part) {
        (Kind::Choice, Part::Left) => seq![MenuKey::Left],
        (Kind::Choice, Part::Right) => seq![MenuKey::Right],
        (Kind::Button, _) | (Kind::Toggle, _) => seq![MenuKey::Enter],
        _ => Seq::empty(),
    }
}

fn part_keys(hit: Hit) -> (r: Vec<MenuKey>)
    ensures
        r@ == spec_part_keys(hit),
{
    match (hit.kind, hit.part) {
        (Kind::Choice, Part::Left) => vec![MenuKey::Left],
        (Kind::Choice, Part::Right) => vec![MenuKey::Right],
        (Kind::Button, _) | (Kind::Toggle, _) => vec![MenuKey::Enter],
        _ => Vec::new(),
    }
}

/// The target a stack row click picks: its index, held inside the target's range.
pub open spec fn spec_stack_target(index: usize) -> u8 {
    if index <= 255 {
        index as u8
    } else {
        255
    }
}

/// Turn a click into keys for the model: move its cursor to the clicked row, then the key
/// the part stands for. A text field click only takes the focus; a stack row click only
/// picks the target; a skill pick moves the creation form onto it and toggles it; an action
/// button moves the fight's cursor onto it and confirms. A click the model has no row for
/// changes nothing and gives no keys.
pub fn click(target: Target<'_>, hit: Hit) -> (r: Vec<MenuKey>)
    ensures
        match target {
            Target::Title(m) => match hit.id {
                WidgetId::Row(row) => *final(m) == (Title { cursor: row }) && r@ == spec_part_keys(hit),
                _ => *final(m) == *m && r@ == Seq::<MenuKey>::empty(),
            },
            Target::NewGame(m) => match hit.id {
                WidgetId::Row(row) => *final(m) == (NewGameForm { cursor: row, ..*m }) && r@ == spec_part_keys(hit),
                _ => *final(m) == *m && r@ == Seq::<MenuKey>::empty(),
            },
            Target::Creation(m) => match hit.id {
                WidgetId::Row(row) => *final(m) == (CreationForm { cursor: row, ..*m }) && r@ == spec_part_keys(hit),
                WidgetId::Skill(index) => {
                    &&& *final(m) == (CreationForm { cursor: ROW_SKILLS, skill_cursor: index, ..*m })
                    &&& r@ == seq![MenuKey::Enter]
                },
                _ => *final(m) == *m && r@ == Seq::<MenuKey>::empty(),
            },
            Target::Pause(m) => match hit.id {
                WidgetId::Row(row) => *final(m) == (Pause { cursor: row }) && r@ == spec_part_keys(hit),
                _ => *final(m) == *m && r@ == Seq::<MenuKey>::empty(),
            },
            Target::Encounter(m) => match hit.id {
                WidgetId::Action(index) => *final(m) == (EncounterMenu { cursor: index, ..*m }) && r@ == seq![
                    MenuKey::Enter,
                ],
                _ => *final(m) == *m && r@ == Seq::<MenuKey>::empty(),
            },
            Target::Combat(m) => match hit.id {
                WidgetId::Stack(index) => {
                    &&& *final(m) == (CombatMenu { target: spec_stack_target(index), ..*m })
                    &&& r@ == Seq::<MenuKey>::empty()
                },
                WidgetId::Action(index) => *final(m) == (CombatMenu { cursor: index, ..*m }) && r@ == seq![
                    MenuKey::Enter,
                ],
                _ => *final(m) == *m && r@ == Seq::<MenuKey>::empty(),
            },
            Target::Defeat(m) => match hit.id {
                WidgetId::Row(row) => *final(m) == (DefeatMenu { cursor: row }) && r@ == spec_part_keys(hit),
                _ => *final(m) == *m && r@ == Seq::<MenuKey>::empty(),
            },
            Target::Debug(m) => match hit.id {
                WidgetId::Row(row) => r@ == spec_part_keys(hit) && if m.row != row {
                    *final(m) == (DebugMenu { row, field: 0, ..*m })
                } else {
                    *final(m) == *m
                },
                _ => *final(m) == *m && r@ == Seq::<MenuKey>::empty(),
            },
            Target::Cast(m) => match hit.id {
                WidgetId::Row(row) => *final(m) == (CastMenu { cursor: row, ..*m }) && r@ == spec_part_keys(hit),
                _ => *final(m) == *m && r@ == Seq::<MenuKey>::empty(),
            },
        },
{
    let row = match hit.id {
        WidgetId::Row(row) => row,
        WidgetId::Skill(index) => {
            match target {
                Target::Creation(form) => {
                    form.cursor = ROW_SKILLS;
                    form.skill_cursor = index;
                    return vec![MenuKey::Enter];
                },
                _ => {
                    return Vec::new();
                },
            }
        },
        WidgetId::Stack(index) => {
            match target {
                Target::Combat(menu) => {
                    menu.target = if index <= 255 {
                        index as u8
                    } else {
                        255
                    };
                },
                _ => {},
            }
            return Vec::new();
        },
        WidgetId::Action(index) => {
            match target {
                Target::Combat(menu) => {
                    menu.cursor = index;
                },
                Target::Encounter(menu) => {
                    menu.cursor = index;
                },
                _ => {
                    return Vec::new();
                },
            }
            return vec![MenuKey::Enter];
        },
        _ => {
            return Vec::new();
        },
    };
    match target {
        Target::Title(title) => title.cursor = row,
        Target::NewGame(form) => form.cursor = row,
        Target::Creation(form) => form.cursor = row,
        Target::Pause(pause) => pause.cursor = row,
        Target::Defeat(menu) => menu.cursor = row,
        Target::Debug(menu) => {
            if menu.row != row {
                menu.row = row;
                menu.field = 0;
            }
        },
        Target::Cast(menu) => menu.cursor = row,
        Target::Encounter(_) | Target::Combat(_) => {
            return Vec::new();
        },
    }
    part_keys(hit)
}

/// Which menu is up.
pub enum Menu<'a> {
    /// No menu: the world shows through.
    Clear,
    /// The title.
    Title(&'a Title),
    /// The new game form.
    NewGame(&'a NewGameForm),
    /// The creation form, with what it chooses from and how many members exist.
    Creation {
        /// The form.
        form: &'a CreationForm,
        /// The catalog.
        catalog: &'a Catalog,
        /// Members so far.
        members: usize,
    },
    /// The pause overlay with the settings it shows.
    Pause {
        /// The overlay.
        pause: &'a Pause,
        /// The game's settings.
        settings: Settings,
        /// The world seed.
        seed: u64,
    },
    /// The choice before a fight, over the scene.
    Encounter {
        /// The menu.
        menu: &'a EncounterMenu,
        /// The view.
        view: &'a FightView,
    },
    /// The fight, over the scene.
    Combat {
        /// The menu.
        menu: &'a CombatMenu,
        /// The view.
        view: &'a FightView,
    },
    /// The modal after a wipe, over the scene, with the roll log's tail.
    Defeat {
        /// The menu.
        menu: &'a DefeatMenu,
        /// The roll log, oldest first.
        log: &'a [String],
    },
    /// The debug menu.
    Debug {
        /// The menu.
        menu: &'a DebugMenu,
        /// What it edits.
        view: &'a DebugView,
    },
    /// The cast menu while exploring.
    Cast {
        /// The menu.
        menu: &'a CastMenu,
        /// The spells it lists.
        rows: &'a [CastRow],
    },
}

impl Menu<'_> {
    /// Whether the menu hides the whole viewport; the fight screens and the defeat modal
    /// leave the scene visible.
    pub fn covers_viewport(&self) -> (r: bool)
        ensures
            r == !(self is Clear || self is Encounter || self is Combat || self is Defeat),
    {
        match self {
            Menu::Clear | Menu::Encounter { .. } | Menu::Combat { .. } | Menu::Defeat { .. } => false,
            _ => true,
        }
    }
}

} // verus!
