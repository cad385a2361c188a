//! The encounter, combat, and defeat menus as pure state machines, and the view they read:
//! stack rows with labels, the acting member, the bribe price. Each menu takes a key and
//! answers with an intent; the caller feeds keys and applies intents.

use vstd::prelude::*;
use crate::actors::{Actor, Size};
use crate::menu::{MenuKey, cycle, spec_cycle};
use crate::text::{push_decimal, push_str, spec_decimal};

verus! {

/// One stack as the rows show it.
#[derive(Debug, Clone, PartialEq, Eq)]
pub struct StackRow {
    /// Its index in the encounter, the number `attack` takes.
    pub index: u8,
    /// The monster's name.
    pub name: String,
    /// How many still stand.
    pub count: u8,
    /// How many there were.
    pub initial: u8,
    /// The monster's size, for its silhouette.
    pub size: Size,
    /// Whether it stands in front.
    pub front: bool,
    /// Whether anyone in it still stands.
    pub alive: bool,
    /// Why the acting member cannot attack it, when they cannot.
    pub blocked: Option<String>,
}

impl StackRow {
    /// Whether the acting member can attack it, as the spec sees it.
    pub open spec fn spec_reachable(&self) -> bool {
        self.alive && self.blocked is None
    }

    /// Whether the acting member can attack it: it stands and nothing blocks it.
    pub fn reachable(&self) -> (r: bool)
        ensures
            r == self.spec_reachable(),
    {
        self.alive && self.blocked.is_none()
    }

    /// The word the row ends with: `slain`, `front`, or `back`.
    pub fn state(&self) -> (r: &'static str)
        ensures
            r@ == (if !self.alive {
                "slain"@
            } else if self.front {
                "front"@
            } else {
                "back"@
            }),
    {
        if !self.alive {
            "slain"
        } else if self.front {
            "front"
        } else {
            "back"
        }
    }
}

/// Where the party stands with the monsters: choosing before a fight, or fighting.
#[derive(Debug, Clone, Copy, PartialEq, Eq, Structural)]
pub enum FightPhase {
    /// The encounter, before the choice.
    Encounter,
    /// The fight.
    Combat,
}

/// The encounter or fight as the screens show it.
#[derive(Debug, Clone, PartialEq, Eq)]
pub struct FightView {
    /// `Encounter` before the choice, `Combat` during the fight.
    pub phase: FightPhase,
    /// The round, zero before the fight.
    pub round: u32,
    /// The acting member's slot.
    pub own: Option<usize>,
    /// The stacks, in encounter order.
    pub stacks: Vec<StackRow>,
    /// What a bribe costs; `None` when the rule cannot say.
    pub bribe: Option<u32>,
    /// The party's purse.
    pub gold: u32,
}

/// The indices of the stacks that still stand, in encounter order.
pub open spec fn spec_living(stacks: Seq<StackRow>) -> Seq<u8>
    decreases stacks.len(),
{
    if stacks.len() == 0 {
        Seq::empty()
    } else if stacks.last().alive {
        spec_living(stacks.drop_last()).push(stacks.last().index)
    } else {
        spec_living(stacks.drop_last())
    }
}

/// The first place of `x` in a sequence, if any.
pub open spec fn spec_position(s: Seq<u8>, x: u8) -> Option<int>
    decreases s.len(),
{
    if s.len() == 0 {
        None
    } else if s[0] == x {
        Some(0)
    } else {
        match spec_position(s.drop_first(), x) {
            Some(i) => Some(i + 1),
            None => None,
        }
    }
}

/// The first stack with this index, if any.
pub open spec fn spec_stack(stacks: Seq<StackRow>, index: u8) -> Option<StackRow>
    decreases stacks.len(),
{
    if stacks.len() == 0 {
        None
    } else if stacks[0].index == index {
        Some(stacks[0])
    } else {
        spec_stack(stacks.drop_first(), index)
    }
}

/// The bribe's label: `Bribe 12g`, `Bribe free`, or `Bribe` when the price is unknown.
pub open spec fn spec_bribe_label(bribe: Option<u32>) -> Seq<char> {
    match bribe {
        Some(cost) => if cost == 0 {
            "Bribe free"@
        } else {
            "Bribe "@ + spec_decimal(cost as int) + seq!['g']
        },
        None => "Bribe"@,
    }
}

proof fn lemma_position_skip(s: Seq<u8>, x: u8, i: int)
    requires
        0 <= i <= s.len(),
        forall|k: int| 0 <= k < i ==> s[k] != x,
    ensures
        spec_position(s, x) == (match spec_position(s.skip(i), x) {
            Some(j) => Some(j + i),
            None => None,
        }),
    decreases i,
{
    if i > 0 {
        lemma_position_skip(s.drop_first(), x, i - 1);
        assert(s.drop_first().skip(i - 1) =~= s.skip(i));
    } else {
        assert(s.skip(0) =~= s);
    }
}

proof fn lemma_stack_skip(s: Seq<StackRow>, index: u8, i: int)
    requires
        0 <= i <= s.len(),
        forall|k: int| 0 <= k < i ==> s[k].index != index,
    ensures
        spec_stack(s, index) == spec_stack(s.skip(i), index),
    decreases i,
{
    if i > 0 {
        lemma_stack_skip(s.drop_first(), index, i - 1);
        assert(s.drop_first().skip(i - 1) =~= s.skip(i));
    } else {
        assert(s.skip(0) =~= s);
    }
}

proof fn lemma_position_bound(s: Seq<u8>, x: u8)
    ensures
        spec_position(s, x) matches Some(i) ==> 0 <= i < s.len() && s[i] == x,
    decreases s.len(),
{
    if s.len() > 0 && s[0] != x {
        lemma_position_bound(s.drop_first(), x);
    }
}

/// The living stacks' indices.
fn living(stacks: &Vec<StackRow>) -> (r: Vec<u8>)
    ensures
        r@ == spec_living(stacks@),
{
    let mut out: Vec<u8> = Vec::new();
    let mut i: usize = 0;
    while i < stacks.len()
        invariant
            i <= stacks@.len(),
            out@ == spec_living(stacks@.take(i as int)),
        decreases stacks@.len() - i,
    {
        proof {
            assert(stacks@.take(i + 1).drop_last() =~= stacks@.take(i as int));
        }
        if stacks[i].alive {
            out.push(stacks[i].index);
        }
        i = i + 1;
    }
    proof {
        assert(stacks@.take(stacks@.len() as int) =~= stacks@);
    }
    out
}

/// The first place of a value.
fn position(s: &Vec<u8>, x: u8) -> (r: Option<usize>)
    ensures
        match r {
            Some(i) => spec_position(s@, x) == Some(i as int),
            None => spec_position(s@, x) is None,
        },
{
    let mut i: usize = 0;
    while i < s.len()
        invariant
            i <= s@.len(),
            forall|k: int| 0 <= k < i ==> s@[k] != x,
        decreases s@.len() - i,
    {
        if s[i] == x {
            proof {
                lemma_position_skip(s@, x, i as int);
                assert(s@.skip(i as int)[0] == x);
            }
            return Some(i);
        }
        i = i + 1;
    }
    proof {
        lemma_position_skip(s@, x, s@.len() as int);
        assert(s@.skip(s@.len() as int).len() == 0);
    }
    None
}

/// The place of the first stack with this index.
fn find_stack(stacks: &Vec<StackRow>, index: u8) -> (r: Option<usize>)
    ensures
        match r {
            Some(i) => i < stacks@.len() && spec_stack(stacks@, index) == Some(stacks@[i as int]),
            None => spec_stack(stacks@, index) is None,
        },
{
    let mut i: usize = 0;
    while i < stacks.len()
        invariant
            i <= stacks@.len(),
            forall|k: int| 0 <= k < i ==> stacks@[k].index != index,
        decreases stacks@.len() - i,
    {
        if stacks[i].index == index {
            proof {
                lemma_stack_skip(stacks@, index, i as int);
            }
            return Some(i);
        }
        i = i + 1;
    }
    proof {
        lemma_stack_skip(stacks@, index, stacks@.len() as int);
    }
    None
}

impl FightView {
    /// Whether the party can pay the bribe: a known price no more than the purse.
    pub open spec fn spec_bribe_allowed(&self) -> bool {
        match self.bribe {
            Some(cost) => cost <= self.gold,
            None => false,
        }
    }

    /// Whether the party can pay the bribe.
    pub fn bribe_allowed(&self) -> (r: bool)
        ensures
            r == self.spec_bribe_allowed(),
    {
        match self.bribe {
            Some(cost) => cost <= self.gold,
            None => false,
        }
    }

    /// The bribe button's text: `Bribe 12g`, or `Bribe free`.
    pub fn bribe_label(&self) -> (r: String)
        ensures
            r@ == spec_bribe_label(self.bribe),
    {
        proof {
            reveal_strlit("Bribe free");
            reveal_strlit("Bribe ");
            reveal_strlit("Bribe");
            reveal_strlit("g");
        }
        match self.bribe {
            Some(0) => "Bribe free".to_owned(),
            Some(cost) => {
                let mut s = "Bribe ".to_owned();
                push_decimal(&mut s, cost as i64);
                push_str(&mut s, "g");
                s
            },
            None => "Bribe".to_owned(),
        }
    }

    /// The living stacks as the silhouettes need them, in encounter order.
    pub fn actors(&self) -> (r: Vec<Actor>)
        ensures
            r@.len() == spec_living(self.stacks@).len(),
            forall|i: int|
                0 <= i < r@.len() ==> #[trigger] r@[i].index == spec_living(self.stacks@)[i],
    {
        let mut out: Vec<Actor> = Vec::new();
        let mut i: usize = 0;
        while i < self.stacks.len()
            invariant
                i <= self.stacks@.len(),
                out@.len() == spec_living(self.stacks@.take(i as int)).len(),
                forall|k: int|
                    0 <= k < out@.len() ==> #[trigger] out@[k].index == spec_living(
                        self.stacks@.take(i as int),
                    )[k],
            decreases self.stacks@.len() - i,
        {
            proof {
                assert(self.stacks@.take(i + 1).drop_last() =~= self.stacks@.take(i as int));
            }
            let s = &self.stacks[i];
            if s.alive {
                out.push(Actor { index: s.index, size: s.size, front: s.front });
            }
            i = i + 1;
        }
        proof {
            assert(self.stacks@.take(self.stacks@.len() as int) =~= self.stacks@);
        }
        out
    }
}

// ---------------------------------------------------------------- combat

/// A command for the acting member.
#[derive(Debug, Clone, Copy, PartialEq, Eq, Structural)]
pub enum CombatCommand {
    /// Attack a stack.
    Attack {
        /// The stack's index.
        stack: u8,
    },
    /// Dodge until the member's next turn.
    Dodge,
    /// Swap places with another member.
    Exchange {
        /// The other member's slot.
        with: u8,
    },
    /// Try to flee the fight.
    Run,
}

/// What the combat menu asks for.
#[derive(Debug, Clone, Copy, PartialEq, Eq, Structural)]
pub enum CombatIntent {
    /// A command for the acting member.
    Command(CombatCommand),
    /// Open the pause overlay.
    Pause,
}

/// The fight's action row and target: Up/Down choose the action, Left/Right the stack, Enter
/// confirms, `a d e r` are hotkeys, Escape pauses.
#[derive(Debug, Clone, Default, PartialEq, Eq)]
pub struct CombatMenu {
    /// The action under the cursor.
    pub cursor: usize,
    /// The stack an attack goes to.
    pub target: u8,
    /// Why the last confirmation did nothing; empty when it did something.
    pub message: String,
}

/// The fight's actions, in cursor order.
pub const COMBAT_ACTIONS: [&'static str; 4] = ["Attack", "Dodge", "Exchange", "Run"];
/// The fight's hotkeys, in the same order.
pub const COMBAT_HOTKEYS: [char; 4] = ['a', 'd', 'e', 'r'];

/// The place of a hotkey among four, if it is one.
pub open spec fn spec_hotkey(keys: [char; 4], c: char) -> Option<int> {
    if keys[0] == c {
        Some(0)
    } else if keys[1] == c {
        Some(1)
    } else if keys[2] == c {
        Some(2)
    } else if keys[3] == c {
        Some(3)
    } else {
        None
    }
}

fn hotkey(keys: [char; 4], c: char) -> (r: Option<usize>)
    ensures
        match r {
            Some(i) => spec_hotkey(keys, c) == Some(i as int),
            None => spec_hotkey(keys, c) is None,
        },
{
    if keys[0] == c {
        Some(0)
    } else if keys[1] == c {
        Some(1)
    } else if keys[2] == c {
        Some(2)
    } else if keys[3] == c {
        Some(3)
    } else {
        None
    }
}

/// The target after a step: the living stack beside the current one, round the living
/// ones; the first living one's neighbour when the target fell; unchanged with none living.
pub open spec fn spec_step_target(stacks: Seq<StackRow>, target: u8, key: MenuKey) -> u8 {
    let living = spec_living(stacks);
    let at = match spec_position(living, target) {
        Some(i) => i,
        None => 0,
    };
    let next = spec_cycle(at, living.len() as int, key);
    if 0 <= next < living.len() {
        living[next]
    } else {
        target
    }
}

/// The target kept on a living stack: the first living one when the target fell.
pub open spec fn spec_sync_target(stacks: Seq<StackRow>, target: u8) -> u8 {
    let living = spec_living(stacks);
    if spec_position(living, target) is None && living.len() > 0 {
        living[0]
    } else {
        target
    }
}

/// What confirming an action gives: the intent and the message left.
pub open spec fn spec_confirm(view: FightView, cursor: int, target: u8, selected: Option<usize>) -> (
    Option<CombatIntent>,
    Seq<char>,
) {
    if cursor == 0 {
        match spec_stack(view.stacks@, target) {
            Some(row) => if row.spec_reachable() {
                (Some(CombatIntent::Command(CombatCommand::Attack { stack: row.index })), Seq::empty())
            } else if !row.alive {
                (None, row.name@ + " are slain"@)
            } else {
                (
                    None,
                    match row.blocked {
                        Some(b) => b@,
                        None => Seq::empty(),
                    },
                )
            },
            None => (None, "Nothing to attack"@),
        }
    } else if cursor == 1 {
        (Some(CombatIntent::Command(CombatCommand::Dodge)), Seq::empty())
    } else if cursor == 2 {
        match selected {
            Some(with) => match view.own {
                Some(own) if with != own => (
                    Some(
                        CombatIntent::Command(
                            CombatCommand::Exchange { with: if with > 255 { 255 } else { with as u8 } },
                        ),
                    ),
                    Seq::empty(),
                ),
                _ => (None, "Select another member to exchange with"@),
            },
            None => (None, "Select a member to exchange with"@),
        }
    } else {
        (Some(CombatIntent::Command(CombatCommand::Run)), Seq::empty())
    }
}

impl CombatMenu {
    /// Keep the target on a living stack: the first one when the current target fell.
    pub fn sync(&mut self, view: &FightView)
        ensures
            final(self).target == spec_sync_target(view.stacks@, old(self).target),
            final(self).cursor == old(self).cursor,
            final(self).message == old(self).message,
    {
        let living = living(&view.stacks);
        if position(&living, self.target).is_none() && living.len() > 0 {
            self.target = living[0];
        }
    }

    fn step_target(&mut self, view: &FightView, key: MenuKey)
        ensures
            final(self).target == spec_step_target(view.stacks@, old(self).target, key),
            final(self).cursor == old(self).cursor,
            final(self).message == old(self).message,
    {
        let living = living(&view.stacks);
        let at = match position(&living, self.target) {
            Some(i) => i,
            None => 0,
        };
        proof {
            lemma_position_bound(living@, self.target);
        }
        let next = cycle(at, living.len(), key);
        if next < living.len() {
            self.target = living[next];
        }
    }

    fn confirm(&mut self, view: &FightView, selected: Option<usize>) -> (r: Option<CombatIntent>)
        ensures
            (r, final(self).message@) == spec_confirm(*view, old(self).cursor as int, old(self).target, selected),
            final(self).cursor == old(self).cursor,
            final(self).target == old(self).target,
    {
        self.message = String::new();
        proof {
            reveal_strlit(" are slain");
            reveal_strlit("Nothing to attack");
            reveal_strlit("Select another member to exchange with");
            reveal_strlit("Select a member to exchange with");
        }
        let command = match self.cursor {
            0 => {
                match find_stack(&view.stacks, self.target) {
                    Some(i) => {
                        let row = &view.stacks[i];
                        if row.reachable() {
                            CombatCommand::Attack { stack: row.index }
                        } else if !row.alive {
                            let mut m = row.name.clone();
                            push_str(&mut m, " are slain");
                            self.message = m;
                            return None;
                        } else {
                            self.message = match &row.blocked {
                                Some(b) => b.clone(),
                                None => String::new(),
                            };
                            return None;
                        }
                    },
                    None => {
                        self.message = "Nothing to attack".to_owned();
                        return None;
                    },
                }
            },
            1 => CombatCommand::Dodge,
            2 => match selected {
                Some(with) => match view.own {
                    Some(own) if with != own => CombatCommand::Exchange {
                        with: if with > 255 {
                            255
                        } else {
                            with as u8
                        },
                    },
                    _ => {
                        self.message = "Select another member to exchange with".to_owned();
                        return None;
                    },
                },
                None => {
                    self.message = "Select a member to exchange with".to_owned();
                    return None;
                },
            },
            _ => CombatCommand::Run,
        };
        Some(CombatIntent::Command(command))
    }

    /// Handle a key. `selected` is the band row the mouse selected, the exchange partner:
    /// Up and Down move round the four actions, Left and Right step the target round the
    /// living stacks, Enter confirms, a hotkey moves to its action and confirms, Escape
    /// pauses.
    pub fn key(&mut self, key: MenuKey, view: &FightView, selected: Option<usize>) -> (r: Option<CombatIntent>)
        ensures
            match key {
                MenuKey::Up | MenuKey::Down => final(self).cursor == spec_cycle(old(self).cursor as int, 4, key)
                    && final(self).target == old(self).target && final(self).message == old(self).message
                    && r is None,
                MenuKey::Left | MenuKey::Right => final(self).cursor == old(self).cursor
                    && final(self).target == spec_step_target(view.stacks@, old(self).target, key)
                    && final(self).message == old(self).message && r is None,
                MenuKey::Enter => final(self).cursor == old(self).cursor && final(self).target
                    == old(self).target && (r, final(self).message@) == spec_confirm(
                    *view,
                    old(self).cursor as int,
                    old(self).target,
                    selected,
                ),
                MenuKey::Char(c) => match spec_hotkey(COMBAT_HOTKEYS, c) {
                    Some(at) => final(self).cursor == at && final(self).target == old(self).target
                        && (r, final(self).message@) == spec_confirm(*view, at, old(self).target, selected),
                    None => final(self).cursor == old(self).cursor && final(self).target
                        == old(self).target && final(self).message == old(self).message && r is None,
                },
                MenuKey::Escape => final(self).cursor == old(self).cursor && final(self).target
                    == old(self).target && final(self).message == old(self).message && r == Some(
                    CombatIntent::Pause,
                ),
                MenuKey::Backspace => final(self).cursor == old(self).cursor && final(self).target
                    == old(self).target && final(self).message == old(self).message && r is None,
            },
    {
        match key {
            MenuKey::Up | MenuKey::Down => {
                self.cursor = cycle(self.cursor, 4, key);
            },
            MenuKey::Left | MenuKey::Right => self.step_target(view, key),
            MenuKey::Enter => return self.confirm(view, selected),
            MenuKey::Char(c) => {
                if let Some(at) = hotkey(COMBAT_HOTKEYS, c) {
                    self.cursor = at;
                    return self.confirm(view, selected);
                }
            },
            MenuKey::Escape => return Some(CombatIntent::Pause),
            MenuKey::Backspace => {},
        }
        None
    }
}

// ---------------------------------------------------------------- encounter

/// One of the four answers to an encounter.
#[derive(Debug, Clone, Copy, PartialEq, Eq, Structural)]
pub enum EncounterChoice {
    /// Fight.
    Attack,
    /// Pay them to leave.
    Bribe,
    /// Try to slip past.
    Hide,
    /// Flee.
    Run,
}

/// What the encounter menu asks for.
#[derive(Debug, Clone, Copy, PartialEq, Eq, Structural)]
pub enum EncounterIntent {
    /// One of the four choices.
    Choice(EncounterChoice),
    /// Open the pause overlay.
    Pause,
}

/// The choice before a fight: arrows cycle the four, Enter confirms, `a b h r` are hotkeys,
/// Escape pauses.
#[derive(Debug, Clone, Default, PartialEq, Eq)]
pub struct EncounterMenu {
    /// The choice under the cursor.
    pub cursor: usize,
    /// Why the last confirmation did nothing; empty when it did something.
    pub message: String,
}

/// The encounter's choices, in cursor order (the bribe's text comes from the view).
pub const ENCOUNTER_ACTIONS: [&'static str; 4] = ["Attack", "Bribe", "Hide", "Run"];
/// The encounter's hotkeys, in the same order.
pub const ENCOUNTER_HOTKEYS: [char; 4] = ['a', 'b', 'h', 'r'];

/// The encounter's choice at a cursor; past the last is the last.
pub open spec fn spec_choice(cursor: int) -> EncounterChoice {
    if cursor == 0 {
        EncounterChoice::Attack
    } else if cursor == 1 {
        EncounterChoice::Bribe
    } else if cursor == 2 {
        EncounterChoice::Hide
    } else {
        EncounterChoice::Run
    }
}

/// What confirming an encounter choice gives: a bribe the party cannot pay says why.
pub open spec fn spec_encounter_confirm(view: FightView, cursor: int) -> (Option<EncounterIntent>, Seq<char>) {
    let choice = spec_choice(cursor);
    if choice == EncounterChoice::Bribe && !view.spec_bribe_allowed() {
        (
            None,
            match view.bribe {
                Some(cost) => "Not enough gold: "@ + spec_decimal(cost as int) + " needed, "@
                    + spec_decimal(view.gold as int) + " carried"@,
                None => "They cannot be bribed"@,
            },
        )
    } else {
        (Some(EncounterIntent::Choice(choice)), Seq::empty())
    }
}

impl EncounterMenu {
    fn confirm(&mut self, view: &FightView) -> (r: Option<EncounterIntent>)
        ensures
            (r, final(self).message@) == spec_encounter_confirm(*view, old(self).cursor as int),
            final(self).cursor == old(self).cursor,
    {
        self.message = String::new();
        let choice = match self.cursor {
            0 => EncounterChoice::Attack,
            1 => EncounterChoice::Bribe,
            2 => EncounterChoice::Hide,
            _ => EncounterChoice::Run,
        };
        if choice == EncounterChoice::Bribe && !view.bribe_allowed() {
            proof {
                reveal_strlit("Not enough gold: ");
                reveal_strlit(" needed, ");
                reveal_strlit(" carried");
                reveal_strlit("They cannot be bribed");
            }
            self.message = match view.bribe {
                Some(cost) => {
                    let mut m = "Not enough gold: ".to_owned();
                    push_decimal(&mut m, cost as i64);
                    push_str(&mut m, " needed, ");
                    push_decimal(&mut m, view.gold as i64);
                    push_str(&mut m, " carried");
                    m
                },
                None => "They cannot be bribed".to_owned(),
            };
            return None;
        }
        Some(EncounterIntent::Choice(choice))
    }

    /// Handle a key: any arrow moves round the four choices, Enter confirms, a hotkey moves
    /// to its choice and confirms, Escape pauses.
    pub fn key(&mut self, key: MenuKey, view: &FightView) -> (r: Option<EncounterIntent>)
        ensures
            match key {
                MenuKey::Up | MenuKey::Down | MenuKey::Left | MenuKey::Right => final(self).cursor
                    == spec_cycle(old(self).cursor as int, 4, key) && final(self).message
                    == old(self).message && r is None,
                MenuKey::Enter => final(self).cursor == old(self).cursor && (r, final(self).message@)
                    == spec_encounter_confirm(*view, old(self).cursor as int),
                MenuKey::Char(c) => match spec_hotkey(ENCOUNTER_HOTKEYS, c) {
                    Some(at) => final(self).cursor == at && (r, final(self).message@)
                        == spec_encounter_confirm(*view, at),
                    None => final(self).cursor == old(self).cursor && final(self).message
                        == old(self).message && r is None,
                },
                MenuKey::Escape => final(self).cursor == old(self).cursor && final(self).message
                    == old(self).message && r == Some(EncounterIntent::Pause),
                MenuKey::Backspace => final(self).cursor == old(self).cursor && final(self).message
                    == old(self).message && r is None,
            },
    {
        match key {
            MenuKey::Up | MenuKey::Down | MenuKey::Left | MenuKey::Right => {
                self.cursor = cycle(self.cursor, 4, key);
            },
            MenuKey::Enter => return self.confirm(view),
            MenuKey::Char(c) => {
                if let Some(at) = hotkey(ENCOUNTER_HOTKEYS, c) {
                    self.cursor = at;
                    return self.confirm(view);
                }
            },
            MenuKey::Escape => return Some(EncounterIntent::Pause),
            MenuKey::Backspace => {},
        }
        None
    }
}

// ---------------------------------------------------------------- defeat

/// What the defeat modal asks for.
#[derive(Debug, Clone, Copy, PartialEq, Eq, Structural)]
pub enum DefeatAction {
    /// Load the last save.
    Load,
    /// Drop the game and return to the title.
    QuitToTitle,
}

/// "The party has fallen": two choices, no escape.
#[derive(Debug, Clone, Default, PartialEq, Eq)]
pub struct DefeatMenu {
    /// The choice under the cursor.
    pub cursor: usize,
}

/// The defeat modal's choices, in cursor order.
pub const DEFEAT_ITEMS: [&'static str; 2] = ["Load last save", "Quit to title"];

impl DefeatMenu {
    /// Handle a key: Up and Down move between the two, Enter loads at the first and quits at
    /// any other, every other key does nothing.
    pub fn key(&mut self, key: MenuKey) -> (r: Option<DefeatAction>)
        ensures
            match key {
                MenuKey::Up | MenuKey::Down => final(self).cursor == spec_cycle(old(self).cursor as int, 2, key)
                    && r is None,
                MenuKey::Enter => final(self).cursor == old(self).cursor && r == Some(
                    if old(self).cursor == 0 {
                        DefeatAction::Load
                    } else {
                        DefeatAction::QuitToTitle
                    },
                ),
                _ => final(self).cursor == old(self).cursor && r is None,
            },
    {
        match key {
            MenuKey::Up | MenuKey::Down => self.cursor = cycle(self.cursor, 2, key),
            MenuKey::Enter => {
                return Some(
                    if self.cursor == 0 {
                        DefeatAction::Load
                    } else {
                        DefeatAction::QuitToTitle
                    },
                );
            },
            _ => {},
        }
        None
    }
}

/// Every index the living list holds is a stack that still stands.
pub proof fn lemma_living_are_alive(stacks: Seq<StackRow>, i: int)
    requires
        0 <= i < spec_living(stacks).len(),
    ensures
        exists|k: int| 0 <= k < stacks.len() && #[trigger] stacks[k].alive && stacks[k].index == spec_living(stacks)[i],
    decreases stacks.len(),
{
    let rest = stacks.drop_last();
    if i < spec_living(rest).len() {
        lemma_living_are_alive(rest, i);
        let k = choose|k: int| 0 <= k < rest.len() && #[trigger] rest[k].alive && rest[k].index == spec_living(rest)[i];
        assert(stacks[k] == rest[k]);
        assert(stacks[k].alive);
    } else {
        assert(stacks[stacks.len() - 1].alive);
    }
}

/// Keeping the target lands it on a stack that still stands, whenever one stands.
pub proof fn lemma_sync_lands_on_living(stacks: Seq<StackRow>, target: u8)
    requires
        spec_living(stacks).len() > 0,
    ensures
        spec_living(stacks).contains(spec_sync_target(stacks, target)),
{
    let living = spec_living(stacks);
    lemma_position_bound(living, target);
    match spec_position(living, target) {
        Some(i) => {
            assert(living[i] == target);
        },
        None => {
            assert(living[0] == spec_sync_target(stacks, target));
        },
    }
}

/// Stepping the target left or right lands it on a stack that still stands, whenever one
/// stands.
pub proof fn lemma_step_lands_on_living(stacks: Seq<StackRow>, target: u8, key: MenuKey)
    requires
        spec_living(stacks).len() > 0,
        key == MenuKey::Left || key == MenuKey::Right,
    ensures
        spec_living(stacks).contains(spec_step_target(stacks, target, key)),
{
    let living = spec_living(stacks);
    lemma_position_bound(living, target);
    let at = match spec_position(living, target) {
        Some(i) => i,
        None => 0,
    };
    crate::menu::lemma_cycle_in_range(at, living.len() as int, key);
    let next = spec_cycle(at, living.len() as int, key);
    assert(living[next] == spec_step_target(stacks, target, key));
}

/// Confirming a choice goes through unless it is a bribe the party cannot pay: a bribe goes
/// through exactly when its price is known and no more than the gold carried; a refused
/// bribe says the price and the gold, or that no price is offered. Any other choice is the
/// one under the cursor.
pub proof fn lemma_bribe_paid_only_when_affordable(view: FightView, cursor: int)
    ensures
        ({
            let (r, why) = spec_encounter_confirm(view, cursor);
            &&& spec_choice(cursor) == EncounterChoice::Bribe ==> (r is Some <==> (view.bribe matches Some(c) && c
                <= view.gold))
            &&& spec_choice(cursor) != EncounterChoice::Bribe ==> r == Some(EncounterIntent::Choice(spec_choice(cursor)))
            &&& r is Some ==> why.len() == 0
            &&& r is None ==> (view.bribe matches Some(c) ==> c > view.gold && why == "Not enough gold: "@
                + spec_decimal(c as int) + " needed, "@ + spec_decimal(view.gold as int) + " carried"@)
            &&& r is None && view.bribe is None ==> why == "They cannot be bribed"@
            &&& cursor == 0 ==> spec_choice(cursor) == EncounterChoice::Attack
            &&& cursor == 1 ==> spec_choice(cursor) == EncounterChoice::Bribe
            &&& cursor == 2 ==> spec_choice(cursor) == EncounterChoice::Hide
            &&& cursor >= 3 ==> spec_choice(cursor) == EncounterChoice::Run
        }),
{
}

/// The bribe's button names the price in gold, `free` for none, and only `Bribe` when no
/// price is known.
pub proof fn lemma_bribe_label_names_the_price(bribe: Option<u32>)
    ensures
        bribe == Some(0u32) ==> spec_bribe_label(bribe) == "Bribe free"@,
        bribe matches Some(c) ==> (c > 0 ==> spec_bribe_label(bribe) == "Bribe "@ + spec_decimal(c as int) + seq!['g']),
        bribe is None ==> spec_bribe_label(bribe) == "Bribe"@,
{
}

} // verus!
