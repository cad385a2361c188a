//! The debug menu as a pure state machine: the world's numbers as rows a developer can push
//! up and down, items to hand out, conditions and flags to set, a teleport, and the stacks of
//! a fight. Every change is a dev command for the simulation, so replays carry it and a
//! release world refuses it.

use vstd::prelude::*;
use crate::menu::{MenuKey, cycle, spec_cycle};
use crate::text::{push_decimal, push_str, spec_clamp, spec_decimal};

verus! {

/// A facing of the party.
#[derive(Debug, Clone, Copy, PartialEq, Eq, Structural)]
pub enum Facing {
    /// Up the map.
    North,
    /// Right.
    East,
    /// Down.
    South,
    /// Left.
    West,
}

/// The four facings the map row cycles, clockwise from north.
pub const FACINGS: [Facing; 4] = [Facing::North, Facing::East, Facing::South, Facing::West];

/// An ability, in SRD order.
#[derive(Debug, Clone, Copy, PartialEq, Eq, Structural)]
pub enum Ability {
    /// STR.
    Strength,
    /// DEX.
    Dexterity,
    /// CON.
    Constitution,
    /// INT.
    Intelligence,
    /// WIS.
    Wisdom,
    /// CHA.
    Charisma,
}

/// The six abilities, in SRD order.
pub const ABILITIES: [Ability; 6] = [
    Ability::Strength,
    Ability::Dexterity,
    Ability::Constitution,
    Ability::Intelligence,
    Ability::Wisdom,
    Ability::Charisma,
];

/// One member's numbers.
#[derive(Debug, PartialEq, Eq)]
pub struct MemberDebug {
    /// The name.
    pub name: String,
    /// Hit points and maximum.
    pub hp: (i32, i32),
    /// Spell points and maximum.
    pub sp: (u32, u32),
    /// Experience.
    pub xp: u32,
    /// The six scores in SRD order.
    pub scores: [u8; 6],
    /// Condition ids in effect.
    pub conditions: Vec<String>,
}

/// One stack of a fight.
#[derive(Debug, PartialEq, Eq)]
pub struct StackDebug {
    /// Its index in the encounter.
    pub index: u8,
    /// The monster's name.
    pub name: String,
    /// The living and the initial count.
    pub count: (u8, u8),
    /// The lead individual's hit points; zero when none stands.
    pub lead_hp: i32,
}

/// What the menu reads, built from the world every frame.
#[derive(Debug, PartialEq, Eq)]
pub struct DebugView {
    /// Whether a fight is on: stack edits apply, teleport does not.
    pub fighting: bool,
    /// Whether the world accepts dev commands at all.
    pub devtools: bool,
    /// The members in marching order.
    pub members: Vec<MemberDebug>,
    /// The party's gold.
    pub gold: u32,
    /// The party's food.
    pub food: u32,
    /// Every item id with its label, in id order.
    pub items: Vec<(String, String)>,
    /// Every condition id with its label, in id order.
    pub conditions: Vec<(String, String)>,
    /// Every flag id, in id order.
    pub flags: Vec<String>,
    /// Every map id with its size, in id order.
    pub maps: Vec<(String, u16, u16)>,
    /// Where the party stands: the map's index in `maps`, the tile, the facing.
    pub position: (usize, u16, u16, Facing),
    /// The stacks of the fight, when one is on.
    pub stacks: Vec<StackDebug>,
}

impl Clone for MemberDebug {
    fn clone(&self) -> (r: MemberDebug)
        ensures
            r.name == self.name,
            r.hp == self.hp,
            r.sp == self.sp,
            r.xp == self.xp,
            r.scores == self.scores,
    {
        MemberDebug {
            name: self.name.clone(),
            hp: self.hp,
            sp: self.sp,
            xp: self.xp,
            scores: self.scores,
            conditions: self.conditions.clone(),
        }
    }
}

impl Clone for StackDebug {
    fn clone(&self) -> (r: StackDebug)
        ensures
            r == *self,
    {
        StackDebug { index: self.index, name: self.name.clone(), count: self.count, lead_hp: self.lead_hp }
    }
}

impl Clone for DebugView {
    fn clone(&self) -> (r: DebugView) {
        let mut members: Vec<MemberDebug> = Vec::new();
        let mut i: usize = 0;
        while i < self.members.len()
            decreases self.members@.len() - i,
        {
            members.push(self.members[i].clone());
            i = i + 1;
        }
        let mut items: Vec<(String, String)> = Vec::new();
        let mut i: usize = 0;
        while i < self.items.len()
            decreases self.items@.len() - i,
        {
            items.push((self.items[i].0.clone(), self.items[i].1.clone()));
            i = i + 1;
        }
        let mut conditions: Vec<(String, String)> = Vec::new();
        let mut i: usize = 0;
        while i < self.conditions.len()
            decreases self.conditions@.len() - i,
        {
            conditions.push((self.conditions[i].0.clone(), self.conditions[i].1.clone()));
            i = i + 1;
        }
        let mut maps: Vec<(String, u16, u16)> = Vec::new();
        let mut i: usize = 0;
        while i < self.maps.len()
            decreases self.maps@.len() - i,
        {
            maps.push((self.maps[i].0.clone(), self.maps[i].1, self.maps[i].2));
            i = i + 1;
        }
        let mut stacks: Vec<StackDebug> = Vec::new();
        let mut i: usize = 0;
        while i < self.stacks.len()
            decreases self.stacks@.len() - i,
        {
            stacks.push(self.stacks[i].clone());
            i = i + 1;
        }
        DebugView {
            fighting: self.fighting,
            devtools: self.devtools,
            members,
            gold: self.gold,
            food: self.food,
            items,
            conditions,
            flags: self.flags.clone(),
            maps,
            position: self.position,
            stacks,
        }
    }
}

impl DebugView {
    /// A view a world gives: no member's maximum hit points below zero, no map without a
    /// tile.
    pub open spec fn wf(&self) -> bool {
        &&& forall|i: int| 0 <= i < self.members@.len() ==> #[trigger] self.members@[i].hp.1 >= 0
        &&& forall|i: int| 0 <= i < self.maps@.len() ==> #[trigger] self.maps@[i].1 >= 1 && self.maps@[i].2 >= 1
    }
}

/// A change the debug menu asks the simulation for.
#[allow(inconsistent_fields)]
#[derive(Debug, PartialEq, Eq)]
pub enum DevCommand {
    /// Give a member, or the stores, some of an item.
    GiveItem {
        /// The member's slot; `None` for the party's stores.
        member: Option<u8>,
        /// The item's id.
        item: String,
        /// How many.
        count: u16,
    },
    /// Set a member's hit points.
    SetHp {
        /// The member's slot.
        member: u8,
        /// The new hit points.
        hp: i32,
    },
    /// Set a member's spell points.
    SetSpellPoints {
        /// The member's slot.
        member: u8,
        /// The new points.
        points: u32,
    },
    /// Set the party's gold.
    SetGold {
        /// The new purse.
        gold: u32,
    },
    /// Set the party's food.
    SetFood {
        /// The new stores.
        food: u32,
    },
    /// Set a member's experience.
    SetXp {
        /// The member's slot.
        member: u8,
        /// The new experience.
        xp: u32,
    },
    /// Set one of a member's scores.
    SetScore {
        /// The member's slot.
        member: u8,
        /// Which score.
        ability: Ability,
        /// The new score.
        score: u8,
    },
    /// Put a condition on a member or take it off.
    SetCondition {
        /// The member's slot.
        member: u8,
        /// The condition's id.
        condition: String,
        /// On or off.
        applied: bool,
    },
    /// Set a world flag.
    SetFlag {
        /// The flag's id.
        flag: String,
        /// The value.
        value: i32,
    },
    /// Move the party.
    Teleport {
        /// The map's id.
        map: String,
        /// The tile's column.
        x: u16,
        /// The tile's row.
        y: u16,
        /// The facing after.
        facing: Facing,
    },
    /// Set a monster's hit points.
    SetMonsterHp {
        /// The stack.
        stack: u8,
        /// The individual in the stack.
        index: u8,
        /// The new hit points.
        hp: i32,
    },
    /// Slay a whole stack.
    KillStack {
        /// The stack.
        stack: u8,
    },
}

/// What the menu asks for.
#[derive(Debug, PartialEq, Eq)]
pub enum DebugIntent {
    /// A dev command.
    Command(DevCommand),
    /// Close the menu.
    Close,
}

/// The member row: which member the rows edit.
pub const ROW_MEMBER: usize = 0;
/// Hit points.
pub const ROW_HP: usize = 1;
/// Spell points.
pub const ROW_SP: usize = 2;
/// Experience.
pub const ROW_XP: usize = 3;
/// One ability score.
pub const ROW_SCORE: usize = 4;
/// A condition to toggle.
pub const ROW_CONDITION: usize = 5;
/// An item to give.
pub const ROW_ITEM: usize = 6;
/// Gold.
pub const ROW_GOLD: usize = 7;
/// Food.
pub const ROW_FOOD: usize = 8;
/// A flag to set.
pub const ROW_FLAG: usize = 9;
/// A teleport.
pub const ROW_MAP: usize = 10;
/// A stack of the fight.
pub const ROW_STACK: usize = 11;
/// How many rows.
pub const ROWS: usize = 12;

/// The menu: a row cursor, a field cursor on rows with several, and what each selector
/// points at. Numbers bound to the world change at once (Left/Right by one, `-`/`+` by ten,
/// `[`/`]` by a hundred); selectors are staged until Enter acts.
#[derive(Debug, PartialEq, Eq)]
pub struct DebugMenu {
    /// The row under the cursor.
    pub row: usize,
    /// The field under the cursor on rows with several.
    pub field: usize,
    /// The member the member rows edit.
    pub member: usize,
    /// The ability the score row edits.
    pub ability: usize,
    /// The condition the condition row toggles.
    pub condition: usize,
    /// The item the item row gives.
    pub item: usize,
    /// How many the item row gives.
    pub count: u16,
    /// The flag the flag row sets.
    pub flag: usize,
    /// The map the teleport goes to.
    pub map: usize,
    /// The tile the teleport goes to.
    pub tile: (u16, u16),
    /// The facing the teleport ends with.
    pub facing: usize,
    /// The stack the stack row edits.
    pub stack: usize,
    /// Why the last key did nothing; empty when it did something.
    pub message: String,
}

impl Clone for DebugMenu {
    fn clone(&self) -> (r: DebugMenu)
        ensures
            r == *self,
    {
        DebugMenu {
            row: self.row,
            field: self.field,
            member: self.member,
            ability: self.ability,
            condition: self.condition,
            item: self.item,
            count: self.count,
            flag: self.flag,
            map: self.map,
            tile: self.tile,
            facing: self.facing,
            stack: self.stack,
            message: self.message.clone(),
        }
    }
}

impl Default for DebugMenu {
    /// Every cursor at its first, one of an item.
    fn default() -> (r: DebugMenu)
        ensures
            r.row == 0 && r.field == 0 && r.member == 0 && r.ability == 0 && r.condition == 0,
            r.item == 0 && r.count == 1 && r.flag == 0 && r.map == 0 && r.tile == (0u16, 0u16),
            r.facing == 0 && r.stack == 0 && r.message@ == Seq::<char>::empty(),
    {
        DebugMenu {
            row: 0,
            field: 0,
            member: 0,
            ability: 0,
            condition: 0,
            item: 0,
            count: 1,
            flag: 0,
            map: 0,
            tile: (0, 0),
            facing: 0,
            stack: 0,
            message: String::new(),
        }
    }
}

/// How many fields a row has.
pub open spec fn spec_fields(row: int) -> int {
    if row == 4 || row == 5 || row == 6 || row == 9 || row == 11 {
        2
    } else if row == 10 {
        4
    } else {
        1
    }
}

/// How many fields a row has: a selector and a number on the score, item and stack rows
/// (and the condition and flag rows), the map, column, row and facing on the map row, one
/// elsewhere.
pub fn fields(row: usize) -> (r: usize)
    ensures
        r == spec_fields(row as int),
{
    match row {
        ROW_SCORE | ROW_CONDITION | ROW_ITEM | ROW_FLAG | ROW_STACK => 2,
        ROW_MAP => 4,
        _ => 1,
    }
}

/// `value + by`, clamped to `0..=max`.
pub open spec fn spec_bump(value: int, by: int, max: int) -> int {
    spec_clamp(value + by, 0, max)
}

/// `value + by`, clamped to `0..=max`.
pub fn bump(value: i64, by: i64, max: i64) -> (r: i64)
    requires
        0 <= max,
        i64::MIN <= value + by <= i64::MAX,
    ensures
        r == spec_bump(value as int, by as int, max as int),
        0 <= r <= max,
{
    let v = value + by;
    if v < 0 {
        0
    } else if v > max {
        max
    } else {
        v
    }
}

/// A member's slot as the commands want it: past the last `u8` is the last.
pub open spec fn spec_slot(member: int) -> u8 {
    if member <= 255 {
        member as u8
    } else {
        255
    }
}

/// A selector after a step: one back for a negative step, one on otherwise, round a list of
/// `len`; unchanged on an empty list.
pub open spec fn spec_step(at: usize, len: int, by: int) -> usize {
    if len > 0 {
        spec_cycle(at as int, len, if by < 0 { MenuKey::Left } else { MenuKey::Right }) as usize
    } else {
        at
    }
}

fn step(at: usize, len: usize, by: i64) -> (r: usize)
    ensures
        r == spec_step(at, len as int, by as int),
{
    if len > 0 {
        let key = if by < 0 {
            MenuKey::Left
        } else {
            MenuKey::Right
        };
        cycle(at, len, key)
    } else {
        at
    }
}

/// The larger of two.
pub open spec fn spec_max(a: int, b: int) -> int {
    if a < b {
        b
    } else {
        a
    }
}

/// The menu after an adjustment, its message aside: a selector stepped, the item count or
/// the teleport's tile pushed, or nothing changed.
pub open spec fn spec_adjust_menu(m: DebugMenu, by: int, view: DebugView) -> DebugMenu {
    if m.row == 0 {
        DebugMenu { member: spec_step(m.member, view.members@.len() as int, by), ..m }
    } else if m.row == 4 && m.field == 0 {
        DebugMenu { ability: spec_step(m.ability, 6, by), ..m }
    } else if m.row == 5 {
        DebugMenu { condition: spec_step(m.condition, view.conditions@.len() as int, by), ..m }
    } else if m.row == 6 && m.field == 0 {
        DebugMenu { item: spec_step(m.item, view.items@.len() as int, by), ..m }
    } else if m.row == 6 {
        DebugMenu { count: spec_max(spec_bump(m.count as int, by, 65535), 1) as u16, ..m }
    } else if m.row == 9 {
        DebugMenu { flag: spec_step(m.flag, view.flags@.len() as int, by), ..m }
    } else if m.row == 10 && m.field == 0 {
        DebugMenu { map: spec_step(m.map, view.maps@.len() as int, by), ..m }
    } else if m.row == 10 && (m.field == 1 || m.field == 2) {
        let (w, h) = if m.map < view.maps@.len() {
            (view.maps@[m.map as int].1 as int, view.maps@[m.map as int].2 as int)
        } else {
            (1, 1)
        };
        if m.field == 1 {
            DebugMenu { tile: (spec_bump(m.tile.0 as int, by, w - 1) as u16, m.tile.1), ..m }
        } else {
            DebugMenu { tile: (m.tile.0, spec_bump(m.tile.1 as int, by, h - 1) as u16), ..m }
        }
    } else if m.row == 10 {
        DebugMenu { facing: spec_step(m.facing, 4, by), ..m }
    } else if m.row == 11 && m.field == 0 {
        DebugMenu { stack: spec_step(m.stack, view.stacks@.len() as int, by), ..m }
    } else {
        m
    }
}

/// What an adjustment asks for: a number bound to the world pushed by `by` and clamped, for
/// the member under the cursor (none when there is none), the purse, the stores, or the
/// stack's lead; nothing for a selector.
pub open spec fn spec_adjust_intent(m: DebugMenu, by: int, view: DebugView) -> Option<DebugIntent> {
    let present = m.member < view.members@.len();
    let x = view.members@[m.member as int];
    let slot = spec_slot(m.member as int);
    if m.row == 1 {
        if present {
            Some(DebugIntent::Command(DevCommand::SetHp { member: slot, hp: spec_bump(x.hp.0 as int, by, x.hp.1 as int) as i32 }))
        } else {
            None
        }
    } else if m.row == 2 {
        if present {
            Some(DebugIntent::Command(DevCommand::SetSpellPoints { member: slot, points: spec_bump(x.sp.0 as int, by, x.sp.1 as int) as u32 }))
        } else {
            None
        }
    } else if m.row == 3 {
        if present {
            Some(DebugIntent::Command(DevCommand::SetXp { member: slot, xp: spec_bump(x.xp as int, by, u32::MAX as int) as u32 }))
        } else {
            None
        }
    } else if m.row == 4 && m.field != 0 {
        if present {
            Some(
                DebugIntent::Command(
                    DevCommand::SetScore {
                        member: slot,
                        ability: ABILITIES[m.ability as int],
                        score: spec_max(spec_bump(x.scores[m.ability as int] as int, by, 30), 1) as u8,
                    },
                ),
            )
        } else {
            None
        }
    } else if m.row == 7 {
        Some(DebugIntent::Command(DevCommand::SetGold { gold: spec_bump(view.gold as int, by, u32::MAX as int) as u32 }))
    } else if m.row == 8 {
        Some(DebugIntent::Command(DevCommand::SetFood { food: spec_bump(view.food as int, by, u32::MAX as int) as u32 }))
    } else if m.row == 11 && m.field != 0 {
        if view.fighting && m.stack < view.stacks@.len() {
            let s = view.stacks@[m.stack as int];
            Some(
                DebugIntent::Command(
                    DevCommand::SetMonsterHp {
                        stack: s.index,
                        index: 0,
                        hp: spec_max(spec_bump(s.lead_hp as int, by, i32::MAX as int), 0) as i32,
                    },
                ),
            )
        } else {
            None
        }
    } else {
        None
    }
}

/// The message an adjustment leaves: why a stack edit did nothing outside a fight.
pub open spec fn spec_adjust_message(m: DebugMenu, view: DebugView) -> Seq<char> {
    if m.row == 11 && m.field != 0 && !view.fighting {
        "No fight is on"@
    } else {
        Seq::empty()
    }
}

/// Whether a text is among some strings.
pub open spec fn spec_has_text(texts: Seq<String>, t: Seq<char>) -> bool {
    exists|k: int| 0 <= k < texts.len() && #[trigger] texts[k]@ == t
}

/// What Enter (or `s`, giving to the stores) asks for on a row with a staged choice: toggle
/// the condition on the member, give the item, set the flag, or teleport; nothing when the
/// choice or the member is missing, in a fight for the teleport, or on another row.
pub open spec fn spec_act_intent(m: DebugMenu, view: DebugView, to_stores: bool) -> Option<DebugIntent> {
    let slot = spec_slot(m.member as int);
    if m.row == 5 {
        if m.condition < view.conditions@.len() && m.member < view.members@.len() {
            let id = view.conditions@[m.condition as int].0;
            Some(
                DebugIntent::Command(
                    DevCommand::SetCondition {
                        member: slot,
                        condition: id,
                        applied: !spec_has_text(view.members@[m.member as int].conditions@, id@),
                    },
                ),
            )
        } else {
            None
        }
    } else if m.row == 6 {
        if m.item < view.items@.len() {
            Some(
                DebugIntent::Command(
                    DevCommand::GiveItem {
                        member: if to_stores {
                            None
                        } else {
                            Some(slot)
                        },
                        item: view.items@[m.item as int].0,
                        count: m.count,
                    },
                ),
            )
        } else {
            None
        }
    } else if m.row == 9 {
        if m.flag < view.flags@.len() {
            Some(DebugIntent::Command(DevCommand::SetFlag { flag: view.flags@[m.flag as int], value: 1 }))
        } else {
            None
        }
    } else if m.row == 10 {
        if !view.fighting && m.map < view.maps@.len() {
            Some(
                DebugIntent::Command(
                    DevCommand::Teleport {
                        map: view.maps@[m.map as int].0,
                        x: m.tile.0,
                        y: m.tile.1,
                        facing: FACINGS[m.facing as int],
                    },
                ),
            )
        } else {
            None
        }
    } else {
        None
    }
}

/// The message Enter leaves: why there is no teleport.
pub open spec fn spec_act_message(m: DebugMenu, view: DebugView) -> Seq<char> {
    if m.row == 10 && view.fighting {
        "No teleport in a fight"@
    } else {
        Seq::empty()
    }
}

/// Whether two menus agree but for their messages.
pub open spec fn same_cursors(a: DebugMenu, b: DebugMenu) -> bool {
    &&& a.row == b.row
    &&& a.field == b.field
    &&& a.member == b.member
    &&& a.ability == b.ability
    &&& a.condition == b.condition
    &&& a.item == b.item
    &&& a.count == b.count
    &&& a.flag == b.flag
    &&& a.map == b.map
    &&& a.tile == b.tile
    &&& a.facing == b.facing
    &&& a.stack == b.stack
}

/// What `k` asks for on the stack row: slay the stack under the cursor, in a fight.
pub open spec fn spec_kill_intent(m: DebugMenu, view: DebugView) -> Option<DebugIntent> {
    if view.fighting && m.stack < view.stacks@.len() {
        Some(DebugIntent::Command(DevCommand::KillStack { stack: view.stacks@[m.stack as int].index }))
    } else {
        None
    }
}

/// The step a key pushes a number by, if it pushes one.
pub open spec fn spec_key_step(key: MenuKey) -> Option<int> {
    match key {
        MenuKey::Left => Some(-1),
        MenuKey::Right => Some(1),
        MenuKey::Char(c) => if c == '-' {
            Some(-10)
        } else if c == '+' || c == '=' {
            Some(10)
        } else if c == '[' {
            Some(-100)
        } else if c == ']' {
            Some(100)
        } else {
            None
        },
        _ => None,
    }
}

/// A selector kept inside a list of `len`: at most the last, zero for none.
pub open spec fn spec_keep(at: usize, len: int) -> usize {
    let last = if len == 0 {
        0
    } else {
        len - 1
    };
    if at < last {
        at
    } else {
        last as usize
    }
}

fn keep(at: usize, len: usize) -> (r: usize)
    ensures
        r == spec_keep(at, len as int),
{
    let last = if len == 0 {
        0
    } else {
        len - 1
    };
    if at < last {
        at
    } else {
        last
    }
}

/// Whether two strings hold the same text.
fn same_text(a: &String, b: &String) -> (r: bool)
    ensures
        r == (a@ == b@),
{
    a.eq(b)
}

/// Whether a text is among some strings.
fn has_text(texts: &Vec<String>, t: &String) -> (r: bool)
    ensures
        r == spec_has_text(texts@, t@),
{
    let mut i: usize = 0;
    while i < texts.len()
        invariant
            i <= texts@.len(),
            forall|k: int| 0 <= k < i ==> texts@[k]@ != t@,
        decreases texts@.len() - i,
    {
        if same_text(&texts[i], t) {
            return true;
        }
        i = i + 1;
    }
    false
}

impl DebugMenu {
    /// The cursors a menu keeps: the ability and the facing name one of their lists.
    pub open spec fn wf(&self) -> bool {
        self.ability < 6 && self.facing < 4
    }

    /// Pushing a number on this row reads what it needs: the score row names an ability,
    /// the hit point row a member's maximum of zero or more, the tile fields a map one tile
    /// wide and high at least.
    pub open spec fn spec_adjust_defined(self, view: DebugView) -> bool {
        &&& self.row == ROW_SCORE && self.field != 0 ==> self.ability < 6
        &&& self.row == ROW_HP && self.member < view.members@.len() ==> view.members@[self.member as int].hp.1 >= 0
        &&& self.row == ROW_MAP && self.field == 1 && self.map < view.maps@.len() ==> view.maps@[self.map as int].1 >= 1
        &&& self.row == ROW_MAP && self.field == 2 && self.map < view.maps@.len() ==> view.maps@[self.map as int].2 >= 1
    }

    /// The number a push on this row moves, where it moves one.
    pub open spec fn spec_adjust_value(self, view: DebugView) -> Option<int> {
        let present = self.member < view.members@.len();
        let m = view.members@[self.member as int];
        if self.row == ROW_HP && present {
            Some(m.hp.0 as int)
        } else if self.row == ROW_SP && present {
            Some(m.sp.0 as int)
        } else if self.row == ROW_XP && present {
            Some(m.xp as int)
        } else if self.row == ROW_SCORE && self.field != 0 && present {
            Some(m.scores[self.ability as int] as int)
        } else if self.row == ROW_ITEM && self.field != 0 {
            Some(self.count as int)
        } else if self.row == ROW_GOLD {
            Some(view.gold as int)
        } else if self.row == ROW_FOOD {
            Some(view.food as int)
        } else if self.row == ROW_MAP && self.field == 1 {
            Some(self.tile.0 as int)
        } else if self.row == ROW_MAP && self.field == 2 {
            Some(self.tile.1 as int)
        } else if self.row == ROW_STACK && self.field != 0 && view.fighting && self.stack < view.stacks@.len() {
            Some(view.stacks@[self.stack as int].lead_hp as int)
        } else {
            None
        }
    }

    /// A push by `by` on this row stays in `i64`.
    pub open spec fn spec_adjust_in_range(self, by: int, view: DebugView) -> bool {
        self.spec_adjust_value(view) matches Some(v) ==> i64::MIN <= v + by <= i64::MAX
    }

    /// Acting on this row reads what it needs: a teleport names a facing.
    pub open spec fn spec_act_defined(self, view: DebugView) -> bool {
        self.row == ROW_MAP && !view.fighting && self.map < view.maps@.len() ==> self.facing < 4
    }

    /// A key on this menu reads only what the view and the cursors hold.
    pub open spec fn spec_key_defined(self, key: MenuKey, view: DebugView) -> bool {
        match spec_key_step(key) {
            Some(by) => self.spec_adjust_defined(view),
            None => match key {
                MenuKey::Enter => self.spec_act_defined(view),
                MenuKey::Char(c) => c == 's' ==> self.spec_act_defined(view),
                _ => true,
            },
        }
    }

    /// Keep every selector inside its list, the field inside its row, the count at one or
    /// more.
    pub fn sync(&mut self, view: &DebugView)
        ensures
            final(self).member == spec_keep(old(self).member, view.members@.len() as int),
            final(self).condition == spec_keep(old(self).condition, view.conditions@.len() as int),
            final(self).item == spec_keep(old(self).item, view.items@.len() as int),
            final(self).flag == spec_keep(old(self).flag, view.flags@.len() as int),
            final(self).map == spec_keep(old(self).map, view.maps@.len() as int),
            final(self).stack == spec_keep(old(self).stack, view.stacks@.len() as int),
            final(self).field == (if old(self).field < spec_fields(old(self).row as int) - 1 {
                old(self).field as int
            } else {
                spec_fields(old(self).row as int) - 1
            }),
            final(self).count == (if old(self).count < 1 { 1 } else { old(self).count }),
            final(self).row == old(self).row,
            final(self).ability == old(self).ability,
            final(self).tile == old(self).tile,
            final(self).facing == old(self).facing,
            final(self).message == old(self).message,
    {
        self.member = keep(self.member, view.members.len());
        self.condition = keep(self.condition, view.conditions.len());
        self.item = keep(self.item, view.items.len());
        self.flag = keep(self.flag, view.flags.len());
        self.map = keep(self.map, view.maps.len());
        self.stack = keep(self.stack, view.stacks.len());
        let last = fields(self.row) - 1;
        if self.field > last {
            self.field = last;
        }
        if self.count < 1 {
            self.count = 1;
        }
    }

    /// Seed the teleport from where the party stands; called when the menu opens. The
    /// selectors are then kept inside their lists.
    pub fn open(&mut self, view: &DebugView)
        ensures
            final(self).map == spec_keep(view.position.0, view.maps@.len() as int),
            final(self).tile == (view.position.1, view.position.2),
            FACINGS[final(self).facing as int] == view.position.3,
            final(self).facing < 4,
            final(self).message@ == Seq::<char>::empty(),
            final(self).row == old(self).row,
            final(self).ability == old(self).ability,
    {
        let (map, x, y, facing) = view.position;
        self.map = map;
        self.tile = (x, y);
        self.facing = match facing {
            Facing::North => 0,
            Facing::East => 1,
            Facing::South => 2,
            Facing::West => 3,
        };
        self.message = String::new();
        self.sync(view);
    }

    /// The member's slot as the commands want it.
    pub fn slot(&self) -> (r: u8)
        ensures
            r == spec_slot(self.member as int),
    {
        if self.member <= 255 {
            self.member as u8
        } else {
            255
        }
    }

    /// A command on the selected stack, or why not: slay it, or push its lead's hit points.
    fn stack_command(&mut self, view: &DebugView, by: Option<i64>) -> (r: Option<DebugIntent>)
        requires
            by matches Some(b) ==> (view.fighting && old(self).stack < view.stacks@.len() ==> i64::MIN
                <= view.stacks@[old(self).stack as int].lead_hp + b <= i64::MAX),
        ensures
            same_cursors(*final(self), *old(self)),
            !view.fighting ==> final(self).message@ == "No fight is on"@ && r is None,
            view.fighting ==> final(self).message == old(self).message,
            match by {
                None => r == spec_kill_intent(*old(self), *view),
                Some(b) => view.fighting ==> r == spec_adjust_intent(
                    DebugMenu { row: 11, field: 1, ..*old(self) },
                    b as int,
                    *view,
                ),
            },
    {
        if !view.fighting {
            self.message = "No fight is on".to_owned();
            return None;
        }
        if self.stack >= view.stacks.len() {
            return None;
        }
        let stack = &view.stacks[self.stack];
        match by {
            None => Some(DebugIntent::Command(DevCommand::KillStack { stack: stack.index })),
            Some(b) => {
                let hp = bump(stack.lead_hp as i64, b, i32::MAX as i64);
                Some(DebugIntent::Command(DevCommand::SetMonsterHp { stack: stack.index, index: 0, hp: hp as i32 }))
            },
        }
    }

    /// Move a selector, or push a number bound to the world by `by`.
    fn adjust(&mut self, by: i64, view: &DebugView) -> (r: Option<DebugIntent>)
        requires
            old(self).spec_adjust_defined(*view),
            old(self).spec_adjust_in_range(by as int, *view),
            old(self).message@ == Seq::<char>::empty(),
        ensures
            old(self).wf() ==> final(self).wf(),
            same_cursors(*final(self), spec_adjust_menu(*old(self), by as int, *view)),
            final(self).message@ == spec_adjust_message(*old(self), *view),
            r == spec_adjust_intent(*old(self), by as int, *view),
    {
        let present = self.member < view.members.len();
        let slot = self.slot();
        match self.row {
            ROW_MEMBER => {
                self.member = step(self.member, view.members.len(), by);
                None
            },
            ROW_HP => {
                if !present {
                    return None;
                }
                let m = &view.members[self.member];
                let hp = bump(m.hp.0 as i64, by, m.hp.1 as i64);
                Some(DebugIntent::Command(DevCommand::SetHp { member: slot, hp: hp as i32 }))
            },
            ROW_SP => {
                if !present {
                    return None;
                }
                let m = &view.members[self.member];
                let points = bump(m.sp.0 as i64, by, m.sp.1 as i64);
                Some(DebugIntent::Command(DevCommand::SetSpellPoints { member: slot, points: points as u32 }))
            },
            ROW_XP => {
                if !present {
                    return None;
                }
                let m = &view.members[self.member];
                let xp = bump(m.xp as i64, by, u32::MAX as i64);
                Some(DebugIntent::Command(DevCommand::SetXp { member: slot, xp: xp as u32 }))
            },
            ROW_SCORE => {
                if self.field == 0 {
                    self.ability = step(self.ability, 6, by);
                    return None;
                }
                if !present {
                    return None;
                }
                let m = &view.members[self.member];
                let score = bump(m.scores[self.ability] as i64, by, 30);
                let score = if score < 1 {
                    1
                } else {
                    score
                };
                Some(DebugIntent::Command(DevCommand::SetScore { member: slot, ability: ABILITIES[self.ability], score: score as u8 }))
            },
            ROW_CONDITION => {
                self.condition = step(self.condition, view.conditions.len(), by);
                None
            },
            ROW_ITEM => {
                if self.field == 0 {
                    self.item = step(self.item, view.items.len(), by);
                } else {
                    let count = bump(self.count as i64, by, 65535);
                    self.count = if count < 1 {
                        1
                    } else {
                        count as u16
                    };
                }
                None
            },
            ROW_GOLD => {
                let gold = bump(view.gold as i64, by, u32::MAX as i64);
                Some(DebugIntent::Command(DevCommand::SetGold { gold: gold as u32 }))
            },
            ROW_FOOD => {
                let food = bump(view.food as i64, by, u32::MAX as i64);
                Some(DebugIntent::Command(DevCommand::SetFood { food: food as u32 }))
            },
            ROW_FLAG => {
                self.flag = step(self.flag, view.flags.len(), by);
                None
            },
            ROW_MAP => {
                if self.field == 0 {
                    self.map = step(self.map, view.maps.len(), by);
                } else if self.field == 1 || self.field == 2 {
                    let (w, h): (u16, u16) = if self.map < view.maps.len() {
                        (view.maps[self.map].1, view.maps[self.map].2)
                    } else {
                        (1, 1)
                    };
                    let (x, y) = self.tile;
                    self.tile = if self.field == 1 {
                        (bump(x as i64, by, w as i64 - 1) as u16, y)
                    } else {
                        (x, bump(y as i64, by, h as i64 - 1) as u16)
                    };
                } else {
                    self.facing = step(self.facing, 4, by);
                }
                None
            },
            ROW_STACK => {
                if self.field == 0 {
                    self.stack = step(self.stack, view.stacks.len(), by);
                    None
                } else {
                    self.stack_command(view, Some(by))
                }
            },
            _ => None,
        }
    }

    /// Enter on a row with a staged choice: toggle the condition, give the item (to the
    /// stores when `to_stores`), set the flag, or teleport.
    fn act(&mut self, view: &DebugView, to_stores: bool) -> (r: Option<DebugIntent>)
        requires
            old(self).spec_act_defined(*view),
            old(self).message@ == Seq::<char>::empty(),
        ensures
            same_cursors(*final(self), *old(self)),
            final(self).message@ == spec_act_message(*old(self), *view),
            r == spec_act_intent(*old(self), *view, to_stores),
    {
        let slot = self.slot();
        match self.row {
            ROW_CONDITION => {
                if self.condition >= view.conditions.len() || self.member >= view.members.len() {
                    return None;
                }
                let id = &view.conditions[self.condition].0;
                let applied = !has_text(&view.members[self.member].conditions, id);
                Some(DebugIntent::Command(DevCommand::SetCondition { member: slot, condition: id.clone(), applied }))
            },
            ROW_ITEM => {
                if self.item >= view.items.len() {
                    return None;
                }
                let member = if to_stores {
                    None
                } else {
                    Some(slot)
                };
                Some(DebugIntent::Command(DevCommand::GiveItem { member, item: view.items[self.item].0.clone(), count: self.count }))
            },
            ROW_FLAG => {
                if self.flag >= view.flags.len() {
                    return None;
                }
                Some(DebugIntent::Command(DevCommand::SetFlag { flag: view.flags[self.flag].clone(), value: 1 }))
            },
            ROW_MAP => {
                if view.fighting {
                    self.message = "No teleport in a fight".to_owned();
                    return None;
                }
                if self.map >= view.maps.len() {
                    return None;
                }
                Some(
                    DebugIntent::Command(
                        DevCommand::Teleport {
                            map: view.maps[self.map].0.clone(),
                            x: self.tile.0,
                            y: self.tile.1,
                            facing: FACINGS[self.facing],
                        },
                    ),
                )
            },
            _ => None,
        }
    }

    /// Handle a key: Up and Down move round the rows (back to the first field), Tab moves
    /// round the row's fields, Left/Right push by one, `-`/`+` (or `=`) by ten, `[`/`]` by a
    /// hundred, Enter acts, `s` gives to the stores, `k` slays the stack on the stack row,
    /// Escape closes. Every key clears the message first.
    pub fn key(&mut self, key: MenuKey, view: &DebugView) -> (r: Option<DebugIntent>)
        requires
            old(self).spec_key_defined(key, *view),
        ensures
            old(self).wf() ==> final(self).wf(),
            match spec_key_step(key) {
                Some(by) => same_cursors(*final(self), spec_adjust_menu(*old(self), by, *view))
                    && final(self).message@ == spec_adjust_message(*old(self), *view) && r
                    == spec_adjust_intent(*old(self), by, *view),
                None => match key {
                    MenuKey::Up | MenuKey::Down => final(self).row == spec_cycle(old(self).row as int, 12, key)
                        && final(self).field == 0 && same_cursors(
                        *final(self),
                        DebugMenu { row: final(self).row, field: 0, ..*old(self) },
                    ) && final(self).message@ == Seq::<char>::empty() && r is None,
                    MenuKey::Enter => same_cursors(*final(self), *old(self)) && final(self).message@
                        == spec_act_message(*old(self), *view) && r == spec_act_intent(*old(self), *view, false),
                    MenuKey::Escape => same_cursors(*final(self), *old(self)) && final(self).message@
                        == Seq::<char>::empty() && r == Some(DebugIntent::Close),
                    MenuKey::Char(c) => if c == '\t' {
                        final(self).field == (old(self).field + 1) % spec_fields(old(self).row as int)
                            && same_cursors(*final(self), DebugMenu { field: final(self).field, ..*old(self) })
                            && final(self).message@ == Seq::<char>::empty() && r is None
                    } else if c == 's' {
                        same_cursors(*final(self), *old(self)) && final(self).message@ == spec_act_message(
                            *old(self),
                            *view,
                        ) && r == spec_act_intent(*old(self), *view, true)
                    } else if c == 'k' && old(self).row == 11 {
                        same_cursors(*final(self), *old(self)) && (if view.fighting {
                            final(self).message@ == Seq::<char>::empty()
                        } else {
                            final(self).message@ == "No fight is on"@
                        }) && r == spec_kill_intent(*old(self), *view)
                    } else {
                        same_cursors(*final(self), *old(self)) && final(self).message@
                            == Seq::<char>::empty() && r is None
                    },
                    _ => same_cursors(*final(self), *old(self)) && final(self).message@
                        == Seq::<char>::empty() && r is None,
                },
            },
    {
        self.message = String::new();
        match key {
            MenuKey::Up | MenuKey::Down => {
                self.row = cycle(self.row, ROWS, key);
                self.field = 0;
                None
            },
            MenuKey::Left => self.adjust(-1, view),
            MenuKey::Right => self.adjust(1, view),
            MenuKey::Char(c) => {
                if c == '\t' {
                    let n = fields(self.row);
                    self.field = (self.field % n + 1) % n;
                    proof {
                        vstd::arithmetic::div_mod::lemma_add_mod_noop(old(self).field as int, 1, n as int);
                        if n > 1 {
                            vstd::arithmetic::div_mod::lemma_small_mod(1, n as nat);
                        } else {
                            vstd::arithmetic::div_mod::lemma_mod_pos_bound(old(self).field as int + 1, 1);
                            vstd::arithmetic::div_mod::lemma_mod_pos_bound(old(self).field as int % 1 + 1, 1);
                        }
                    }
                    None
                } else if c == '-' {
                    self.adjust(-10, view)
                } else if c == '+' || c == '=' {
                    self.adjust(10, view)
                } else if c == '[' {
                    self.adjust(-100, view)
                } else if c == ']' {
                    self.adjust(100, view)
                } else if c == 's' {
                    self.act(view, true)
                } else if c == 'k' && self.row == ROW_STACK {
                    self.stack_command(view, None)
                } else {
                    None
                }
            },
            MenuKey::Enter => self.act(view, false),
            MenuKey::Escape => Some(DebugIntent::Close),
            MenuKey::Backspace => None,
        }
    }
}

/// An ability's three-letter name.
pub open spec fn spec_ability_short(ability: Ability) -> Seq<char> {
    match ability {
        Ability::Strength => "STR"@,
        Ability::Dexterity => "DEX"@,
        Ability::Constitution => "CON"@,
        Ability::Intelligence => "INT"@,
        Ability::Wisdom => "WIS"@,
        Ability::Charisma => "CHA"@,
    }
}

/// An ability's three-letter name.
pub fn ability_short(ability: Ability) -> (r: &'static str)
    ensures
        r@ == spec_ability_short(ability),
{
    match ability {
        Ability::Strength => "STR",
        Ability::Dexterity => "DEX",
        Ability::Constitution => "CON",
        Ability::Intelligence => "INT",
        Ability::Wisdom => "WIS",
        Ability::Charisma => "CHA",
    }
}

/// A facing as a word.
pub open spec fn spec_facing_word(facing: Facing) -> Seq<char> {
    match facing {
        Facing::North => "north"@,
        Facing::East => "east"@,
        Facing::South => "south"@,
        Facing::West => "west"@,
    }
}

/// A facing as a word.
pub fn facing_word(facing: Facing) -> (r: &'static str)
    ensures
        r@ == spec_facing_word(facing),
{
    match facing {
        Facing::North => "north",
        Facing::East => "east",
        Facing::South => "south",
        Facing::West => "west",
    }
}

/// One line for a dev command, for the log.
pub open spec fn spec_describe(command: DevCommand) -> Seq<char> {
    let d = |n: int| spec_decimal(n);
    match command {
        DevCommand::GiveItem { member, item, count } => match member {
            Some(m) => "dev: "@ + d(count as int) + " x "@ + item@ + " to member "@ + d(m as int),
            None => "dev: "@ + d(count as int) + " x "@ + item@ + " to the stores"@,
        },
        DevCommand::SetHp { member, hp } => "dev: member "@ + d(member as int) + " hp "@ + d(hp as int),
        DevCommand::SetSpellPoints { member, points } => "dev: member "@ + d(member as int) + " sp "@ + d(points as int),
        DevCommand::SetGold { gold } => "dev: gold "@ + d(gold as int),
        DevCommand::SetFood { food } => "dev: food "@ + d(food as int),
        DevCommand::SetXp { member, xp } => "dev: member "@ + d(member as int) + " xp "@ + d(xp as int),
        DevCommand::SetScore { member, ability, score } => "dev: member "@ + d(member as int) + " "@
            + spec_ability_short(ability) + " "@ + d(score as int),
        DevCommand::SetCondition { member, condition, applied } => "dev: member "@ + d(member as int) + " "@
            + condition@ + " "@ + if applied {
            "on"@
        } else {
            "off"@
        },
        DevCommand::SetFlag { flag, value } => "dev: "@ + flag@ + " = "@ + d(value as int),
        DevCommand::Teleport { map, x, y, facing } => "dev: teleport to "@ + map@ + " ("@ + d(x as int) + ", "@ + d(
            y as int,
        ) + ") facing "@ + spec_facing_word(facing),
        DevCommand::SetMonsterHp { stack, index, hp } => "dev: stack "@ + d(stack as int) + " #"@ + d(index + 1) + " hp "@
            + d(hp as int),
        DevCommand::KillStack { stack } => "dev: stack "@ + d(stack as int) + " slain"@,
    }
}

/// One line for a dev command, for the log.
pub fn describe(command: &DevCommand) -> (r: String)
    requires
        command matches DevCommand::SetMonsterHp { index, .. } ==> index < 255,
    ensures
        r@ == spec_describe(*command),
{
    let mut s = String::new();
    match command {
        DevCommand::GiveItem { member, item, count } => {
            push_str(&mut s, "dev: ");
            push_decimal(&mut s, *count as i64);
            push_str(&mut s, " x ");
            push_str(&mut s, item.as_str());
            match member {
                Some(m) => {
                    push_str(&mut s, " to member ");
                    push_decimal(&mut s, *m as i64);
                },
                None => {
                    push_str(&mut s, " to the stores");
                },
            }
        },
        DevCommand::SetHp { member, hp } => {
            push_str(&mut s, "dev: member ");
            push_decimal(&mut s, *member as i64);
            push_str(&mut s, " hp ");
            push_decimal(&mut s, *hp as i64);
        },
        DevCommand::SetSpellPoints { member, points } => {
            push_str(&mut s, "dev: member ");
            push_decimal(&mut s, *member as i64);
            push_str(&mut s, " sp ");
            push_decimal(&mut s, *points as i64);
        },
        DevCommand::SetGold { gold } => {
            push_str(&mut s, "dev: gold ");
            push_decimal(&mut s, *gold as i64);
        },
        DevCommand::SetFood { food } => {
            push_str(&mut s, "dev: food ");
            push_decimal(&mut s, *food as i64);
        },
        DevCommand::SetXp { member, xp } => {
            push_str(&mut s, "dev: member ");
            push_decimal(&mut s, *member as i64);
            push_str(&mut s, " xp ");
            push_decimal(&mut s, *xp as i64);
        },
        DevCommand::SetScore { member, ability, score } => {
            push_str(&mut s, "dev: member ");
            push_decimal(&mut s, *member as i64);
            push_str(&mut s, " ");
            push_str(&mut s, ability_short(*ability));
            push_str(&mut s, " ");
            push_decimal(&mut s, *score as i64);
        },
        DevCommand::SetCondition { member, condition, applied } => {
            push_str(&mut s, "dev: member ");
            push_decimal(&mut s, *member as i64);
            push_str(&mut s, " ");
            push_str(&mut s, condition.as_str());
            push_str(&mut s, " ");
            push_str(&mut s, if *applied { "on" } else { "off" });
        },
        DevCommand::SetFlag { flag, value } => {
            push_str(&mut s, "dev: ");
            push_str(&mut s, flag.as_str());
            push_str(&mut s, " = ");
            push_decimal(&mut s, *value as i64);
        },
        DevCommand::Teleport { map, x, y, facing } => {
            push_str(&mut s, "dev: teleport to ");
            push_str(&mut s, map.as_str());
            push_str(&mut s, " (");
            push_decimal(&mut s, *x as i64);
            push_str(&mut s, ", ");
            push_decimal(&mut s, *y as i64);
            push_str(&mut s, ") facing ");
            push_str(&mut s, facing_word(*facing));
        },
        DevCommand::SetMonsterHp { stack, index, hp } => {
            push_str(&mut s, "dev: stack ");
            push_decimal(&mut s, *stack as i64);
            push_str(&mut s, " #");
            push_decimal(&mut s, *index as i64 + 1);
            push_str(&mut s, " hp ");
            push_decimal(&mut s, *hp as i64);
        },
        DevCommand::KillStack { stack } => {
            push_str(&mut s, "dev: stack ");
            push_decimal(&mut s, *stack as i64);
            push_str(&mut s, " slain");
        },
    }
    proof {
        assert(s@ =~= spec_describe(*command));
    }
    s
}

/// Different abilities have different short names, each three capitals; different facings
/// have different words.
pub proof fn lemma_names_tell_apart(a: Ability, b: Ability, f: Facing, g: Facing)
    ensures
        a != b ==> spec_ability_short(a) != spec_ability_short(b),
        spec_ability_short(a).len() == 3,
        forall|i: int| 0 <= i < 3 ==> 'A' <= #[trigger] spec_ability_short(a)[i] <= 'Z',
        f != g ==> spec_facing_word(f) != spec_facing_word(g),
{
    reveal_strlit("STR");
    reveal_strlit("DEX");
    reveal_strlit("CON");
    reveal_strlit("INT");
    reveal_strlit("WIS");
    reveal_strlit("CHA");
    reveal_strlit("north");
    reveal_strlit("east");
    reveal_strlit("south");
    reveal_strlit("west");
    if a != b {
        let (x, y) = (spec_ability_short(a), spec_ability_short(b));
        assert(x[0] != y[0] || x[1] != y[1] || x[2] != y[2]);
    }
    if f != g {
        let (x, y) = (spec_facing_word(f), spec_facing_word(g));
        assert(x.len() != y.len() || x[0] != y[0]);
    }
}

} // verus!
