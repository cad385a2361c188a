//! The character sheet as a value: what one member's three pages show (`SheetView`), the
//! member and page under the cursor (`SheetMenu`), and the keys that move them.
//! `sheet_screen.rs` paints it.

use vstd::prelude::*;
use crate::menu::{MenuKey, cycle, spec_cycle};
use crate::text::{push_char, push_decimal, spec_decimal};

verus! {

/// A page of the sheet.
#[derive(Debug, Clone, Copy, PartialEq, Eq, Default, Structural)]
pub enum SheetPage {
    /// Scores, saves, skills, conditions.
    #[default]
    Stats,
    /// Spells known, effects in force, the casting ability.
    Magic,
    /// What is worn and wielded, what is carried.
    Gear,
}

/// Every page, in tab order.
pub const SHEET_PAGES: [SheetPage; 3] = [SheetPage::Stats, SheetPage::Magic, SheetPage::Gear];

impl SheetPage {
    /// The page's index in tab order, as the spec sees it.
    pub open spec fn spec_index(self) -> int {
        match self {
            SheetPage::Stats => 0,
            SheetPage::Magic => 1,
            SheetPage::Gear => 2,
        }
    }

    /// The tab's word, as the spec sees it.
    pub open spec fn spec_label(self) -> Seq<char> {
        match self {
            SheetPage::Stats => "Stats"@,
            SheetPage::Magic => "Magic"@,
            SheetPage::Gear => "Gear"@,
        }
    }

    /// The tab's word.
    pub fn label(self) -> (r: &'static str)
        ensures
            r@ == self.spec_label(),
    {
        match self {
            SheetPage::Stats => "Stats",
            SheetPage::Magic => "Magic",
            SheetPage::Gear => "Gear",
        }
    }

    /// The page's index in tab order.
    pub fn index(self) -> (r: usize)
        ensures
            r == self.spec_index(),
    {
        match self {
            SheetPage::Stats => 0,
            SheetPage::Magic => 1,
            SheetPage::Gear => 2,
        }
    }
}

/// The page at a tab index.
pub open spec fn spec_page(i: int) -> SheetPage {
    if i == 0 {
        SheetPage::Stats
    } else if i == 1 {
        SheetPage::Magic
    } else {
        SheetPage::Gear
    }
}

/// A number with its sign: `+` before a number at or above zero.
pub open spec fn spec_signed(n: int) -> Seq<char> {
    if n >= 0 {
        seq!['+'] + spec_decimal(n)
    } else {
        spec_decimal(n)
    }
}

/// A number with its sign, as the sheet shows bonuses.
pub fn signed(n: i64) -> (r: String)
    ensures
        r@ == spec_signed(n as int),
{
    let mut s = String::new();
    if n >= 0 {
        push_char(&mut s, '+');
    }
    push_decimal(&mut s, n);
    proof {
        if n >= 0 {
            assert(s@ =~= seq!['+'] + spec_decimal(n as int));
        } else {
            assert(s@ =~= spec_decimal(n as int));
        }
    }
    s
}

/// The magic page.
#[derive(Debug, Default, PartialEq, Eq)]
pub struct SheetMagic {
    /// The casting ability's name, for a caster.
    pub casting: Option<String>,
    /// Spell points, current and maximum.
    pub points: (u32, u32),
    /// Spells known as `(name, cost)`; the cost is "cantrip" or "n pt".
    pub spells: Vec<(String, String)>,
    /// Effects in force on the member, then on the party, as `(spell, time left)`.
    pub effects: Vec<(String, String)>,
}

/// The gear page.
#[derive(Debug, Default, PartialEq, Eq)]
pub struct SheetGear {
    /// The four slots as `(slot, item)`; `-` when empty.
    pub slots: Vec<(String, String)>,
    /// Everything carried as `(item, count)`.
    pub carried: Vec<(String, u16)>,
}

/// One member's sheet, every number already derived.
#[derive(Debug, Default, PartialEq, Eq)]
pub struct SheetView {
    /// The name.
    pub name: String,
    /// The race's display name.
    pub race: String,
    /// The class's display name.
    pub class: String,
    /// The level.
    pub level: u8,
    /// The background's display name.
    pub background: String,
    /// The alignment as words.
    pub alignment: String,
    /// Age in years: at creation plus the party's subjective time.
    pub age_years: i64,
    /// Hit points, current and maximum.
    pub hp: (i32, i32),
    /// Spell points, current and maximum.
    pub sp: (u32, u32),
    /// Armour class.
    pub ac: i64,
    /// Proficiency bonus.
    pub proficiency: i64,
    /// Experience points.
    pub xp: u32,
    /// The next level's threshold, when there is one.
    pub next_xp: Option<i64>,
    /// The six scores as `(short name, score, modifier)`.
    pub scores: [(&'static str, u8, i64); 6],
    /// The class's two saving throws as `(short name, bonus)`.
    pub saves: Vec<(&'static str, i64)>,
    /// Proficient skills as `(name, bonus)`.
    pub skills: Vec<(String, i64)>,
    /// Conditions in effect.
    pub conditions: Vec<String>,
    /// The magic page.
    pub magic: SheetMagic,
    /// The gear page.
    pub gear: SheetGear,
}

/// Where an item is worn or wielded.
#[derive(Debug, Clone, Copy, PartialEq, Eq, Structural)]
pub enum EquipSlot {
    /// The weapon hand.
    MainHand,
    /// A shield or a second weapon.
    OffHand,
    /// A bow or a crossbow.
    Ranged,
    /// Armour.
    Body,
}

/// The slot's label on the sheet, as the spec sees it.
pub open spec fn spec_slot_label(slot: EquipSlot) -> Seq<char> {
    match slot {
        EquipSlot::MainHand => "Main hand"@,
        EquipSlot::OffHand => "Off hand"@,
        EquipSlot::Ranged => "Ranged"@,
        EquipSlot::Body => "Body"@,
    }
}

/// The slot's label on the sheet.
pub fn slot_label(slot: EquipSlot) -> (r: &'static str)
    ensures
        r@ == spec_slot_label(slot),
{
    match slot {
        EquipSlot::MainHand => "Main hand",
        EquipSlot::OffHand => "Off hand",
        EquipSlot::Ranged => "Ranged",
        EquipSlot::Body => "Body",
    }
}

/// What the sheet asks for.
#[derive(Debug, Clone, Copy, PartialEq, Eq, Structural)]
pub enum SheetIntent {
    /// Close the sheet.
    Close,
}

/// The sheet's cursor: which member, which page. Left/Right change the member, Tab or
/// Up/Down the page, Escape or P close.
#[derive(Debug, Clone, Default, PartialEq, Eq)]
pub struct SheetMenu {
    /// The member shown.
    pub member: usize,
    /// The page shown.
    pub page: SheetPage,
    /// Why the last key did nothing; empty when it did something.
    pub message: String,
}

/// A member slot kept inside a party of `members`: at most the last, zero for none.
pub open spec fn spec_clamp_member(member: int, members: int) -> int {
    let last = if members == 0 {
        0
    } else {
        members - 1
    };
    if member < last {
        member
    } else {
        last
    }
}

impl SheetMenu {
    /// Keep the member inside the party.
    pub fn sync(&mut self, members: usize)
        ensures
            final(self).member == spec_clamp_member(old(self).member as int, members as int),
            final(self).page == old(self).page,
            final(self).message == old(self).message,
    {
        let last = if members == 0 {
            0
        } else {
            members - 1
        };
        if self.member > last {
            self.member = last;
        }
    }

    /// Open on the band's selected member, or the first, kept inside the party.
    pub fn open(&mut self, selected: Option<usize>, members: usize)
        ensures
            final(self).member == spec_clamp_member(
                match selected {
                    Some(m) => m as int,
                    None => 0,
                },
                members as int,
            ),
            final(self).page == old(self).page,
            final(self).message@ == Seq::<char>::empty(),
    {
        self.member = match selected {
            Some(m) => m,
            None => 0,
        };
        self.message = String::new();
        self.sync(members);
    }

    /// A click on a row: the three tabs choose a page; any other row is the member row,
    /// whose arrows arrive as keys.
    pub fn click_row(&mut self, row: usize)
        ensures
            final(self).page == if row < 3 {
                spec_page(row as int)
            } else {
                old(self).page
            },
            final(self).member == old(self).member,
            final(self).message == old(self).message,
    {
        if row < 3 {
            self.page = SHEET_PAGES[row];
        }
    }

    /// Handle a key: Left and Right change the member round the party, Up and Down the page
    /// round the three, Tab the next page, Escape or `p` close; every key clears the message.
    pub fn key(&mut self, key: MenuKey, members: usize) -> (r: Option<SheetIntent>)
        ensures
            final(self).message@ == Seq::<char>::empty(),
            match key {
                MenuKey::Left | MenuKey::Right => final(self).member == spec_cycle(
                    old(self).member as int,
                    members as int,
                    key,
                ) && final(self).page == old(self).page && r is None,
                MenuKey::Up | MenuKey::Down => final(self).page == spec_page(
                    spec_cycle(old(self).page.spec_index(), 3, key),
                ) && final(self).member == old(self).member && r is None,
                MenuKey::Char(c) => if c == '\t' {
                    final(self).page == spec_page(
                        spec_cycle(old(self).page.spec_index(), 3, MenuKey::Right),
                    ) && final(self).member == old(self).member && r is None
                } else if c == 'p' {
                    final(self).page == old(self).page && final(self).member == old(self).member
                        && r == Some(SheetIntent::Close)
                } else {
                    final(self).page == old(self).page && final(self).member == old(self).member
                        && r is None
                },
                MenuKey::Escape => final(self).page == old(self).page && final(self).member
                    == old(self).member && r == Some(SheetIntent::Close),
                _ => final(self).page == old(self).page && final(self).member == old(self).member
                    && r is None,
            },
    {
        self.message = String::new();
        match key {
            MenuKey::Left | MenuKey::Right => self.member = cycle(self.member, members, key),
            MenuKey::Up | MenuKey::Down => {
                self.page = SHEET_PAGES[cycle(self.page.index(), 3, key)];
            },
            MenuKey::Char(c) => {
                if c == '\t' {
                    self.page = SHEET_PAGES[cycle(self.page.index(), 3, MenuKey::Right)];
                } else if c == 'p' {
                    return Some(SheetIntent::Close);
                }
            },
            MenuKey::Escape => return Some(SheetIntent::Close),
            MenuKey::Enter | MenuKey::Backspace => {},
        }
        None
    }
}

/// A member's age: the age at creation, then each whole year of 365 days (525600 minutes)
/// lived since creation; a clock behind the creation adds nothing.
pub open spec fn spec_age_years(born: u32, created_at: int, now: int) -> int {
    born as int + (if now - created_at < 0 {
        0int
    } else {
        now - created_at
    }) / 525600int
}

/// A member's age at `now`, in minutes of the party's clock.
pub fn age_years(born: u32, created_at: i64, now: i64) -> (r: i64)
    requires
        i64::MIN <= now - created_at <= i64::MAX,
    ensures
        r == spec_age_years(born, created_at as int, now as int),
{
    let lived: i64 = now - created_at;
    let lived: i64 = if lived < 0 {
        0
    } else {
        lived
    };
    born as i64 + lived / 525600
}

/// Age never goes down as the clock runs on, and a full year adds one.
pub proof fn lemma_age_grows(born: u32, created_at: int, now: int, later: int)
    requires
        now <= later,
    ensures
        spec_age_years(born, created_at, now) <= spec_age_years(born, created_at, later),
        now >= created_at ==> spec_age_years(born, created_at, now + 1440 * 365) == spec_age_years(
            born,
            created_at,
            now,
        ) + 1,
{
    let a: int = if now - created_at < 0 { 0 } else { now - created_at };
    let b: int = if later - created_at < 0 { 0 } else { later - created_at };
    vstd::arithmetic::div_mod::lemma_div_is_ordered(a, b, 525600int);
    if now >= created_at {
        vstd::arithmetic::div_mod::lemma_div_plus_one(now - created_at, 525600int);
    }
}

} // verus!
