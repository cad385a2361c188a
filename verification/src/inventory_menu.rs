//! The inventory overlay's model: one pane per member and one for the stores, the rows of a
//! pane, and the actions on the row under the cursor. Every action is an item command for
//! the simulation; the menu stays open so the player can keep sorting, and the rejection or
//! the events say what happened.

use vstd::prelude::*;
use crate::menu::{MenuKey, cycle, spec_cycle};
use crate::sheet_menu::EquipSlot;
use crate::text::push_str;

verus! {

/// One row of a pane.
#[derive(Debug, Clone, PartialEq, Eq)]
pub struct ItemRow {
    /// The display name.
    pub name: String,
    /// How many.
    pub count: u16,
    /// The slot it equips into, if any.
    pub slot: Option<EquipSlot>,
    /// Worn or wielded by the pane's member.
    pub equipped: bool,
    /// Use does something with it.
    pub usable: bool,
}

/// One pane: a member's kit, or the stores.
#[derive(Debug, Clone, PartialEq, Eq)]
pub struct Pane {
    /// The tab's text: the member's name, or `STORES`.
    pub title: String,
    /// The line under the tabs: what the member wears, or the purse and larder.
    pub summary: String,
    /// The rows, in the order the item commands index them.
    pub rows: Vec<ItemRow>,
}

/// What the overlay shows: the members in marching order, then the stores.
#[derive(Debug, Clone, Default, PartialEq, Eq)]
pub struct InventoryView {
    /// The panes.
    pub panes: Vec<Pane>,
}

impl InventoryView {
    /// How many panes are members: all but the last.
    pub fn members(&self) -> (r: usize)
        ensures
            r == (if self.panes@.len() == 0 { 0 } else { self.panes@.len() - 1 }),
    {
        if self.panes.len() == 0 {
            0
        } else {
            self.panes.len() - 1
        }
    }
}

/// What the action row offers; each has a key and a button.
#[derive(Debug, Clone, Copy, PartialEq, Eq, Structural)]
pub enum InventoryAction {
    /// Wear or wield the row, or take it off when worn.
    Equip,
    /// Use the row on the band's selected member, or its owner.
    Use,
    /// One of the row into the stores.
    Stow,
    /// One of the row from the stores to the band's selected member, or the first.
    Take,
    /// One of the row to the band's selected member.
    Give,
}

/// Every action in button order.
pub const INVENTORY_ACTIONS: [InventoryAction; 5] = [
    InventoryAction::Equip,
    InventoryAction::Use,
    InventoryAction::Stow,
    InventoryAction::Take,
    InventoryAction::Give,
];

impl InventoryAction {
    /// The key that fires it, as the spec sees it.
    pub open spec fn spec_key(self) -> char {
        match self {
            InventoryAction::Equip => 'e',
            InventoryAction::Use => 'u',
            InventoryAction::Stow => 's',
            InventoryAction::Take => 't',
            InventoryAction::Give => 'g',
        }
    }

    /// The button's text, the key first, as the spec sees it.
    pub open spec fn spec_label(self) -> Seq<char> {
        match self {
            InventoryAction::Equip => "E equip"@,
            InventoryAction::Use => "U use"@,
            InventoryAction::Stow => "S stow"@,
            InventoryAction::Take => "T take"@,
            InventoryAction::Give => "G give"@,
        }
    }

    /// The button's text, the key first.
    pub fn label(self) -> (r: &'static str)
        ensures
            r@ == self.spec_label(),
    {
        match self {
            InventoryAction::Equip => "E equip",
            InventoryAction::Use => "U use",
            InventoryAction::Stow => "S stow",
            InventoryAction::Take => "T take",
            InventoryAction::Give => "G give",
        }
    }

    /// The key that fires it.
    pub fn key(self) -> (r: char)
        ensures
            r == self.spec_key(),
    {
        match self {
            InventoryAction::Equip => 'e',
            InventoryAction::Use => 'u',
            InventoryAction::Stow => 's',
            InventoryAction::Take => 't',
            InventoryAction::Give => 'g',
        }
    }

    /// Whether the action applies to a pane and its row, as the spec sees it.
    pub open spec fn spec_applies(self, stores: bool, row: Option<ItemRow>) -> bool {
        match row {
            None => false,
            Some(row) => match self {
                InventoryAction::Take => stores,
                InventoryAction::Equip => !stores && row.slot is Some,
                InventoryAction::Use => !stores && row.usable,
                _ => !stores,
            },
        }
    }

    /// Whether the action applies to a pane and its row: the stores only take from, a kit
    /// does everything else, and the rest depends on the row.
    pub fn applies(self, stores: bool, row: Option<&ItemRow>) -> (r: bool)
        ensures
            r == self.spec_applies(
                stores,
                match row {
                    Some(x) => Some(*x),
                    None => None,
                },
            ),
    {
        match row {
            None => false,
            Some(row) => match self {
                InventoryAction::Take => stores,
                InventoryAction::Equip => !stores && row.slot.is_some(),
                InventoryAction::Use => !stores && row.usable,
                InventoryAction::Stow | InventoryAction::Give => !stores,
            },
        }
    }
}

/// The action a key fires, if any.
pub open spec fn spec_action_for(c: char) -> Option<InventoryAction> {
    if c == 'e' {
        Some(InventoryAction::Equip)
    } else if c == 'u' {
        Some(InventoryAction::Use)
    } else if c == 's' {
        Some(InventoryAction::Stow)
    } else if c == 't' {
        Some(InventoryAction::Take)
    } else if c == 'g' {
        Some(InventoryAction::Give)
    } else {
        None
    }
}

fn action_for(c: char) -> (r: Option<InventoryAction>)
    ensures
        r == spec_action_for(c),
{
    let mut i: usize = 0;
    while i < 5
        invariant
            i <= 5,
            forall|k: int| 0 <= k < i ==> INVENTORY_ACTIONS[k].spec_key() != c,
        decreases 5 - i,
    {
        if INVENTORY_ACTIONS[i].key() == c {
            return Some(INVENTORY_ACTIONS[i]);
        }
        i = i + 1;
    }
    None
}

/// An item command for the simulation.
#[derive(Debug, Clone, Copy, PartialEq, Eq, Structural)]
pub enum ItemCommand {
    /// Wear or wield a member's row.
    Equip {
        /// The member's slot.
        member: u8,
        /// The row.
        item: u8,
    },
    /// Take off what a member wears in a slot.
    Unequip {
        /// The member's slot.
        member: u8,
        /// The equipment slot.
        slot: EquipSlot,
    },
    /// Use a member's row, on a target or the owner.
    Use {
        /// The member's slot.
        member: u8,
        /// The row.
        item: u8,
        /// The member it is used on.
        target: Option<u8>,
    },
    /// Put some of a member's row into the stores.
    Stow {
        /// The member's slot.
        member: u8,
        /// The row.
        item: u8,
        /// How many.
        count: u16,
    },
    /// Take some of a stores row to a member.
    Take {
        /// The member's slot.
        member: u8,
        /// The stores' row.
        item: u8,
        /// How many.
        count: u16,
    },
    /// Hand some of a member's row to another.
    Give {
        /// The giver's slot.
        from: u8,
        /// The taker's slot.
        to: u8,
        /// The row.
        item: u8,
        /// How many.
        count: u16,
    },
}

/// What the overlay asks for.
#[derive(Debug, Clone, Copy, PartialEq, Eq, Structural)]
pub enum InventoryIntent {
    /// An item command; the overlay stays open.
    Command(ItemCommand),
    /// Close the overlay.
    Close,
}

/// The overlay: Left/Right or Tab change the pane, Up/Down the row, a letter or Enter acts,
/// Escape or `i` closes.
#[derive(Debug, Clone, Default, PartialEq, Eq)]
pub struct InventoryMenu {
    /// The pane shown.
    pub pane: usize,
    /// The row under the cursor.
    pub cursor: usize,
    /// How many panes the last view had, so a click knows where the rows start.
    pub panes: usize,
    /// Why the last action did nothing; empty when it did something.
    pub message: String,
}

/// A number as the commands want it: past the last `u8` is the last.
pub open spec fn spec_u8(n: int) -> u8 {
    if n <= 255 {
        n as u8
    } else {
        255
    }
}

fn to_u8(n: usize) -> (r: u8)
    ensures
        r == spec_u8(n as int),
{
    if n <= 255 {
        n as u8
    } else {
        255
    }
}

/// How many rows the pane shown has; none past the panes.
pub open spec fn spec_rows(pane: usize, view: InventoryView) -> int {
    if pane < view.panes@.len() {
        view.panes@[pane as int].rows@.len() as int
    } else {
        0
    }
}

/// The row under the cursor, if any.
pub open spec fn spec_row(pane: usize, cursor: usize, view: InventoryView) -> Option<ItemRow> {
    if pane < view.panes@.len() && cursor < view.panes@[pane as int].rows@.len() {
        Some(view.panes@[pane as int].rows@[cursor as int])
    } else {
        None
    }
}

/// What Enter does on the row: take from the stores; wear, use, or stow from a kit.
pub open spec fn spec_primary(pane: usize, cursor: usize, view: InventoryView) -> InventoryAction {
    if pane + 1 == view.panes@.len() {
        InventoryAction::Take
    } else {
        match spec_row(pane, cursor, view) {
            Some(row) => if row.slot is Some {
                InventoryAction::Equip
            } else if row.usable {
                InventoryAction::Use
            } else {
                InventoryAction::Stow
            },
            None => InventoryAction::Stow,
        }
    }
}

/// What an action on the row gives: the command, or none and the message why.
pub open spec fn spec_act(
    pane: usize,
    cursor: usize,
    action: InventoryAction,
    view: InventoryView,
    selected: Option<usize>,
) -> (Option<InventoryIntent>, Seq<char>) {
    let stores = pane + 1 == view.panes@.len();
    match spec_row(pane, cursor, view) {
        None => (None, "Nothing here"@),
        Some(row) => if !action.spec_applies(stores, Some(row)) {
            (
                None,
                if action == InventoryAction::Take {
                    "Take is for the stores; Give hands things over"@
                } else if stores {
                    "Take it to a member first"@
                } else if action == InventoryAction::Equip {
                    row.name@ + " cannot be worn or wielded"@
                } else if action == InventoryAction::Use {
                    row.name@ + " does nothing when used"@
                } else {
                    "Nothing to do"@
                },
            )
        } else {
            let member = spec_u8(pane as int);
            let item = spec_u8(cursor as int);
            let target = match selected {
                Some(s) => Some(spec_u8(s as int)),
                None => None,
            };
            match action {
                InventoryAction::Equip => (
                    Some(
                        InventoryIntent::Command(
                            if row.equipped && row.slot is Some {
                                ItemCommand::Unequip { member, slot: row.slot->0 }
                            } else {
                                ItemCommand::Equip { member, item }
                            },
                        ),
                    ),
                    Seq::empty(),
                ),
                InventoryAction::Use => (
                    Some(InventoryIntent::Command(ItemCommand::Use { member, item, target })),
                    Seq::empty(),
                ),
                InventoryAction::Stow => (
                    Some(InventoryIntent::Command(ItemCommand::Stow { member, item, count: 1 })),
                    Seq::empty(),
                ),
                InventoryAction::Take => if view.panes@.len() <= 1 {
                    (None, "Nobody to take it"@)
                } else {
                    (
                        Some(
                            InventoryIntent::Command(
                                ItemCommand::Take {
                                    member: match target {
                                        Some(t) => t,
                                        None => 0,
                                    },
                                    item,
                                    count: 1,
                                },
                            ),
                        ),
                        Seq::empty(),
                    )
                },
                InventoryAction::Give => match target {
                    Some(to) if to != member => (
                        Some(InventoryIntent::Command(ItemCommand::Give { from: member, to, item, count: 1 })),
                        Seq::empty(),
                    ),
                    _ => (None, "Click another member on the band to give to"@),
                },
            }
        },
    }
}

impl InventoryMenu {
    /// Open on the band's selected member, or the first pane.
    pub fn open(&mut self, selected: Option<usize>, members: usize)
        ensures
            final(self).pane == match selected {
                Some(s) => if s < members {
                    s
                } else {
                    0
                },
                None => 0,
            },
            final(self).cursor == 0,
            final(self).panes == old(self).panes,
            final(self).message@ == Seq::<char>::empty(),
    {
        self.pane = match selected {
            Some(s) => if s < members {
                s
            } else {
                0
            },
            None => 0,
        };
        self.cursor = 0;
        self.message = String::new();
    }

    /// Keep the pane and the cursor on what the view has.
    pub fn sync(&mut self, view: &InventoryView)
        ensures
            final(self).panes == view.panes@.len(),
            final(self).pane == crate::debug_menu::spec_keep(old(self).pane, view.panes@.len() as int),
            final(self).cursor == crate::debug_menu::spec_keep(old(self).cursor, spec_rows(final(self).pane, *view)),
            final(self).message == old(self).message,
    {
        self.panes = view.panes.len();
        let last = if self.panes == 0 {
            0
        } else {
            self.panes - 1
        };
        if self.pane > last {
            self.pane = last;
        }
        let rows = if self.pane < view.panes.len() {
            view.panes[self.pane].rows.len()
        } else {
            0
        };
        let last_row = if rows == 0 {
            0
        } else {
            rows - 1
        };
        if self.cursor > last_row {
            self.cursor = last_row;
        }
    }

    /// A click on a widget row: the tabs come first, then the rows of the pane. A tab other
    /// than the shown one moves to its pane's first row.
    pub fn click_row(&mut self, row: usize)
        ensures
            row < old(self).panes ==> final(self).pane == row && final(self).cursor == (if old(self).pane
                == row {
                old(self).cursor
            } else {
                0
            }),
            row >= old(self).panes ==> final(self).pane == old(self).pane && final(self).cursor == row
                - old(self).panes,
            final(self).panes == old(self).panes,
            final(self).message == old(self).message,
    {
        if row < self.panes {
            if self.pane != row {
                self.pane = row;
                self.cursor = 0;
            }
        } else {
            self.cursor = row - self.panes;
        }
    }

    /// Whether the pane shown is the stores: the last.
    pub fn stores(&self, view: &InventoryView) -> (r: bool)
        ensures
            r == (self.pane + 1 == view.panes@.len()),
    {
        self.pane < view.panes.len() && self.pane + 1 == view.panes.len()
    }

    /// The row under the cursor.
    pub fn row<'a>(&self, view: &'a InventoryView) -> (r: Option<&'a ItemRow>)
        ensures
            match r {
                Some(x) => spec_row(self.pane, self.cursor, *view) == Some(*x),
                None => spec_row(self.pane, self.cursor, *view) is None,
            },
    {
        if self.pane < view.panes.len() && self.cursor < view.panes[self.pane].rows.len() {
            Some(&view.panes[self.pane].rows[self.cursor])
        } else {
            None
        }
    }

    fn primary(&self, view: &InventoryView) -> (r: InventoryAction)
        ensures
            r == spec_primary(self.pane, self.cursor, *view),
    {
        if self.stores(view) {
            return InventoryAction::Take;
        }
        match self.row(view) {
            Some(row) => if row.slot.is_some() {
                InventoryAction::Equip
            } else if row.usable {
                InventoryAction::Use
            } else {
                InventoryAction::Stow
            },
            None => InventoryAction::Stow,
        }
    }

    fn act(&mut self, action: InventoryAction, view: &InventoryView, selected: Option<usize>) -> (r: Option<InventoryIntent>)
        ensures
            (r, final(self).message@) == spec_act(old(self).pane, old(self).cursor, action, *view, selected),
            final(self).pane == old(self).pane,
            final(self).cursor == old(self).cursor,
            final(self).panes == old(self).panes,
    {
        self.message = String::new();
        let stores = self.stores(view);
        let row = match self.row(view) {
            Some(row) => row,
            None => {
                self.message = "Nothing here".to_owned();
                return None;
            },
        };
        if !action.applies(stores, Some(row)) {
            self.message = match action {
                InventoryAction::Take => "Take is for the stores; Give hands things over".to_owned(),
                _ => if stores {
                    "Take it to a member first".to_owned()
                } else {
                    match action {
                        InventoryAction::Equip => {
                            let mut m = row.name.clone();
                            push_str(&mut m, " cannot be worn or wielded");
                            m
                        },
                        InventoryAction::Use => {
                            let mut m = row.name.clone();
                            push_str(&mut m, " does nothing when used");
                            m
                        },
                        _ => "Nothing to do".to_owned(),
                    }
                },
            };
            return None;
        }
        let member = to_u8(self.pane);
        let item = to_u8(self.cursor);
        let target = match selected {
            Some(s) => Some(to_u8(s)),
            None => None,
        };
        let command = match action {
            InventoryAction::Equip => if row.equipped && row.slot.is_some() {
                ItemCommand::Unequip { member, slot: row.slot.unwrap() }
            } else {
                ItemCommand::Equip { member, item }
            },
            InventoryAction::Use => ItemCommand::Use { member, item, target },
            InventoryAction::Stow => ItemCommand::Stow { member, item, count: 1 },
            InventoryAction::Take => {
                if view.members() == 0 {
                    self.message = "Nobody to take it".to_owned();
                    return None;
                }
                ItemCommand::Take {
                    member: match target {
                        Some(t) => t,
                        None => 0,
                    },
                    item,
                    count: 1,
                }
            },
            InventoryAction::Give => match target {
                Some(to) => if to != member {
                    ItemCommand::Give { from: member, to, item, count: 1 }
                } else {
                    self.message = "Click another member on the band to give to".to_owned();
                    return None;
                },
                None => {
                    self.message = "Click another member on the band to give to".to_owned();
                    return None;
                },
            },
        };
        Some(InventoryIntent::Command(command))
    }

    /// Handle a key; `selected` is the band's selected member. Up and Down move round the
    /// pane's rows, Left/Right round the panes and Tab to the next (each back to the first
    /// row), Escape or `i` close, Enter does the row's primary action, an action's key does
    /// it.
    pub fn key(&mut self, key: MenuKey, view: &InventoryView, selected: Option<usize>) -> (r: Option<InventoryIntent>)
        ensures
            final(self).panes == old(self).panes,
            match key {
                MenuKey::Up | MenuKey::Down => final(self).cursor == spec_cycle(
                    old(self).cursor as int,
                    spec_rows(old(self).pane, *view),
                    key,
                ) && final(self).pane == old(self).pane && final(self).message == old(self).message
                    && r is None,
                MenuKey::Left | MenuKey::Right => final(self).pane == spec_cycle(
                    old(self).pane as int,
                    view.panes@.len() as int,
                    key,
                ) && final(self).cursor == 0 && final(self).message == old(self).message && r is None,
                MenuKey::Escape => final(self).pane == old(self).pane && final(self).cursor
                    == old(self).cursor && final(self).message == old(self).message && r == Some(
                    InventoryIntent::Close,
                ),
                MenuKey::Enter => final(self).pane == old(self).pane && final(self).cursor
                    == old(self).cursor && (r, final(self).message@) == spec_act(
                    old(self).pane,
                    old(self).cursor,
                    spec_primary(old(self).pane, old(self).cursor, *view),
                    *view,
                    selected,
                ),
                MenuKey::Char(c) => if c == '\t' {
                    final(self).pane == spec_cycle(old(self).pane as int, view.panes@.len() as int, MenuKey::Right)
                        && final(self).cursor == 0 && final(self).message == old(self).message && r is None
                } else if c == 'i' {
                    final(self).pane == old(self).pane && final(self).cursor == old(self).cursor
                        && final(self).message == old(self).message && r == Some(InventoryIntent::Close)
                } else {
                    match spec_action_for(c) {
                        Some(action) => final(self).pane == old(self).pane && final(self).cursor
                            == old(self).cursor && (r, final(self).message@) == spec_act(
                            old(self).pane,
                            old(self).cursor,
                            action,
                            *view,
                            selected,
                        ),
                        None => final(self).pane == old(self).pane && final(self).cursor
                            == old(self).cursor && final(self).message == old(self).message && r is None,
                    }
                },
                MenuKey::Backspace => final(self).pane == old(self).pane && final(self).cursor
                    == old(self).cursor && final(self).message == old(self).message && r is None,
            },
    {
        let rows = if self.pane < view.panes.len() {
            view.panes[self.pane].rows.len()
        } else {
            0
        };
        match key {
            MenuKey::Up | MenuKey::Down => {
                self.cursor = cycle(self.cursor, rows, key);
                None
            },
            MenuKey::Left | MenuKey::Right => {
                self.pane = cycle(self.pane, view.panes.len(), key);
                self.cursor = 0;
                None
            },
            MenuKey::Escape => Some(InventoryIntent::Close),
            MenuKey::Enter => {
                let action = self.primary(view);
                self.act(action, view, selected)
            },
            MenuKey::Char(c) => {
                if c == '\t' {
                    self.pane = cycle(self.pane, view.panes.len(), MenuKey::Right);
                    self.cursor = 0;
                    None
                } else if c == 'i' {
                    Some(InventoryIntent::Close)
                } else {
                    match action_for(c) {
                        Some(action) => self.act(action, view, selected),
                        None => None,
                    }
                }
            },
            MenuKey::Backspace => None,
        }
    }
}

/// What an item command names: a take goes from the stores' row under the cursor to the
/// band's selected member, or to the first member when none is selected (a member who is
/// there: there is at least one besides the stores); a stow, a use, a wear and a give act on
/// the cursor's row of the member whose pane is open, a use on the selected member or the
/// owner, a give to the selected member and never back to the giver; and every command
/// moves one.
pub proof fn lemma_commands_name_their_member_and_row(
    pane: usize,
    cursor: usize,
    action: InventoryAction,
    view: InventoryView,
    selected: Option<usize>,
)
    ensures
        ({
            let r = spec_act(pane, cursor, action, view, selected).0;
            let here = if pane <= 255 { pane as u8 } else { 255u8 };
            let row_at = if cursor <= 255 { cursor as u8 } else { 255u8 };
            let chosen = match selected {
                Some(s) => Some(if s <= 255 { s as u8 } else { 255u8 }),
                None => None,
            };
            &&& r matches Some(InventoryIntent::Command(ItemCommand::Take { member, item, count })) ==> {
                &&& action == InventoryAction::Take
                &&& pane + 1 == view.panes@.len()
                &&& item == row_at && count == 1
                &&& selected is None ==> member == 0 && (member as int) < view.panes@.len() - 1
                &&& selected matches Some(s) ==> Some(member) == chosen
            }
            &&& r matches Some(InventoryIntent::Command(ItemCommand::Stow { member, item, count })) ==> {
                &&& action == InventoryAction::Stow
                &&& pane + 1 < view.panes@.len()
                &&& member == here && item == row_at && count == 1
            }
            &&& r matches Some(InventoryIntent::Command(ItemCommand::Use { member, item, target })) ==> {
                &&& action == InventoryAction::Use
                &&& pane + 1 < view.panes@.len()
                &&& member == here && item == row_at && target == chosen
            }
            &&& r matches Some(InventoryIntent::Command(ItemCommand::Equip { member, item })) ==> {
                &&& action == InventoryAction::Equip
                &&& pane + 1 < view.panes@.len()
                &&& member == here && item == row_at
            }
            &&& r matches Some(InventoryIntent::Command(ItemCommand::Unequip { member, slot })) ==> {
                &&& action == InventoryAction::Equip
                &&& member == here
                &&& spec_row(pane, cursor, view) matches Some(row) && row.equipped && row.slot == Some(slot)
            }
            &&& r matches Some(InventoryIntent::Command(ItemCommand::Give { from, to, item, count })) ==> {
                &&& action == InventoryAction::Give
                &&& pane + 1 < view.panes@.len()
                &&& from == here && item == row_at && count == 1
                &&& Some(to) == chosen && to != from
            }
            &&& r !is Some || r matches Some(InventoryIntent::Command(_))
        }),
{
}

} // verus!
