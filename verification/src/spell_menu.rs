//! Spells as the menus list them: a spell row of the fight's picker and its note, and the
//! cast menu outside a fight with its keys and its screen.

use vstd::prelude::*;
use crate::font::{fit, spec_fit};
use crate::menu::{MenuKey, cycle, spec_cycle};
use crate::raster::Ink;
use crate::screens::{
    ItemState, item_state, label, origin_near, spec_item_inks, spec_item_widget, spec_row_rect,
};
use crate::sheet_screen::{spec_label, spec_min};
use crate::text::{push_decimal, push_padded_left, push_padded_right, push_str, spec_decimal, spec_pad_left, spec_pad_right};
use crate::widget::{DIM, Frame, HI, Kind, Widget, WidgetId, lemma_frame_then};

verus! {

/// One spell the acting member knows, as the picker shows it.
#[derive(Debug, Clone, PartialEq, Eq)]
pub struct SpellRow {
    /// Its index in the caster's list, the number `cast` takes.
    pub index: u8,
    /// The spell's name.
    pub name: String,
    /// Points it costs.
    pub cost: u32,
    /// Aimed at a member rather than a stack.
    pub targets_members: bool,
    /// For a reaction spell, whether the caster casts it on their own.
    pub auto: Option<bool>,
    /// Whether an effect of this spell by this caster is in force.
    pub active: bool,
    /// Why it cannot be cast now, in a few words.
    pub blocked: Option<String>,
}

impl SpellRow {
    /// The note after the cost, as the spec sees it.
    pub open spec fn spec_note(&self) -> Seq<char> {
        match self.auto {
            Some(on) => "auto: "@ + if on {
                "on"@
            } else {
                "off"@
            },
            None => match self.blocked {
                Some(why) => why@,
                None => if self.active {
                    "in force"@
                } else {
                    Seq::empty()
                },
            },
        }
    }

    /// The note after the cost: the auto-cast switch, the reason it is grey, or that it is
    /// in force.
    pub fn note(&self) -> (r: String)
        ensures
            r@ == self.spec_note(),
    {
        match self.auto {
            Some(on) => {
                let mut s = "auto: ".to_owned();
                push_str(&mut s, if on { "on" } else { "off" });
                proof {
                    reveal_strlit("auto: ");
                    reveal_strlit("on");
                    reveal_strlit("off");
                }
                s
            },
            None => match &self.blocked {
                Some(why) => why.clone(),
                None => if self.active {
                    "in force".to_owned()
                } else {
                    String::new()
                },
            },
        }
    }
}

/// One spell a member can cast while exploring, as the cast menu lists it.
#[derive(Debug, Clone, PartialEq, Eq)]
pub struct CastRow {
    /// The caster's slot.
    pub caster: u8,
    /// The caster's name.
    pub caster_name: String,
    /// The spell's index in the caster's list.
    pub spell: u8,
    /// The spell's name.
    pub name: String,
    /// Points it costs.
    pub cost: u32,
    /// Aimed at a member (the band's selected one), else at the caster.
    pub targets_members: bool,
    /// Why it cannot be cast now, in a few words.
    pub blocked: Option<String>,
}

/// Whom a spell is cast at.
#[derive(Debug, Clone, Copy, PartialEq, Eq, Structural)]
pub enum Target {
    /// A member of the party, by slot.
    Member(u8),
    /// A stack of the fight, by index.
    Stack(u8),
}

/// What the cast menu asks for.
#[derive(Debug, Clone, Copy, PartialEq, Eq, Structural)]
pub enum CastIntent {
    /// A cast.
    Cast {
        /// The caster's slot.
        caster: u8,
        /// The spell's index in the caster's list.
        spell: u8,
        /// Whom it is cast at.
        target: Target,
    },
    /// Close the menu.
    Close,
}

/// The cast menu outside a fight: Up/Down choose a row, Enter casts it at the band's
/// selected member (or the caster), Escape closes.
#[derive(Debug, Clone, Default, PartialEq, Eq)]
pub struct CastMenu {
    /// The row under the cursor.
    pub cursor: usize,
    /// Why the last confirmation did nothing; empty when it did something.
    pub message: String,
}

/// What confirming the row under the cursor gives: the cast, or none and the message why.
pub open spec fn spec_cast_confirm(rows: Seq<CastRow>, cursor: int, selected: Option<usize>) -> (
    Option<CastIntent>,
    Seq<char>,
) {
    if cursor >= rows.len() {
        (None, "Nobody can cast anything here"@)
    } else {
        let row = rows[cursor];
        match row.blocked {
            Some(why) => (None, row.name@ + ": "@ + why@),
            None => if row.targets_members {
                match selected {
                    Some(member) => (
                        Some(
                            CastIntent::Cast {
                                caster: row.caster,
                                spell: row.spell,
                                target: Target::Member(if member <= 255 { member as u8 } else { 255 }),
                            },
                        ),
                        Seq::empty(),
                    ),
                    None => (None, "Select a member to cast "@ + row.name@ + " on"@),
                }
            } else {
                (
                    Some(CastIntent::Cast { caster: row.caster, spell: row.spell, target: Target::Member(row.caster) }),
                    Seq::empty(),
                )
            },
        }
    }
}

impl CastMenu {
    /// Keep the cursor on a row: at most the last, zero for none.
    pub fn sync(&mut self, rows: &[CastRow])
        ensures
            final(self).cursor == crate::debug_menu::spec_keep(old(self).cursor, rows@.len() as int),
            final(self).message == old(self).message,
    {
        let last = if rows.len() == 0 {
            0
        } else {
            rows.len() - 1
        };
        if self.cursor > last {
            self.cursor = last;
        }
    }

    fn confirm(&mut self, rows: &[CastRow], selected: Option<usize>) -> (r: Option<CastIntent>)
        ensures
            (r, final(self).message@) == spec_cast_confirm(rows@, old(self).cursor as int, selected),
            final(self).cursor == old(self).cursor,
    {
        self.message = String::new();
        proof {
            reveal_strlit(": ");
            reveal_strlit(" on");
        }
        if self.cursor >= rows.len() {
            self.message = "Nobody can cast anything here".to_owned();
            return None;
        }
        let row = &rows[self.cursor];
        match &row.blocked {
            Some(why) => {
                let mut m = row.name.clone();
                push_str(&mut m, ": ");
                push_str(&mut m, why.as_str());
                self.message = m;
                None
            },
            None => if row.targets_members {
                match selected {
                    Some(member) => Some(
                        CastIntent::Cast {
                            caster: row.caster,
                            spell: row.spell,
                            target: Target::Member(if member <= 255 { member as u8 } else { 255 }),
                        },
                    ),
                    None => {
                        let mut m = "Select a member to cast ".to_owned();
                        push_str(&mut m, row.name.as_str());
                        push_str(&mut m, " on");
                        self.message = m;
                        None
                    },
                }
            } else {
                Some(CastIntent::Cast { caster: row.caster, spell: row.spell, target: Target::Member(row.caster) })
            },
        }
    }

    /// Handle a key: Up and Down move round the rows, Enter casts the row, Escape or `c`
    /// close, anything else does nothing.
    pub fn key(&mut self, key: MenuKey, rows: &[CastRow], selected: Option<usize>) -> (r: Option<CastIntent>)
        ensures
            match key {
                MenuKey::Up | MenuKey::Down => final(self).cursor == spec_cycle(
                    old(self).cursor as int,
                    rows@.len() as int,
                    key,
                ) && final(self).message == old(self).message && r is None,
                MenuKey::Enter => final(self).cursor == old(self).cursor && (r, final(self).message@)
                    == spec_cast_confirm(rows@, old(self).cursor as int, selected),
                MenuKey::Escape => final(self).cursor == old(self).cursor && final(self).message
                    == old(self).message && r == Some(CastIntent::Close),
                MenuKey::Char(c) => final(self).cursor == old(self).cursor && final(self).message
                    == old(self).message && r == if c == 'c' {
                    Some(CastIntent::Close)
                } else {
                    None
                },
                _ => final(self).cursor == old(self).cursor && final(self).message == old(self).message
                    && r is None,
            },
    {
        match key {
            MenuKey::Up | MenuKey::Down => {
                self.cursor = cycle(self.cursor, rows.len(), key);
                None
            },
            MenuKey::Enter => self.confirm(rows, selected),
            MenuKey::Escape => Some(CastIntent::Close),
            MenuKey::Char(c) => if c == 'c' {
                Some(CastIntent::Close)
            } else {
                None
            },
            _ => None,
        }
    }
}

/// A cast row's text: the caster, the spell, the cost, the note.
pub open spec fn spec_cast_text(row: CastRow) -> Seq<char> {
    spec_pad_right(spec_fit(row.caster_name@, 12), 12) + " "@ + spec_pad_right(spec_fit(row.name@, 18), 18)
        + " "@ + spec_pad_left(spec_decimal(spec_min(row.cost as int, 99)), 2) + " pt  "@ + spec_fit(
        match row.blocked {
            Some(b) => b@,
            None => Seq::empty(),
        },
        16,
    )
}

/// A cast row's state: dim when blocked, else selected at the cursor.
pub open spec fn spec_cast_state(row: CastRow, cursor: int, i: int) -> ItemState {
    if row.blocked is Some {
        ItemState::Disabled
    } else if cursor == i {
        ItemState::Selected
    } else {
        ItemState::Normal
    }
}

/// The first `n` cast rows' paints.
pub open spec fn spec_cast_rows(rows: Seq<CastRow>, cursor: int, n: int) -> Seq<Ink>
    decreases n,
{
    if n <= 0 {
        Seq::empty()
    } else {
        spec_cast_rows(rows, cursor, n - 1) + spec_item_inks(
            spec_row_rect(1, 3 + n - 1, 158),
            spec_cast_text(rows[n - 1]),
            spec_cast_state(rows[n - 1], cursor, n - 1),
        )
    }
}

/// The first `n` cast rows' widgets.
pub open spec fn spec_cast_widgets(rows: Seq<CastRow>, cursor: int, n: int) -> Seq<Widget> {
    Seq::new(
        n as nat,
        |i: int|
            spec_item_widget(
                WidgetId::Row(i as usize),
                Kind::Button,
                spec_row_rect(1, 3 + i, 158),
                spec_cast_text(rows[i]),
                spec_cast_state(rows[i], cursor, i),
            ),
    )
}

/// The cast screen's paints: the header, a word when nobody can cast, the first twelve rows.
pub open spec fn spec_cast_screen(rows: Seq<CastRow>, cursor: int) -> Seq<Ink> {
    seq![spec_label(1, 1, "CAST"@, HI)] + (if rows.len() == 0 {
        seq![spec_label(1, 3, "Nobody knows a spell for the road."@, DIM)]
    } else {
        Seq::empty()
    }) + spec_cast_rows(rows, cursor, spec_min(rows.len() as int, 12))
}

fn cast_text(row: &CastRow) -> (r: String)
    ensures
        r@ == spec_cast_text(*row),
        r@.len() <= 100,
{
    let mut s = String::new();
    let caster = fit(row.caster_name.as_str(), 12);
    push_padded_right(&mut s, caster.as_str(), 12);
    push_str(&mut s, " ");
    let name = fit(row.name.as_str(), 18);
    push_padded_right(&mut s, name.as_str(), 18);
    push_str(&mut s, " ");
    let cost: i64 = if row.cost < 99 {
        row.cost as i64
    } else {
        99
    };
    let mut d = String::new();
    push_decimal(&mut d, cost);
    push_padded_left(&mut s, d.as_str(), 2);
    push_str(&mut s, " pt  ");
    let note = match &row.blocked {
        Some(b) => fit(b.as_str(), 16),
        None => fit("", 16),
    };
    push_str(&mut s, note.as_str());
    proof {
        reveal_strlit("");
        reveal_strlit(" ");
        reveal_strlit(" pt  ");
        assert(spec_fit(Seq::<char>::empty(), 16) =~= Seq::<char>::empty());
        assert(s@ =~= spec_cast_text(*row));
        if cost >= 10 {
            assert(crate::text::spec_digits((cost / 10) as nat).len() == 1);
        }
        assert(d@.len() <= 2);
        assert(spec_pad_right(caster@, 12).len() == 12);
        assert(spec_pad_right(name@, 18).len() == 18);
        assert(spec_pad_left(d@, 2).len() == 2);
    }
    s
}

/// The cast menu painted in the menu box: a header, one row per castable spell (twelve at
/// most), a word when there is none.
pub fn cast_screen(frame: &mut Frame, menu: &CastMenu, rows: &[CastRow])
    requires
        old(frame).wf(),
        origin_near(*old(frame)),
    ensures
        Frame::painted(
            *old(frame),
            *final(frame),
            spec_cast_screen(rows@, menu.cursor as int),
            spec_cast_widgets(rows@, menu.cursor as int, spec_min(rows@.len() as int, 12)),
        ),
{
    let ghost f0 = *frame;
    label(frame, 1, 1, "CAST", HI);
    let ghost head0 = seq![spec_label(1, 1, "CAST"@, HI)];
    if rows.len() == 0 {
        let ghost before = *frame;
        label(frame, 1, 3, "Nobody knows a spell for the road.", DIM);
        proof {
            lemma_frame_then(
                f0,
                before,
                *frame,
                head0,
                Seq::empty(),
                seq![spec_label(1, 3, "Nobody knows a spell for the road."@, DIM)],
                Seq::empty(),
            );
            assert(Seq::<Widget>::empty() + Seq::<Widget>::empty() =~= Seq::<Widget>::empty());
        }
    }
    let ghost head = head0 + (if rows@.len() == 0 {
        seq![spec_label(1, 3, "Nobody knows a spell for the road."@, DIM)]
    } else {
        Seq::<Ink>::empty()
    });
    proof {
        if rows@.len() != 0 {
            assert(head =~= head0);
        }
        assert(head + spec_cast_rows(rows@, menu.cursor as int, 0) =~= head);
        assert(spec_cast_widgets(rows@, menu.cursor as int, 0) =~= Seq::<Widget>::empty());
    }
    let n = if rows.len() < 12 {
        rows.len()
    } else {
        12
    };
    let mut i: usize = 0;
    while i < n
        invariant
            i <= n,
            n == spec_min(rows@.len() as int, 12),
            frame.raster.origin == f0.raster.origin,
            origin_near(f0),
            Frame::painted(
                f0,
                *frame,
                head + spec_cast_rows(rows@, menu.cursor as int, i as int),
                spec_cast_widgets(rows@, menu.cursor as int, i as int),
            ),
        decreases n - i,
    {
        let ghost before = *frame;
        let row = &rows[i];
        let text = cast_text(row);
        let state = if row.blocked.is_some() {
            ItemState::Disabled
        } else {
            ItemState::from_selected(menu.cursor == i)
        };
        item_state(frame, WidgetId::Row(i), Kind::Button, (1, 3 + i as i32), text.as_str(), 158, state);
        proof {
            let rect = spec_row_rect(1, 3 + i, 158);
            let w = spec_item_widget(WidgetId::Row(i), Kind::Button, rect, text@, state);
            lemma_frame_then(
                f0,
                before,
                *frame,
                head + spec_cast_rows(rows@, menu.cursor as int, i as int),
                spec_cast_widgets(rows@, menu.cursor as int, i as int),
                spec_item_inks(rect, text@, state),
                seq![w],
            );
            assert(head + spec_cast_rows(rows@, menu.cursor as int, i as int) + spec_item_inks(rect, text@, state)
                =~= head + spec_cast_rows(rows@, menu.cursor as int, i + 1));
            assert(spec_cast_widgets(rows@, menu.cursor as int, i as int) + seq![w] =~= spec_cast_widgets(
                rows@,
                menu.cursor as int,
                i + 1,
            ));
        }
        i = i + 1;
    }
}

} // verus!
