//! The debug menu painted in the menu box: a header, one row per editable thing with `<`
//! and `>` around the field the mouse can push, and a help line.

use vstd::prelude::*;
use crate::debug_menu::{DebugMenu, DebugView, spec_has_text};
use crate::font::{fit, spec_fit};
use crate::raster::Ink;
use crate::screens::{
    ItemState, item_state, label, label_right, origin_near, spec_item_inks, spec_item_widget,
    spec_right_column, spec_row_rect,
};
use crate::sheet_screen::spec_label;
use crate::text::{push_decimal, push_str, spec_decimal};
use crate::widget::{DIM, Frame, HI, Kind, Widget, WidgetId, lemma_frame_then};

verus! {

/// The ability names the score row shows, in SRD order.
pub const ABILITY_SHORT: [&'static str; 6] = ["STR", "DEX", "CON", "INT", "WIS", "CHA"];
/// The four facings the map row cycles, as the model orders them.
pub const FACING_WORDS: [&'static str; 4] = ["north", "east", "south", "west"];
/// The help line under the rows.
pub const DEBUG_HELP: &'static str = "Up/Down row  Left/Right 1  -/+ 10  [/] 100  Tab field  Enter act  Esc close";

/// `<text>` when the field is under the cursor, else ` text `.
pub open spec fn spec_field(text: Seq<char>, chosen: bool) -> Seq<char> {
    if chosen {
        seq!['<'] + text + seq!['>']
    } else {
        seq![' '] + text + seq![' ']
    }
}

/// `<text>` when the field is under the cursor, else ` text `.
pub fn field(text: &str, chosen: bool) -> (r: String)
    ensures
        r@ == spec_field(text@, chosen),
{
    let mut s = String::new();
    push_str(&mut s, if chosen { "<" } else { " " });
    push_str(&mut s, text);
    push_str(&mut s, if chosen { ">" } else { " " });
    proof {
        reveal_strlit("<");
        reveal_strlit(">");
        reveal_strlit(" ");
        assert(s@ =~= spec_field(text@, chosen));
    }
    s
}

/// A number as a field.
fn number_field(n: i64, chosen: bool) -> (r: String)
    ensures
        r@ == spec_field(spec_decimal(n as int), chosen),
{
    let mut d = String::new();
    push_decimal(&mut d, n);
    field(d.as_str(), chosen)
}

/// Whether field `f` of a row is bracketed: the cursor's field on the cursor's row, the
/// first field on every other row.
pub open spec fn spec_on(menu: DebugMenu, row: int, f: int) -> bool {
    if menu.row == row {
        menu.field == f
    } else {
        f == 0
    }
}

/// The smaller of two.
pub open spec fn spec_min(a: int, b: int) -> int {
    if a < b {
        a
    } else {
        b
    }
}

/// The text of one row: the field under the cursor is bracketed, and on every other row the
/// first field is, so a click on its arrow has something to hit. The member rows are blank
/// without a member; a missing choice shows `?`.
pub open spec fn spec_row_text(menu: DebugMenu, view: DebugView, row: int) -> Seq<char> {
    let present = menu.member < view.members@.len();
    let m = view.members@[menu.member as int];
    let on0 = spec_on(menu, row, 0);
    let on1 = spec_on(menu, row, 1);
    if row == 0 {
        "Member   "@ + spec_field(if present { m.name@ } else { "nobody"@ }, on0)
    } else if row == 1 {
        if present {
            "HP       "@ + spec_field(spec_decimal(m.hp.0 as int), on0) + " / "@ + spec_decimal(m.hp.1 as int)
        } else {
            Seq::empty()
        }
    } else if row == 2 {
        if present {
            "SP       "@ + spec_field(spec_decimal(m.sp.0 as int), on0) + " / "@ + spec_decimal(m.sp.1 as int)
        } else {
            Seq::empty()
        }
    } else if row == 3 {
        if present {
            "XP       "@ + spec_field(spec_decimal(m.xp as int), on0)
        } else {
            Seq::empty()
        }
    } else if row == 4 {
        if present {
            let a = spec_min(menu.ability as int, 5);
            "Score    "@ + spec_field(ABILITY_SHORT[a]@, on0) + "  "@ + spec_field(
                spec_decimal(m.scores[a] as int),
                on1,
            ) + "   (hp max unchanged)"@
        } else {
            Seq::empty()
        }
    } else if row == 5 {
        let found = menu.condition < view.conditions@.len();
        let id = if found { view.conditions@[menu.condition as int].0@ } else { "?"@ };
        let name = if found { view.conditions@[menu.condition as int].1@ } else { "?"@ };
        let state = present && spec_has_text(m.conditions@, id);
        "Cond     "@ + spec_field(name, on0) + "  "@ + (if state { "on"@ } else { "off"@ }) + "   Enter toggles"@
    } else if row == 6 {
        let name = if menu.item < view.items@.len() { view.items@[menu.item as int].1@ } else { "?"@ };
        "Item     "@ + spec_field(name, on0) + "  x"@ + spec_field(spec_decimal(menu.count as int), on1)
            + "   Enter to member  S to stores"@
    } else if row == 7 {
        "Gold     "@ + spec_field(spec_decimal(view.gold as int), on0)
    } else if row == 8 {
        "Food     "@ + spec_field(spec_decimal(view.food as int), on0)
    } else if row == 9 {
        let name = if menu.flag < view.flags@.len() { view.flags@[menu.flag as int]@ } else { "(no flags)"@ };
        "Flag     "@ + spec_field(name, on0) + "   Enter sets 1"@
    } else if row == 10 {
        let name = if menu.map < view.maps@.len() { view.maps@[menu.map as int].0@ } else { "?"@ };
        "Map      "@ + spec_field(name, on0) + "  x"@ + spec_field(spec_decimal(menu.tile.0 as int), on1) + " y"@
            + spec_field(spec_decimal(menu.tile.1 as int), spec_on(menu, row, 2)) + "  "@ + spec_field(
            FACING_WORDS[spec_min(menu.facing as int, 3)]@,
            spec_on(menu, row, 3),
        ) + "   Enter teleports"@
    } else if row == 11 {
        if menu.stack < view.stacks@.len() {
            let s = view.stacks@[menu.stack as int];
            "Stack    "@ + spec_field(
                spec_decimal(s.index as int) + " "@ + s.name@ + " "@ + spec_decimal(s.count.0 as int) + "/"@
                    + spec_decimal(s.count.1 as int),
                on0,
            ) + "  hp "@ + spec_field(spec_decimal(s.lead_hp as int), on1) + "   K kills"@
        } else {
            "Stack    (no fight)"@
        }
    } else {
        Seq::empty()
    }
}

/// Whether a condition id is among a member's.
fn has_condition(conditions: &Vec<String>, id: &str) -> (r: bool)
    ensures
        r == spec_has_text(conditions@, id@),
{
    let target = id.to_owned();
    let mut i: usize = 0;
    while i < conditions.len()
        invariant
            i <= conditions@.len(),
            target@ == id@,
            forall|k: int| 0 <= k < i ==> conditions@[k]@ != id@,
        decreases conditions@.len() - i,
    {
        if conditions[i].eq(&target) {
            return true;
        }
        i = i + 1;
    }
    false
}

/// The text of one row.
pub fn row_text(menu: &DebugMenu, view: &DebugView, row: usize) -> (r: String)
    ensures
        r@ == spec_row_text(*menu, *view, row as int),
{
    let on0 = if menu.row == row {
        menu.field == 0
    } else {
        true
    };
    let on1 = if menu.row == row {
        menu.field == 1
    } else {
        false
    };
    let present = menu.member < view.members.len();
    let mut s = String::new();
    proof {
        reveal_strlit("nobody");
        reveal_strlit("?");
        reveal_strlit("(no flags)");
    }
    if row == 0 {
        push_str(&mut s, "Member   ");
        let f = if present {
            field(view.members[menu.member].name.as_str(), on0)
        } else {
            field("nobody", on0)
        };
        push_str(&mut s, f.as_str());
    } else if row == 1 || row == 2 {
        if present {
            let m = &view.members[menu.member];
            push_str(&mut s, if row == 1 { "HP       " } else { "SP       " });
            let (cur, max): (i64, i64) = if row == 1 {
                (m.hp.0 as i64, m.hp.1 as i64)
            } else {
                (m.sp.0 as i64, m.sp.1 as i64)
            };
            let f = number_field(cur, on0);
            push_str(&mut s, f.as_str());
            push_str(&mut s, " / ");
            push_decimal(&mut s, max);
        }
    } else if row == 3 {
        if present {
            push_str(&mut s, "XP       ");
            let f = number_field(view.members[menu.member].xp as i64, on0);
            push_str(&mut s, f.as_str());
        }
    } else if row == 4 {
        if present {
            let a = if menu.ability < 5 {
                menu.ability
            } else {
                5
            };
            push_str(&mut s, "Score    ");
            let f = field(ABILITY_SHORT[a], on0);
            push_str(&mut s, f.as_str());
            push_str(&mut s, "  ");
            let g = number_field(view.members[menu.member].scores[a] as i64, on1);
            push_str(&mut s, g.as_str());
            push_str(&mut s, "   (hp max unchanged)");
        }
    } else if row == 5 {
        let found = menu.condition < view.conditions.len();
        let (id, name): (&str, &str) = if found {
            (view.conditions[menu.condition].0.as_str(), view.conditions[menu.condition].1.as_str())
        } else {
            ("?", "?")
        };
        let state = present && has_condition(&view.members[menu.member].conditions, id);
        push_str(&mut s, "Cond     ");
        let f = field(name, on0);
        push_str(&mut s, f.as_str());
        push_str(&mut s, "  ");
        push_str(&mut s, if state { "on" } else { "off" });
        push_str(&mut s, "   Enter toggles");
    } else if row == 6 {
        let name: &str = if menu.item < view.items.len() {
            view.items[menu.item].1.as_str()
        } else {
            "?"
        };
        push_str(&mut s, "Item     ");
        let f = field(name, on0);
        push_str(&mut s, f.as_str());
        push_str(&mut s, "  x");
        let g = number_field(menu.count as i64, on1);
        push_str(&mut s, g.as_str());
        push_str(&mut s, "   Enter to member  S to stores");
    } else if row == 7 || row == 8 {
        push_str(&mut s, if row == 7 { "Gold     " } else { "Food     " });
        let f = number_field(if row == 7 { view.gold as i64 } else { view.food as i64 }, on0);
        push_str(&mut s, f.as_str());
    } else if row == 9 {
        let name: &str = if menu.flag < view.flags.len() {
            view.flags[menu.flag].as_str()
        } else {
            "(no flags)"
        };
        push_str(&mut s, "Flag     ");
        let f = field(name, on0);
        push_str(&mut s, f.as_str());
        push_str(&mut s, "   Enter sets 1");
    } else if row == 10 {
        let name: &str = if menu.map < view.maps.len() {
            view.maps[menu.map].0.as_str()
        } else {
            "?"
        };
        let on2 = if menu.row == row {
            menu.field == 2
        } else {
            false
        };
        let on3 = if menu.row == row {
            menu.field == 3
        } else {
            false
        };
        push_str(&mut s, "Map      ");
        let f = field(name, on0);
        push_str(&mut s, f.as_str());
        push_str(&mut s, "  x");
        let g = number_field(menu.tile.0 as i64, on1);
        push_str(&mut s, g.as_str());
        push_str(&mut s, " y");
        let h = number_field(menu.tile.1 as i64, on2);
        push_str(&mut s, h.as_str());
        push_str(&mut s, "  ");
        let facing = if menu.facing < 3 {
            menu.facing
        } else {
            3
        };
        let k = field(FACING_WORDS[facing], on3);
        push_str(&mut s, k.as_str());
        push_str(&mut s, "   Enter teleports");
    } else if row == 11 {
        if menu.stack < view.stacks.len() {
            let st = &view.stacks[menu.stack];
            let mut inner = String::new();
            push_decimal(&mut inner, st.index as i64);
            push_str(&mut inner, " ");
            push_str(&mut inner, st.name.as_str());
            push_str(&mut inner, " ");
            push_decimal(&mut inner, st.count.0 as i64);
            push_str(&mut inner, "/");
            push_decimal(&mut inner, st.count.1 as i64);
            push_str(&mut s, "Stack    ");
            let f = field(inner.as_str(), on0);
            push_str(&mut s, f.as_str());
            push_str(&mut s, "  hp ");
            let g = number_field(st.lead_hp as i64, on1);
            push_str(&mut s, g.as_str());
            push_str(&mut s, "   K kills");
        } else {
            push_str(&mut s, "Stack    (no fight)");
        }
    }
    proof {
        assert(s@ =~= spec_row_text(*menu, *view, row as int));
    }
    s
}

/// Whether a row is inert: the stack row outside a fight, the map row in one.
pub open spec fn spec_inert(view: DebugView, row: int) -> bool {
    (row == 11 && !view.fighting) || (row == 10 && view.fighting)
}

/// A row's state: dim when inert, else selected on the cursor's row.
pub open spec fn spec_debug_state(menu: DebugMenu, view: DebugView, row: int) -> ItemState {
    if spec_inert(view, row) {
        ItemState::Disabled
    } else if menu.row == row {
        ItemState::Selected
    } else {
        ItemState::Normal
    }
}

/// The first `n` rows' paints.
pub open spec fn spec_debug_rows(menu: DebugMenu, view: DebugView, n: int) -> Seq<Ink>
    decreases n,
{
    if n <= 0 {
        Seq::empty()
    } else {
        spec_debug_rows(menu, view, n - 1) + spec_item_inks(
            spec_row_rect(1, 2 + n - 1, 158),
            spec_fit(spec_row_text(menu, view, n - 1), 158),
            spec_debug_state(menu, view, n - 1),
        )
    }
}

/// The first `n` rows' widgets: a choice per row.
pub open spec fn spec_debug_widgets(menu: DebugMenu, view: DebugView, n: int) -> Seq<Widget> {
    Seq::new(
        n as nat,
        |i: int|
            spec_item_widget(
                WidgetId::Row(i as usize),
                Kind::Choice,
                spec_row_rect(1, 2 + i, 158),
                spec_fit(spec_row_text(menu, view, i), 158),
                spec_debug_state(menu, view, i),
            ),
    )
}

/// The header's right-hand words: the mode and whether the world takes dev commands.
pub open spec fn spec_debug_mode(view: DebugView) -> Seq<char> {
    (if view.fighting { "fighting"@ } else { "exploring"@ }) + "   "@ + (if view.devtools {
        "dev world"@
    } else {
        "dev off: every edit is refused"@
    })
}

/// The debug screen's paints: the title, the mode, the twelve rows, the help line.
pub open spec fn spec_debug_inks(menu: DebugMenu, view: DebugView) -> Seq<Ink> {
    let mode = spec_debug_mode(view);
    seq![spec_label(1, 0, "DEBUG"@, HI), spec_label(spec_right_column(mode.len() as int), 0, mode, DIM)]
        + spec_debug_rows(menu, view, 12) + seq![spec_label(1, 15, DEBUG_HELP@, DIM)]
}

/// The debug menu.
pub fn debug(frame: &mut Frame, menu: &DebugMenu, view: &DebugView)
    requires
        old(frame).wf(),
        origin_near(*old(frame)),
    ensures
        Frame::painted(*old(frame), *final(frame), spec_debug_inks(*menu, *view), spec_debug_widgets(*menu, *view, 12)),
{
    let ghost f0 = *frame;
    label(frame, 1, 0, "DEBUG", HI);
    let ghost f1 = *frame;
    let mut mode = String::new();
    push_str(&mut mode, if view.fighting { "fighting" } else { "exploring" });
    push_str(&mut mode, "   ");
    push_str(&mut mode, if view.devtools { "dev world" } else { "dev off: every edit is refused" });
    proof {
        assert(mode@ =~= spec_debug_mode(*view));
    }
    label_right(frame, 0, mode.as_str(), DIM);
    let ghost head = seq![spec_label(1, 0, "DEBUG"@, HI), spec_label(spec_right_column(mode@.len() as int), 0, mode@, DIM)];
    proof {
        lemma_frame_then(
            f0,
            f1,
            *frame,
            seq![spec_label(1, 0, "DEBUG"@, HI)],
            Seq::empty(),
            seq![spec_label(spec_right_column(mode@.len() as int), 0, mode@, DIM)],
            Seq::empty(),
        );
        assert(seq![spec_label(1, 0, "DEBUG"@, HI)] + seq![spec_label(spec_right_column(mode@.len() as int), 0, mode@, DIM)] =~= head);
        assert(Seq::<Widget>::empty() + Seq::<Widget>::empty() =~= Seq::<Widget>::empty());
        assert(head + spec_debug_rows(*menu, *view, 0) =~= head);
        assert(spec_debug_widgets(*menu, *view, 0) =~= Seq::<Widget>::empty());
    }
    let mut row: usize = 0;
    while row < 12
        invariant
            row <= 12,
            frame.raster.origin == f0.raster.origin,
            origin_near(f0),
            Frame::painted(f0, *frame, head + spec_debug_rows(*menu, *view, row as int), spec_debug_widgets(*menu, *view, row as int)),
        decreases 12 - row,
    {
        let ghost before = *frame;
        let full = row_text(menu, view, row);
        let text = fit(full.as_str(), 158);
        let inert = (row == 11 && !view.fighting) || (row == 10 && view.fighting);
        let state = if inert {
            ItemState::Disabled
        } else {
            ItemState::from_selected(menu.row == row)
        };
        proof {
            crate::font::lemma_fit_prefix(full@, 158);
        }
        item_state(frame, WidgetId::Row(row), Kind::Choice, (1, 2 + row as i32), text.as_str(), 158, state);
        proof {
            let rect = spec_row_rect(1, 2 + row, 158);
            let w = spec_item_widget(WidgetId::Row(row), Kind::Choice, rect, text@, state);
            lemma_frame_then(
                f0,
                before,
                *frame,
                head + spec_debug_rows(*menu, *view, row as int),
                spec_debug_widgets(*menu, *view, row as int),
                spec_item_inks(rect, text@, state),
                seq![w],
            );
            assert(head + spec_debug_rows(*menu, *view, row as int) + spec_item_inks(rect, text@, state)
                =~= head + spec_debug_rows(*menu, *view, row + 1));
            assert(spec_debug_widgets(*menu, *view, row as int) + seq![w] =~= spec_debug_widgets(*menu, *view, row + 1));
        }
        row = row + 1;
    }
    let ghost before = *frame;
    label(frame, 1, 15, DEBUG_HELP, DIM);
    proof {
        lemma_frame_then(
            f0,
            before,
            *frame,
            head + spec_debug_rows(*menu, *view, 12),
            spec_debug_widgets(*menu, *view, 12),
            seq![spec_label(1, 15, DEBUG_HELP@, DIM)],
            Seq::empty(),
        );
        assert(spec_debug_widgets(*menu, *view, 12) + Seq::<Widget>::empty() =~= spec_debug_widgets(*menu, *view, 12));
        assert(head + spec_debug_rows(*menu, *view, 12) + seq![spec_label(1, 15, DEBUG_HELP@, DIM)] =~= spec_debug_inks(*menu, *view));
    }
}

} // verus!
