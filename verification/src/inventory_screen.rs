//! The inventory overlay painted in the menu box: the pane tabs on row 0 (`Row(0..panes)`),
//! the pane's summary, its rows (`Row(panes + i)`), and the action buttons (`Action(i)`),
//! each dim when it does not apply to the row under the cursor.

use vstd::prelude::*;
use crate::font::{fit, spec_fit};
use crate::inventory_menu::{INVENTORY_ACTIONS, InventoryMenu, InventoryView, ItemRow, spec_row};
use crate::layout::Rect;
use crate::raster::Ink;
use crate::screens::{
    ItemState, item_state, label, origin_near, spec_item_inks, spec_item_widget, spec_row_rect, spec_sel,
    spec_text_at,
};
use crate::sheet_menu::{slot_label, spec_slot_label};
use crate::text::{
    decimal, push_padded_left, push_padded_right, push_str, spec_decimal, spec_pad_left, spec_pad_right,
};
use crate::widget::{DIM, Frame, HI, Kind, Widget, WidgetId, lemma_frame_nothing, lemma_frame_then};

verus! {

/// Cells a tab may take; seven tabs at this pitch fit the grid.
pub const TAB_CELLS: usize = 8;
/// Cells from one tab to the next.
pub const TAB_PITCH: i32 = 10;
/// The first row of items.
pub const FIRST_ROW: i32 = 3;
/// Rows of items a pane shows.
pub const ROWS: usize = 10;
/// The row of the action buttons.
pub const ACTION_ROW: i32 = 14;
/// The action buttons' columns.
pub const ACTION_COLUMNS: [i32; 5] = [1, 12, 22, 32, 42];
/// Cells a full-width row may take.
pub const ROW_CELLS: usize = 158;

/// The marks at a row's end: worn, else usable, else none.
pub open spec fn spec_marks(row: ItemRow) -> Seq<char> {
    if row.equipped {
        "worn"@
    } else if row.usable {
        "use"@
    } else {
        ""@
    }
}

/// One row's text: the name fitted to 34 cells, the count (at most 999) right-aligned in
/// three after an `x`, the slot in ten, and the marks.
pub open spec fn spec_row_text(row: ItemRow) -> Seq<char> {
    let slot = match row.slot {
        Some(s) => spec_slot_label(s),
        None => ""@,
    };
    let count = if row.count < 999 {
        row.count as int
    } else {
        999
    };
    spec_pad_right(spec_fit(row.name@, 34), 34) + " x"@ + spec_pad_left(spec_decimal(count), 3) + "   "@
        + spec_pad_right(slot, 10) + " "@ + spec_marks(row)
}

/// One row's text: the name, the count, the slot, and the marks.
pub fn row_text(row: &ItemRow) -> (r: String)
    ensures
        r@ == spec_row_text(*row),
        r@.len() <= 80,
{
    let slot: &str = match row.slot {
        Some(s) => slot_label(s),
        None => "",
    };
    let marks: &str = if row.equipped {
        "worn"
    } else if row.usable {
        "use"
    } else {
        ""
    };
    let count: i64 = if row.count < 999 {
        row.count as i64
    } else {
        999
    };
    let name = fit(row.name.as_str(), 34);
    let mut text = String::new();
    push_padded_right(&mut text, name.as_str(), 34);
    push_str(&mut text, " x");
    let digits = decimal(count);
    push_padded_left(&mut text, digits.as_str(), 3);
    push_str(&mut text, "   ");
    push_padded_right(&mut text, slot, 10);
    push_str(&mut text, " ");
    push_str(&mut text, marks);
    proof {
        reveal_strlit(" x");
        reveal_strlit("   ");
        reveal_strlit(" ");
        reveal_strlit("worn");
        reveal_strlit("use");
        reveal_strlit("");
        reveal_strlit("Main hand");
        reveal_strlit("Off hand");
        reveal_strlit("Ranged");
        reveal_strlit("Body");
        crate::text::lemma_digits_len(count as nat);
        crate::text::lemma_pad_len(spec_fit(row.name@, 34), 34);
        crate::text::lemma_pad_len(spec_decimal(count as int), 3);
        assert(Seq::<char>::empty() + spec_pad_right(spec_fit(row.name@, 34), 34) =~= spec_pad_right(
            spec_fit(row.name@, 34),
            34,
        ));
    }
    text
}

/// How many tabs the overlay shows: a pane each, at most seven.
pub open spec fn spec_tab_count(view: InventoryView) -> int {
    if view.panes@.len() < 7 {
        view.panes@.len() as int
    } else {
        7
    }
}

/// Where tab `i` stands.
pub open spec fn spec_tab_rect(i: int) -> Rect {
    spec_row_rect(8 + 10 * i, 0, 8)
}

/// The heading and the first `n` tabs' paints.
pub open spec fn spec_tabs_inks(menu: InventoryMenu, view: InventoryView, n: int) -> Seq<Ink>
    decreases n,
{
    if n <= 0 {
        seq![spec_text_at(1, 0, "ITEMS"@, HI)]
    } else {
        spec_tabs_inks(menu, view, n - 1) + spec_item_inks(
            spec_tab_rect(n - 1),
            spec_fit(view.panes@[n - 1].title@, 8),
            spec_sel(n - 1 == menu.pane),
        )
    }
}

/// The first `n` tabs' widgets.
pub open spec fn spec_tabs_widgets(menu: InventoryMenu, view: InventoryView, n: int) -> Seq<Widget> {
    Seq::new(
        n as nat,
        |i: int|
            spec_item_widget(
                WidgetId::Row(i as usize),
                Kind::Button,
                spec_tab_rect(i),
                spec_fit(view.panes@[i].title@, 8),
                spec_sel(i == menu.pane),
            ),
    )
}

fn tabs(frame: &mut Frame, menu: &InventoryMenu, view: &InventoryView)
    requires
        old(frame).wf(),
        origin_near(*old(frame)),
    ensures
        Frame::painted(
            *old(frame),
            *final(frame),
            spec_tabs_inks(*menu, *view, spec_tab_count(*view)),
            spec_tabs_widgets(*menu, *view, spec_tab_count(*view)),
        ),
        final(frame).raster.origin == old(frame).raster.origin,
{
    let ghost f0 = *frame;
    label(frame, 1, 0, "ITEMS", HI);
    proof {
        assert(spec_tabs_widgets(*menu, *view, 0) =~= Seq::<Widget>::empty());
    }
    let n: usize = if view.panes.len() < 7 {
        view.panes.len()
    } else {
        7
    };
    let mut i: usize = 0;
    while i < n
        invariant
            i <= n,
            n == spec_tab_count(*view),
            n <= 7,
            frame.raster.origin == f0.raster.origin,
            origin_near(f0),
            Frame::painted(f0, *frame, spec_tabs_inks(*menu, *view, i as int), spec_tabs_widgets(*menu, *view, i as int)),
        decreases n - i,
    {
        let ghost before = *frame;
        let title = fit(view.panes[i].title.as_str(), TAB_CELLS);
        proof {
            crate::font::lemma_fit_prefix(view.panes@[i as int].title@, 8);
        }
        item_state(
            frame,
            WidgetId::Row(i),
            Kind::Button,
            (8 + i as i32 * TAB_PITCH, 0),
            title.as_str(),
            TAB_CELLS,
            ItemState::from_selected(i == menu.pane),
        );
        proof {
            let state = spec_sel(i == menu.pane);
            let text = spec_fit(view.panes@[i as int].title@, 8);
            let w = spec_item_widget(WidgetId::Row(i), Kind::Button, spec_tab_rect(i as int), text, state);
            lemma_frame_then(
                f0,
                before,
                *frame,
                spec_tabs_inks(*menu, *view, i as int),
                spec_tabs_widgets(*menu, *view, i as int),
                spec_item_inks(spec_tab_rect(i as int), text, state),
                seq![w],
            );
            assert(spec_tabs_widgets(*menu, *view, i as int) + seq![w] =~= spec_tabs_widgets(*menu, *view, i + 1));
        }
        i = i + 1;
    }
}

/// The first row the window shows: the cursor stays on its last line or above.
pub open spec fn spec_first(cursor: int) -> int {
    if cursor >= 9 {
        cursor - 9
    } else {
        0
    }
}

/// How many rows the window shows from its first.
pub open spec fn spec_shown(cursor: int, rows: int) -> int {
    let first = spec_first(cursor);
    if rows <= first {
        0
    } else if rows - first < 10 {
        rows - first
    } else {
        10
    }
}

/// The pane's head: its summary, and `nothing` when it has no rows.
pub open spec fn spec_pane_head(view: InventoryView, pane: int) -> Seq<Ink> {
    let p = view.panes@[pane];
    seq![spec_text_at(1, 1, spec_fit(p.summary@, 158), DIM)] + if p.rows@.len() == 0 {
        seq![spec_text_at(1, 3, "nothing"@, DIM)]
    } else {
        Seq::empty()
    }
}

/// The first `n` shown rows' paints.
pub open spec fn spec_rows_inks(menu: InventoryMenu, view: InventoryView, n: int) -> Seq<Ink>
    decreases n,
{
    let first = spec_first(menu.cursor as int);
    let rows = view.panes@[menu.pane as int].rows@;
    if n <= 0 {
        Seq::empty()
    } else {
        spec_rows_inks(menu, view, n - 1) + spec_item_inks(
            spec_row_rect(1, 3 + n - 1, 158),
            spec_row_text(rows[first + n - 1]),
            spec_sel(first + n - 1 == menu.cursor),
        )
    }
}

/// The first `n` shown rows' widgets, keyed after the tabs.
pub open spec fn spec_rows_widgets(menu: InventoryMenu, view: InventoryView, n: int) -> Seq<Widget> {
    let first = spec_first(menu.cursor as int);
    let rows = view.panes@[menu.pane as int].rows@;
    Seq::new(
        n as nat,
        |j: int|
            spec_item_widget(
                WidgetId::Row((view.panes@.len() + first + j) as usize),
                Kind::Button,
                spec_row_rect(1, 3 + j, 158),
                spec_row_text(rows[first + j]),
                spec_sel(first + j == menu.cursor),
            ),
    )
}

/// The pane part of the overlay: nothing past the panes, else the head and the window of rows.
pub open spec fn spec_pane_inks(menu: InventoryMenu, view: InventoryView) -> Seq<Ink> {
    if menu.pane < view.panes@.len() {
        let rows = view.panes@[menu.pane as int].rows@.len() as int;
        spec_pane_head(view, menu.pane as int) + spec_rows_inks(menu, view, spec_shown(menu.cursor as int, rows))
    } else {
        Seq::empty()
    }
}

/// The pane part's widgets.
pub open spec fn spec_pane_widgets(menu: InventoryMenu, view: InventoryView) -> Seq<Widget> {
    if menu.pane < view.panes@.len() {
        let rows = view.panes@[menu.pane as int].rows@.len() as int;
        spec_rows_widgets(menu, view, spec_shown(menu.cursor as int, rows))
    } else {
        Seq::empty()
    }
}

/// The view is small enough to key its rows after its tabs.
pub open spec fn fits(view: InventoryView) -> bool {
    &&& view.panes@.len() <= 0x100_0000
    &&& forall|i: int| 0 <= i < view.panes@.len() ==> (#[trigger] view.panes@[i]).rows@.len() <= 0x100_0000
}

fn rows(frame: &mut Frame, menu: &InventoryMenu, view: &InventoryView)
    requires
        old(frame).wf(),
        origin_near(*old(frame)),
        fits(*view),
    ensures
        Frame::painted(*old(frame), *final(frame), spec_pane_inks(*menu, *view), spec_pane_widgets(*menu, *view)),
        final(frame).raster.origin == old(frame).raster.origin,
{
    let ghost f0 = *frame;
    proof {
        lemma_frame_nothing(f0);
    }
    if menu.pane >= view.panes.len() {
        return;
    }
    let pane = &view.panes[menu.pane];
    let summary = fit(pane.summary.as_str(), ROW_CELLS);
    label(frame, 1, 1, summary.as_str(), DIM);
    if pane.rows.len() == 0 {
        let ghost mid = *frame;
        label(frame, 1, FIRST_ROW, "nothing", DIM);
        proof {
            lemma_frame_then(
                f0,
                mid,
                *frame,
                seq![spec_text_at(1, 1, spec_fit(pane.summary@, 158), DIM)],
                Seq::empty(),
                seq![spec_text_at(1, 3, "nothing"@, DIM)],
                Seq::empty(),
            );
        }
    }
    let ghost head = spec_pane_head(*view, menu.pane as int);
    proof {
        assert(Seq::<Widget>::empty() + Seq::<Widget>::empty() =~= Seq::<Widget>::empty());
        assert(head + spec_rows_inks(*menu, *view, 0) =~= head);
        assert(spec_rows_widgets(*menu, *view, 0) =~= Seq::<Widget>::empty());
    }
    let first: usize = if menu.cursor >= ROWS - 1 {
        menu.cursor - (ROWS - 1)
    } else {
        0
    };
    let n = pane.rows.len();
    let shown: usize = if n <= first {
        0
    } else if n - first < ROWS {
        n - first
    } else {
        ROWS
    };
    let mut j: usize = 0;
    while j < shown
        invariant
            j <= shown,
            shown == spec_shown(menu.cursor as int, n as int),
            first == spec_first(menu.cursor as int),
            n == pane.rows@.len(),
            *pane == view.panes@[menu.pane as int],
            menu.pane < view.panes@.len(),
            fits(*view),
            head == spec_pane_head(*view, menu.pane as int),
            frame.raster.origin == f0.raster.origin,
            origin_near(f0),
            Frame::painted(f0, *frame, head + spec_rows_inks(*menu, *view, j as int), spec_rows_widgets(*menu, *view, j as int)),
        decreases shown - j,
    {
        let ghost before = *frame;
        let i = first + j;
        let text = row_text(&pane.rows[i]);
        proof {
            assert(view.panes@[menu.pane as int].rows@.len() <= 0x100_0000);
        }
        item_state(
            frame,
            WidgetId::Row(view.panes.len() + i),
            Kind::Button,
            (1, FIRST_ROW + j as i32),
            text.as_str(),
            ROW_CELLS,
            ItemState::from_selected(i == menu.cursor),
        );
        proof {
            let state = spec_sel(i == menu.cursor);
            let t = spec_row_text(pane.rows@[i as int]);
            let w = spec_item_widget(WidgetId::Row((view.panes@.len() + i) as usize), Kind::Button, spec_row_rect(1, 3 + j, 158), t, state);
            lemma_frame_then(
                f0,
                before,
                *frame,
                head + spec_rows_inks(*menu, *view, j as int),
                spec_rows_widgets(*menu, *view, j as int),
                spec_item_inks(spec_row_rect(1, 3 + j, 158), t, state),
                seq![w],
            );
            assert(spec_rows_widgets(*menu, *view, j as int) + seq![w] =~= spec_rows_widgets(*menu, *view, j + 1));
            assert(head + spec_rows_inks(*menu, *view, j as int) + spec_item_inks(spec_row_rect(1, 3 + j, 158), t, state)
                =~= head + spec_rows_inks(*menu, *view, j + 1));
        }
        j = j + 1;
    }
}

/// How an action button is drawn: live when it applies to the pane and its row, else inert.
pub open spec fn spec_action_state(i: int, menu: InventoryMenu, view: InventoryView) -> ItemState {
    if INVENTORY_ACTIONS[i].spec_applies(
        menu.pane + 1 == view.panes@.len(),
        spec_row(menu.pane, menu.cursor, view),
    ) {
        ItemState::Normal
    } else {
        ItemState::Disabled
    }
}

/// Where action button `i` stands: as wide as its label.
pub open spec fn spec_action_rect(i: int) -> Rect {
    spec_row_rect(ACTION_COLUMNS[i] as int, 14, INVENTORY_ACTIONS[i].spec_label().len() as int)
}

/// The first `n` action buttons' paints.
pub open spec fn spec_actions_inks(menu: InventoryMenu, view: InventoryView, n: int) -> Seq<Ink>
    decreases n,
{
    if n <= 0 {
        Seq::empty()
    } else {
        spec_actions_inks(menu, view, n - 1) + spec_item_inks(
            spec_action_rect(n - 1),
            INVENTORY_ACTIONS[n - 1].spec_label(),
            spec_action_state(n - 1, menu, view),
        )
    }
}

/// The first `n` action buttons' widgets.
pub open spec fn spec_actions_widgets(menu: InventoryMenu, view: InventoryView, n: int) -> Seq<Widget> {
    Seq::new(
        n as nat,
        |i: int|
            spec_item_widget(
                WidgetId::Action(i as usize),
                Kind::Button,
                spec_action_rect(i),
                INVENTORY_ACTIONS[i].spec_label(),
                spec_action_state(i, menu, view),
            ),
    )
}

fn actions(frame: &mut Frame, menu: &InventoryMenu, view: &InventoryView)
    requires
        old(frame).wf(),
        origin_near(*old(frame)),
    ensures
        Frame::painted(*old(frame), *final(frame), spec_actions_inks(*menu, *view, 5), spec_actions_widgets(*menu, *view, 5)),
        final(frame).raster.origin == old(frame).raster.origin,
{
    let ghost f0 = *frame;
    proof {
        lemma_frame_nothing(f0);
        assert(spec_actions_widgets(*menu, *view, 0) =~= Seq::<Widget>::empty());
    }
    let stores = menu.stores(view);
    let row = menu.row(view);
    let mut i: usize = 0;
    while i < 5
        invariant
            i <= 5,
            stores == (menu.pane + 1 == view.panes@.len()),
            match row {
                Some(x) => spec_row(menu.pane, menu.cursor, *view) == Some(*x),
                None => spec_row(menu.pane, menu.cursor, *view) is None,
            },
            frame.raster.origin == f0.raster.origin,
            origin_near(f0),
            Frame::painted(f0, *frame, spec_actions_inks(*menu, *view, i as int), spec_actions_widgets(*menu, *view, i as int)),
        decreases 5 - i,
    {
        let ghost before = *frame;
        let action = INVENTORY_ACTIONS[i];
        let state = if action.applies(stores, row) {
            ItemState::Normal
        } else {
            ItemState::Disabled
        };
        let text = action.label();
        proof {
            reveal_strlit("E equip");
            reveal_strlit("U use");
            reveal_strlit("S stow");
            reveal_strlit("T take");
            reveal_strlit("G give");
        }
        item_state(frame, WidgetId::Action(i), Kind::Button, (ACTION_COLUMNS[i], ACTION_ROW), text, text.unicode_len(), state);
        proof {
            let w = spec_item_widget(WidgetId::Action(i), Kind::Button, spec_action_rect(i as int), text@, state);
            lemma_frame_then(
                f0,
                before,
                *frame,
                spec_actions_inks(*menu, *view, i as int),
                spec_actions_widgets(*menu, *view, i as int),
                spec_item_inks(spec_action_rect(i as int), text@, state),
                seq![w],
            );
            assert(spec_actions_widgets(*menu, *view, i as int) + seq![w] =~= spec_actions_widgets(*menu, *view, i + 1));
        }
        i = i + 1;
    }
}

/// The overlay: the tabs, the pane, the actions.
pub fn inventory(frame: &mut Frame, menu: &InventoryMenu, view: &InventoryView)
    requires
        old(frame).wf(),
        origin_near(*old(frame)),
        fits(*view),
    ensures
        Frame::painted(
            *old(frame),
            *final(frame),
            spec_tabs_inks(*menu, *view, spec_tab_count(*view)) + spec_pane_inks(*menu, *view) + spec_actions_inks(
                *menu,
                *view,
                5,
            ),
            spec_tabs_widgets(*menu, *view, spec_tab_count(*view)) + spec_pane_widgets(*menu, *view)
                + spec_actions_widgets(*menu, *view, 5),
        ),
{
    let ghost f0 = *frame;
    tabs(frame, menu, view);
    let ghost f1 = *frame;
    rows(frame, menu, view);
    let ghost f2 = *frame;
    actions(frame, menu, view);
    proof {
        let ti = spec_tabs_inks(*menu, *view, spec_tab_count(*view));
        let tw = spec_tabs_widgets(*menu, *view, spec_tab_count(*view));
        lemma_frame_then(f0, f1, f2, ti, tw, spec_pane_inks(*menu, *view), spec_pane_widgets(*menu, *view));
        lemma_frame_then(
            f0,
            f2,
            *frame,
            ti + spec_pane_inks(*menu, *view),
            tw + spec_pane_widgets(*menu, *view),
            spec_actions_inks(*menu, *view, 5),
            spec_actions_widgets(*menu, *view, 5),
        );
    }
}

} // verus!
